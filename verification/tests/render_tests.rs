use termie::input_line::InputLine;
use termie::output_buffer::OutputBuffer;
use termie::render::{clear_framebuffer, compose_display, composite_glyph, split_lines};

#[test]
fn clear_resets_every_pixel() {
    let mut fb = vec![0xdead_beefu32; 12];
    clear_framebuffer(&mut fb);
    assert_eq!(fb.len(), 12);
    assert!(fb.iter().all(|&p| p == 0));
}

#[test]
fn composite_writes_packed_pixels_at_the_position() {
    let mut fb = vec![0u32; 16];
    let coverage = [0u8, 128, 255, 1];
    composite_glyph(&mut fb, 4, 4, 1, 1, 2, 2, &coverage);
    assert_eq!(fb[1 * 4 + 1], 0);
    assert_eq!(fb[1 * 4 + 2], 128 * 0x01_01_01);
    assert_eq!(fb[2 * 4 + 1], 255 * 0x01_01_01);
    assert_eq!(fb[2 * 4 + 2], 0x01_01_01);
    let touched = [5usize, 6, 9, 10];
    for i in 0..16 {
        if !touched.contains(&i) {
            assert_eq!(fb[i], 0, "pixel {i} must stay untouched");
        }
    }
}

#[test]
fn composite_clips_cells_outside_the_framebuffer() {
    let mut fb = vec![7u32; 16];
    let coverage = [10u8, 20, 30, 40];
    composite_glyph(&mut fb, 4, 4, 3, 3, 2, 2, &coverage);
    assert_eq!(fb[3 * 4 + 3], 10 * 0x01_01_01);
    for i in 0..15 {
        assert_eq!(fb[i], 7, "pixel {i} must stay untouched");
    }
}

#[test]
fn composite_far_outside_changes_nothing() {
    let mut fb = vec![3u32; 9];
    let coverage = [200u8; 4];
    composite_glyph(&mut fb, 3, 3, 10, 10, 2, 2, &coverage);
    assert!(fb.iter().all(|&p| p == 3));
}

#[test]
fn display_is_output_then_pending_input() {
    let mut out = OutputBuffer::new(64);
    out.append(b"$ ");
    let mut line = InputLine::new();
    assert!(line.append_bytes(b"ec"));
    let display = compose_display(&out, &line);
    assert_eq!(display, b"$ ec".to_vec());
}

#[test]
fn split_lines_terminator_semantics() {
    let lines = split_lines(b"a\nb");
    assert_eq!(lines, vec![b"a".to_vec(), b"b".to_vec()]);
    assert_eq!(split_lines(b"a\n"), vec![b"a".to_vec()]);
    assert_eq!(split_lines(b""), Vec::<Vec<u8>>::new());
    assert_eq!(split_lines(b"\n\n"), vec![Vec::<u8>::new(), Vec::<u8>::new()]);
    assert_eq!(
        split_lines(b"a\n\nb"),
        vec![b"a".to_vec(), Vec::<u8>::new(), b"b".to_vec()]
    );
    assert_eq!(split_lines(b"\n"), vec![Vec::<u8>::new()]);
}

#[test]
fn split_lines_strips_the_carriage_return_of_crlf() {
    assert_eq!(split_lines(b"a\r\nb"), vec![b"a".to_vec(), b"b".to_vec()]);
    assert_eq!(split_lines(b"ab\r\n"), vec![b"ab".to_vec()]);
    assert_eq!(split_lines(b"\r\n"), vec![Vec::<u8>::new()]);
    assert_eq!(
        split_lines(b"a\r\nb\r\nc"),
        vec![b"a".to_vec(), b"b".to_vec(), b"c".to_vec()]
    );
}

#[test]
fn split_lines_keeps_a_bare_trailing_carriage_return() {
    assert_eq!(split_lines(b"a\r"), vec![b"a\r".to_vec()]);
    assert_eq!(split_lines(b"a\rb\n"), vec![b"a\rb".to_vec()]);
}
