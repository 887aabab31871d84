use termie::input_line::{InputLine, INPUT_LINE_CAP};
use termie::output_buffer::{OutputBuffer, OUTPUT_BUFFER_CAP};

#[test]
fn appends_then_backspaces_return_to_empty() {
    let mut line = InputLine::new();
    let text = b"echo hello world";
    for &b in text.iter() {
        assert!(line.push_byte(b));
    }
    assert_eq!(line.len(), text.len());
    for _ in 0..text.len() {
        line.backspace();
    }
    assert!(line.is_empty());
}

#[test]
fn push_refused_at_cap() {
    let mut line = InputLine::new();
    for _ in 0..INPUT_LINE_CAP {
        assert!(line.push_byte(b'a'));
    }
    assert_eq!(line.len(), INPUT_LINE_CAP);
    assert!(!line.push_byte(b'b'));
    assert_eq!(line.len(), INPUT_LINE_CAP);
}

#[test]
fn append_bytes_rejected_when_it_would_overflow() {
    let mut line = InputLine::new();
    let big = vec![b'x'; INPUT_LINE_CAP - 1];
    assert!(line.append_bytes(&big));
    assert!(!line.append_bytes(b"yz"));
    assert_eq!(line.len(), INPUT_LINE_CAP - 1);
    assert!(line.append_bytes(b"y"));
    assert_eq!(line.len(), INPUT_LINE_CAP);
}

#[test]
fn overfull_appends_then_matching_backspaces_still_empty() {
    let mut line = InputLine::new();
    let n = INPUT_LINE_CAP + 5;
    for _ in 0..n {
        line.push_byte(b'q');
    }
    assert_eq!(line.len(), INPUT_LINE_CAP);
    for _ in 0..n {
        line.backspace();
    }
    assert!(line.is_empty());
}

#[test]
fn backspace_on_empty_line_is_a_noop() {
    let mut line = InputLine::new();
    line.backspace();
    assert!(line.is_empty());
}

#[test]
fn backspace_removes_a_whole_multibyte_character() {
    let mut line = InputLine::new();
    assert!(line.append_bytes("a\u{e9}".as_bytes()));
    assert_eq!(line.len(), 3);
    line.backspace();
    assert_eq!(line.contents().as_slice(), b"a");
    line.backspace();
    assert!(line.is_empty());
}

#[test]
fn backspace_removes_a_four_byte_character() {
    let mut line = InputLine::new();
    assert!(line.append_bytes("x\u{1f600}".as_bytes()));
    assert_eq!(line.len(), 5);
    line.backspace();
    assert_eq!(line.contents().as_slice(), b"x");
}

#[test]
fn output_buffer_keeps_order_within_cap() {
    let mut out = OutputBuffer::new(16);
    out.append(b"hello ");
    out.append(b"world");
    assert_eq!(out.contents().as_slice(), b"hello world");
    assert_eq!(out.len(), 11);
}

#[test]
fn output_buffer_evicts_oldest_bytes() {
    let mut out = OutputBuffer::new(8);
    out.append(b"abcdefgh");
    out.append(b"xyz");
    assert_eq!(out.contents().as_slice(), b"defghxyz");
    assert_eq!(out.len(), 8);
}

#[test]
fn output_buffer_huge_append_keeps_newest_tail() {
    let mut out = OutputBuffer::new(4);
    out.append(b"abcdefgh");
    assert_eq!(out.contents().as_slice(), b"efgh");
}

#[test]
fn output_buffer_never_exceeds_cap() {
    let mut out = OutputBuffer::new(10);
    let chunks: [&[u8]; 6] = [b"aaaa", b"bbbbbbbbbbbbbb", b"", b"c", b"dddddddddd", b"ee"];
    for chunk in chunks.iter() {
        out.append(chunk);
        assert!(out.len() <= out.capacity());
    }
    assert_eq!(out.contents().as_slice(), b"ddddddddee");
}

#[test]
fn output_buffer_default_cap_is_the_configured_bound() {
    let out = OutputBuffer::new(OUTPUT_BUFFER_CAP);
    assert_eq!(out.capacity(), 1_000_000);
}
