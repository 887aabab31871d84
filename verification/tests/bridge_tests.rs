use termie::bridge::{
    child_env_overrides, handle_classifier_event, handle_read_event, submit_line,
    ClassifierDirective, ClassifierEvent, EnvDirective, ReadDirective, ReadEvent, SubmitAction,
};
use termie::input_line::InputLine;
use termie::output_buffer::OutputBuffer;
use termie::scanner::{ScanState, Scanner};

#[test]
fn would_block_changes_nothing_and_is_no_error() {
    let mut scanner = Scanner::new();
    let mut out = OutputBuffer::new(64);
    out.append(b"before");
    let r = handle_read_event(&mut scanner, &mut out, ReadEvent::WouldBlock);
    assert!(matches!(r, ReadDirective::Continue));
    assert_eq!(out.contents().as_slice(), b"before");
    assert_eq!(scanner.state, ScanState::Normal);
}

#[test]
fn data_is_scanned_and_appended() {
    let mut scanner = Scanner::new();
    let mut out = OutputBuffer::new(64);
    let r = handle_read_event(&mut scanner, &mut out, ReadEvent::Data(b"hi\x1b[31m!".to_vec()));
    assert!(matches!(r, ReadDirective::Continue));
    assert_eq!(out.contents().as_slice(), b"hi!");
}

#[test]
fn data_chunks_elide_a_sequence_cut_at_the_boundary() {
    let mut scanner = Scanner::new();
    let mut out = OutputBuffer::new(64);
    handle_read_event(&mut scanner, &mut out, ReadEvent::Data(b"ok\x1b[3".to_vec()));
    assert_eq!(out.contents().as_slice(), b"ok");
    handle_read_event(&mut scanner, &mut out, ReadEvent::Data(b"1mred".to_vec()));
    assert_eq!(out.contents().as_slice(), b"okred");
}

#[test]
fn data_with_invalid_utf8_is_decoded_lossily() {
    let mut scanner = Scanner::new();
    let mut out = OutputBuffer::new(64);
    let r = handle_read_event(&mut scanner, &mut out, ReadEvent::Data(vec![b'a', 0xff, b'b']));
    assert!(matches!(r, ReadDirective::Continue));
    assert_eq!(out.contents().as_slice(), "a\u{fffd}b".as_bytes());
}

#[test]
fn closed_means_reap() {
    let mut scanner = Scanner::new();
    let mut out = OutputBuffer::new(64);
    let r = handle_read_event(&mut scanner, &mut out, ReadEvent::Closed);
    assert!(matches!(r, ReadDirective::Reap));
    assert_eq!(out.len(), 0);
}

#[test]
fn failed_read_is_logged_and_ends_the_session() {
    let mut scanner = Scanner::new();
    let mut out = OutputBuffer::new(64);
    let r = handle_read_event(
        &mut scanner,
        &mut out,
        ReadEvent::Failed(String::from("input/output error")),
    );
    match r {
        ReadDirective::Fail(msg) => assert_eq!(msg, "input/output error"),
        _ => panic!("a failed read must end the session"),
    }
    assert_eq!(out.len(), 0);
}

#[test]
fn submitting_a_nonempty_line_sends_it_with_a_newline_once() {
    let mut line = InputLine::new();
    assert!(line.append_bytes(b"echo hi"));
    let r = submit_line(&mut line);
    match r {
        SubmitAction::Send(payload) => assert_eq!(payload, b"echo hi\n".to_vec()),
        _ => panic!("a non-empty line must be sent"),
    }
    assert!(line.is_empty());
}

#[test]
fn submitting_an_empty_line_passes_a_bare_newline() {
    let mut line = InputLine::new();
    let r = submit_line(&mut line);
    assert!(matches!(r, SubmitAction::PassNewline));
    assert!(line.is_empty());
}

#[test]
fn command_verdict_forwards_the_line_verbatim() {
    let mut out = OutputBuffer::new(128);
    let r = handle_classifier_event(
        &mut out,
        ClassifierEvent::Classified { line: b"ls -la\n".to_vec(), is_command: true },
    );
    match r {
        ClassifierDirective::Forward(w) => assert_eq!(w, b"ls -la\n".to_vec()),
        _ => panic!("a command must be forwarded"),
    }
    assert_eq!(out.len(), 0);
}

#[test]
fn natural_language_verdict_notes_and_sends_only_a_newline() {
    let mut out = OutputBuffer::new(128);
    let r = handle_classifier_event(
        &mut out,
        ClassifierEvent::Classified { line: b"how are you?\n".to_vec(), is_command: false },
    );
    match r {
        ClassifierDirective::Forward(w) => assert_eq!(w, b"\n".to_vec()),
        _ => panic!("only a newline goes to the shell"),
    }
    assert_eq!(
        out.contents().as_slice(),
        b"how are you?\nnatural language query received"
    );
}

#[test]
fn classifier_failure_is_logged_and_forwards_nothing() {
    let mut out = OutputBuffer::new(128);
    let r = handle_classifier_event(
        &mut out,
        ClassifierEvent::Failed { message: String::from("connection refused") },
    );
    match r {
        ClassifierDirective::Log(msg) => assert_eq!(msg, "connection refused"),
        _ => panic!("a failure must only be logged"),
    }
    assert_eq!(out.len(), 0);
}

#[test]
fn child_environment_unsets_hook_and_sets_prompt() {
    let overrides = child_env_overrides();
    assert_eq!(overrides.len(), 2);
    match &overrides[0] {
        EnvDirective::Unset(k) => assert_eq!(k, "ENV"),
        _ => panic!("the startup hook must be unset"),
    }
    match &overrides[1] {
        EnvDirective::Assign(k, v) => {
            assert_eq!(k, "PS1");
            assert_eq!(v, "% ");
        }
        _ => panic!("the prompt must be set"),
    }
}
