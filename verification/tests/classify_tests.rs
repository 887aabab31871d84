use termie::classify::{
    build_classifier_prompt, classify_reply, classify_response_body, contains_str,
    extract_reply_text, is_command_reply, remote_reply_text,
};

#[test]
fn contains_finds_and_misses() {
    assert!(contains_str("a command indeed", "command"));
    assert!(contains_str("command", "command"));
    assert!(!contains_str("commend", "command"));
    assert!(!contains_str("comman", "command"));
    assert!(contains_str("anything", ""));
}

#[test]
fn reply_containing_command_reads_as_command() {
    assert!(is_command_reply("command"));
    assert!(is_command_reply("Output: command."));
    assert!(!is_command_reply("natural"));
}

#[test]
fn reply_verdict_is_case_insensitive() {
    assert!(is_command_reply("COMMAND"));
    assert!(is_command_reply("Command"));
}

#[test]
fn missing_reply_defaults_to_natural_language() {
    assert!(!classify_reply(None));
    assert!(classify_reply(Some("command")));
}

#[test]
fn response_body_with_command_reply() {
    let r = classify_response_body(b"{\"response\":\"command\"}");
    assert_eq!(r, Ok(true));
}

#[test]
fn response_body_with_natural_reply() {
    let r = classify_response_body(b"{\"response\":\"natural\"}");
    assert_eq!(r, Ok(false));
}

#[test]
fn response_body_without_the_field_is_natural() {
    assert_eq!(classify_response_body(b"{\"other\":1}"), Ok(false));
}

#[test]
fn response_body_with_a_non_string_field_is_natural() {
    assert_eq!(classify_response_body(b"{\"response\":7}"), Ok(false));
}

#[test]
fn unparsable_response_body_is_an_error() {
    let r = classify_response_body(b"not json at all");
    match r {
        Err(msg) => assert!(!msg.is_empty()),
        Ok(_) => panic!("bytes that are not JSON must be refused"),
    }
}

#[test]
fn reply_text_is_extracted_from_the_response_field() {
    let r = extract_reply_text(b"{\"response\":\"hello there\"}");
    assert_eq!(r, Ok(Some(String::from("hello there"))));
    assert_eq!(extract_reply_text(b"{}"), Ok(None));
}

#[test]
fn remote_reply_is_the_response_field_or_empty() {
    assert_eq!(
        remote_reply_text(b"{\"response\":\"all done\"}"),
        Ok(String::from("all done"))
    );
    assert_eq!(remote_reply_text(b"{}"), Ok(String::new()));
    assert_eq!(remote_reply_text(b"{\"response\":3}"), Ok(String::new()));
    match remote_reply_text(b"][") {
        Err(msg) => assert!(!msg.is_empty()),
        Ok(_) => panic!("bytes that are not JSON must be refused"),
    }
}

#[test]
fn prompt_quotes_the_line_at_the_end() {
    let p = build_classifier_prompt("ls -la");
    assert!(p.starts_with("Classify input as either 'command'"));
    assert!(p.ends_with("Input: \"ls -la\""));
    assert!(p.contains("Output: natural"));
}
