//! Interpretation of the command classifier's replies. The transport that
//! carries a prompt to the classifier and brings a response body back lives
//! outside the library; the prompt building, the JSON field extraction and
//! the verdict on the extracted reply are here.

use vstd::prelude::*;
use vstd::string::StrSliceExecFns;
use vstd::string::StringExecFns;

verus! {

/// How a classifier response body reads: `None` when the bytes are not one
/// JSON document; `Some(None)` when they are but hold no string "response"
/// field; `Some(Some(s))` when that field holds the reply text `s`. JSON
/// parsing and field lookup are deterministic, so this is a function of
/// the bytes alone.
pub uninterp spec fn reply_of(bytes: Seq<u8>) -> Option<Option<Seq<char>>>;

/// The parser's message for bytes that are not one JSON document: a
/// function of the bytes alone.
pub uninterp spec fn parse_err_of(bytes: Seq<u8>) -> Seq<char>;

/// Relies on serde_json::from_slice (whether the bytes parse as one JSON
/// document, and the parser's message when they do not, via
/// serde_json::Error's Display impl), serde_json::Value::get (the
/// "response" field of an object, `None` on anything else) and
/// serde_json::Value::as_str (the payload of a JSON string, `None` on
/// anything else). The composed result is a function of the bytes alone,
/// named `reply_of` and `parse_err_of`.
#[verifier::external_body]
fn parse_reply(body: &[u8]) -> (r: Result<Option<String>, String>)
    ensures
        match reply_of(body@) {
            None => r matches Err(m) && m@ == parse_err_of(body@),
            Some(None) => r matches Ok(o) && o is None,
            Some(Some(t)) => r matches Ok(o) && (o matches Some(s) && s@ == t),
        },
{
    match serde_json::from_slice::<serde_json::Value>(body) {
        Err(e) => Err(e.to_string()),
        Ok(doc) => match doc.get("response") {
            None => Ok(None),
            Some(value) => match value.as_str() {
                None => Ok(None),
                Some(s) => Ok(Some(s.to_owned())),
            },
        },
    }
}

/// What lowercasing the given characters yields: a function of the
/// characters alone.
pub uninterp spec fn lower_of(s: Seq<char>) -> Seq<char>;

/// Relies on str::to_lowercase: the result depends on the characters alone,
/// and an empty string stays empty.
#[verifier::external_body]
fn to_lower(s: &str) -> (r: String)
    ensures
        r@ == lower_of(s@),
        s@.len() == 0 ==> r@.len() == 0,
{
    s.to_lowercase()
}

/// The needle occurs in the haystack starting at position `i`.
pub open spec fn is_match_at(hay: Seq<char>, needle: Seq<char>, i: int) -> bool {
    hay.subrange(i, i + needle.len()) == needle
}

/// The needle occurs somewhere in the haystack.
pub open spec fn spec_contains(hay: Seq<char>, needle: Seq<char>) -> bool {
    exists|i: int| 0 <= i <= hay.len() - needle.len() && is_match_at(hay, needle, i)
}

/// Whether one text contains another, by character.
pub fn contains_str(hay: &str, needle: &str) -> (r: bool)
    ensures
        r == spec_contains(hay@, needle@),
{
    let n = hay.unicode_len();
    let m = needle.unicode_len();
    if m > n {
        return false;
    }
    if m == 0 {
        assert(is_match_at(hay@, needle@, 0)) by {
            assert(hay@.subrange(0, 0) =~= needle@);
        }
        return true;
    }
    let mut i: usize = 0;
    loop
        invariant
            n == hay@.len(),
            m == needle@.len(),
            0 < m <= n,
            0 <= i <= n - m + 1,
            forall|k: int| 0 <= k < i ==> !is_match_at(hay@, needle@, k),
        ensures
            spec_contains(hay@, needle@) == (i <= n - m),
        decreases n - m + 1 - i,
    {
        if i > n - m {
            assert(forall|k: int| 0 <= k <= n - m ==> !is_match_at(hay@, needle@, k));
            break ;
        }
        let mut j: usize = 0;
        let mut hit = true;
        while j < m
            invariant
                n == hay@.len(),
                m == needle@.len(),
                0 <= i <= n - m,
                0 <= j <= m,
                hit ==> hay@.subrange(i as int, i + j) =~= needle@.subrange(0, j as int),
                !hit ==> !is_match_at(hay@, needle@, i as int),
            decreases m - j,
        {
            if hay.get_char(i + j) != needle.get_char(j) {
                assert(!is_match_at(hay@, needle@, i as int)) by {
                    if is_match_at(hay@, needle@, i as int) {
                        assert(hay@.subrange(i as int, i + m)[j as int] == needle@[j as int]);
                    }
                }
                hit = false;
                j = m;
            } else {
                assert(hay@.subrange(i as int, i + j + 1) =~= hay@.subrange(i as int, i + j).push(
                    hay@[i + j],
                ));
                assert(needle@.subrange(0, j + 1 as int) =~= needle@.subrange(0, j as int).push(
                    needle@[j as int],
                ));
                j = j + 1;
            }
        }
        if hit {
            assert(is_match_at(hay@, needle@, i as int)) by {
                assert(hay@.subrange(i as int, i + m) =~= needle@.subrange(0, m as int));
                assert(needle@.subrange(0, m as int) =~= needle@);
            }
            break ;
        }
        i = i + 1;
    }
    i <= n - m
}

/// A reply reads as a command verdict when its lowercased text contains
/// the word "command".
pub open spec fn spec_is_command_reply(reply: Seq<char>) -> bool {
    spec_contains(lower_of(reply), "command"@)
}

/// The verdict on the classifier's reply text.
pub fn is_command_reply(reply: &str) -> (r: bool)
    ensures
        r == spec_is_command_reply(reply@),
{
    let lowered = to_lower(reply);
    contains_str(lowered.as_str(), "command")
}

/// The verdict on an extracted reply field. A response with no string
/// reply falls back to the default verdict, natural language, which never
/// reads as a command.
pub fn classify_reply(reply: Option<&str>) -> (r: bool)
    ensures
        r == match reply {
            Some(s) => spec_is_command_reply(s@),
            None => false,
        },
{
    match reply {
        Some(s) => is_command_reply(s),
        None => false,
    }
}

/// Pull the classifier's reply text out of a response body: the "response"
/// field when the body parses as a JSON document and that field is a
/// string; `Ok(None)` when the document has no such string field; an error
/// carrying the parser's message when the bytes are not JSON.
pub fn extract_reply_text(body: &[u8]) -> (r: Result<Option<String>, String>)
    ensures
        match reply_of(body@) {
            None => r matches Err(m) && m@ == parse_err_of(body@),
            Some(None) => r matches Ok(o) && o is None,
            Some(Some(t)) => r matches Ok(o) && (o matches Some(s) && s@ == t),
        },
{
    parse_reply(body)
}

/// Classify a whole response body: command exactly when the lowercased
/// reply text contains "command"; natural language when the reply is
/// anything else or the document has no string reply; an error carrying
/// the parser's message when the bytes are not JSON.
pub fn classify_response_body(body: &[u8]) -> (r: Result<bool, String>)
    ensures
        match reply_of(body@) {
            None => r matches Err(m) && m@ == parse_err_of(body@),
            Some(None) => r matches Ok(b) && b == false,
            Some(Some(t)) => r matches Ok(b) && b == spec_is_command_reply(t),
        },
{
    match extract_reply_text(body) {
        Err(m) => Err(m),
        Ok(Some(s)) => Ok(classify_reply(Some(s.as_str()))),
        Ok(None) => Ok(classify_reply(None)),
    }
}

/// The remote service's reply for a response body: the "response" string
/// field, the empty string when the document has no such field, an error
/// carrying the parser's message when the bytes are not JSON.
pub fn remote_reply_text(body: &[u8]) -> (r: Result<String, String>)
    ensures
        match reply_of(body@) {
            None => r matches Err(m) && m@ == parse_err_of(body@),
            Some(None) => r matches Ok(s) && s@.len() == 0,
            Some(Some(t)) => r matches Ok(s) && s@ == t,
        },
{
    match extract_reply_text(body) {
        Err(m) => Err(m),
        Ok(Some(s)) => Ok(s),
        Ok(None) => Ok(String::new()),
    }
}

/// The prompt sent to the classifier for a submitted line: a fixed
/// instruction with examples, with the line quoted at the end. The caller
/// hands in the line already trimmed.
pub open spec fn spec_prompt(input: Seq<char>) -> Seq<char> {
    "Classify input as either 'command' (UNIX shell) or 'natural' (normal natural human language). Respond only with 'command' or 'natural'. Examples:\n\nInput: \"ls -la\"\nOutput: command\n\nInput: \"echo hello\"\nOutput: command\n\nInput: \"Hello, how are you?\"\nOutput: natural\n\nNow classify this input:\nInput: \""@
        + input + "\""@
}

/// Build the classifier prompt for a submitted line.
pub fn build_classifier_prompt(input: &str) -> (r: String)
    ensures
        r@ == spec_prompt(input@),
{
    let mut r = String::from_str(
        "Classify input as either 'command' (UNIX shell) or 'natural' (normal natural human language). Respond only with 'command' or 'natural'. Examples:\n\nInput: \"ls -la\"\nOutput: command\n\nInput: \"echo hello\"\nOutput: command\n\nInput: \"Hello, how are you?\"\nOutput: natural\n\nNow classify this input:\nInput: \"",
    );
    r.append(input);
    r.append("\"");
    r
}


} // verus!
