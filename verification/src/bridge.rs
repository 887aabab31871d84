//! The duplex bridge: the decisions that connect a pty session's reads and
//! writes to the scanner and the buffers. The session's I/O itself happens
//! outside the library; each outcome is handed in as a plain event and the
//! bridge says what follows from it.

use vstd::prelude::*;
use vstd::utf8::encode_utf8;
use vstd::utf8::valid_utf8;
use vstd::utf8::decode_utf8;
use vstd::string::StringExecFns;
use crate::input_line::InputLine;
use crate::output_buffer::OutputBuffer;
use crate::output_buffer::clamp_to_cap;
use crate::scanner::ScanState;
use crate::scanner::Scanner;
use crate::scanner::scan_emit;
use crate::scanner::scan_state;

verus! {

/// What a lossy UTF-8 decoding of the given bytes reads as: a function of
/// the bytes alone.
pub uninterp spec fn lossy_utf8(bytes: Seq<u8>) -> Seq<char>;

/// Relies on String::from_utf8_lossy: the decoding depends on the bytes
/// alone, valid UTF-8 decodes to itself, and an empty input decodes to the
/// empty string.
#[verifier::external_body]
fn decode_lossy(bytes: &[u8]) -> (r: String)
    ensures
        r@ == lossy_utf8(bytes@),
        valid_utf8(bytes@) ==> r@ == decode_utf8(bytes@),
        bytes@.len() == 0 ==> r@.len() == 0,
{
    String::from_utf8_lossy(bytes).into_owned()
}

/// The outcome of one non-blocking read from the session, as the bridge
/// sees it: some bytes arrived; nothing is pending; the child closed its
/// side (a zero-byte read); or the read really failed.
pub enum ReadEvent {
    Data(Vec<u8>),
    WouldBlock,
    Closed,
    Failed(String),
}

/// What the read loop is to do next: keep polling; stop and reap the
/// child's exit status; or log the failure, then stop and reap.
pub enum ReadDirective {
    Continue,
    Reap,
    Fail(String),
}

/// The displayable bytes that one chunk of raw output adds: the chunk is
/// decoded leniently, scanned from the given state, and the scanned text is
/// re-encoded.
pub open spec fn scanned_bytes(st: ScanState, data: Seq<u8>) -> Seq<u8> {
    encode_utf8(scan_emit(st, lossy_utf8(data)))
}

/// Drive the read side of the bridge one event forward.
///
/// Arrived bytes are decoded as UTF-8 with lossy replacement, run through
/// the incremental scanner, and appended to the output buffer. A
/// `WouldBlock` is the expected steady state: it changes nothing and is not
/// an error, so nothing is logged for it. A zero-byte read means the child
/// closed its side: reading stops and the child is reaped. Any other
/// failure is logged and ends the session the same way.
pub fn handle_read_event(scanner: &mut Scanner, out: &mut OutputBuffer, ev: ReadEvent) -> (r:
    ReadDirective)
    ensures
        (ev matches ReadEvent::Data(d) ==> {
            &&& final(scanner).state == scan_state(old(scanner).state, lossy_utf8(d@))
            &&& final(out)@ == clamp_to_cap(
                old(out)@ + scanned_bytes(old(scanner).state, d@),
                old(out).cap(),
            )
            &&& final(out).cap() == old(out).cap()
            &&& r == ReadDirective::Continue
        }),
        (ev matches ReadEvent::WouldBlock ==> {
            &&& *final(scanner) == *old(scanner)
            &&& *final(out) == *old(out)
            &&& r == ReadDirective::Continue
        }),
        (ev matches ReadEvent::Closed ==> {
            &&& *final(scanner) == *old(scanner)
            &&& *final(out) == *old(out)
            &&& r == ReadDirective::Reap
        }),
        (ev matches ReadEvent::Failed(m) ==> {
            &&& *final(scanner) == *old(scanner)
            &&& *final(out) == *old(out)
            &&& (r matches ReadDirective::Fail(logged) && logged@ == m@)
        }),
{
    match ev {
        ReadEvent::Data(d) => {
            let text = decode_lossy(d.as_slice());
            let shown = scanner.feed(text.as_str());
            out.append(shown.as_str().as_bytes());
            ReadDirective::Continue
        },
        ReadEvent::WouldBlock => ReadDirective::Continue,
        ReadEvent::Closed => ReadDirective::Reap,
        ReadEvent::Failed(m) => ReadDirective::Fail(m),
    }
}

/// What submitting the pending line asks of the session's write side:
/// send these bytes, or pass a bare newline through.
pub enum SubmitAction {
    Send(Vec<u8>),
    PassNewline,
}

/// Submit the pending line.
///
/// A non-empty line becomes exactly one payload to write to the session:
/// the line's bytes followed by a newline; the line is left empty. For an
/// empty line this library follows the pass-through policy: Enter forwards
/// a bare newline to the session at once, so the shell prompt stays in
/// step with the display.
pub fn submit_line(line: &mut InputLine) -> (r: SubmitAction)
    ensures
        final(line)@.len() == 0,
        final(line).wf(),
        old(line)@.len() > 0 ==> (r matches SubmitAction::Send(payload) && payload@ == old(
            line,
        )@ + seq![10u8]),
        old(line)@.len() == 0 ==> r == SubmitAction::PassNewline,
{
    if line.is_empty() {
        line.clear();
        SubmitAction::PassNewline
    } else {
        let mut payload: Vec<u8> = Vec::new();
        payload.extend_from_slice(line.contents().as_slice());
        payload.push(10u8);
        line.clear();
        assert(payload@ =~= old(line)@ + seq![10u8]);
        SubmitAction::Send(payload)
    }
}

/// A classifier verdict or failure, delivered asynchronously for a line
/// that was submitted through the classification hook.
pub enum ClassifierEvent {
    Classified { line: Vec<u8>, is_command: bool },
    Failed { message: String },
}

/// What follows from a classifier event: forward bytes to the session's
/// write side, or log a diagnostic and forward nothing.
pub enum ClassifierDirective {
    Forward(Vec<u8>),
    Log(String),
}

/// The note shown in place of running a line that was classified as
/// natural language.
pub open spec fn nl_note_bytes() -> Seq<u8> {
    encode_utf8("natural language query received"@)
}

/// Settle a classifier event.
///
/// A line classified as a command is forwarded to the session verbatim. A
/// line classified as natural language is not run: the line and an
/// explanatory note are appended to the output buffer, and only a bare
/// newline goes to the session to keep its prompt in step. A classifier
/// failure is logged and forwards nothing; the session is not touched.
pub fn handle_classifier_event(out: &mut OutputBuffer, ev: ClassifierEvent) -> (r:
    ClassifierDirective)
    ensures
        (ev matches ClassifierEvent::Classified { line, is_command } ==> (if is_command {
            &&& *final(out) == *old(out)
            &&& (r matches ClassifierDirective::Forward(w) && w@ == line@)
        } else {
            &&& final(out)@ == clamp_to_cap(old(out)@ + line@ + nl_note_bytes(), old(out).cap())
            &&& final(out).cap() == old(out).cap()
            &&& (r matches ClassifierDirective::Forward(w) && w@ == seq![10u8])
        })),
        (ev matches ClassifierEvent::Failed { message } ==> {
            &&& *final(out) == *old(out)
            &&& (r matches ClassifierDirective::Log(logged) && logged@ == message@)
        }),
{
    match ev {
        ClassifierEvent::Classified { line, is_command } => {
            if is_command {
                ClassifierDirective::Forward(line)
            } else {
                let mut shown = line;
                let note = "natural language query received";
                shown.extend_from_slice(note.as_bytes());
                out.append(shown.as_slice());
                let mut newline: Vec<u8> = Vec::new();
                newline.push(10u8);
                ClassifierDirective::Forward(newline)
            }
        },
        ClassifierEvent::Failed { message } => ClassifierDirective::Log(message),
    }
}

/// One change to make to the child's environment before the shell replaces
/// the process image.
pub enum EnvDirective {
    Unset(String),
    Assign(String, String),
}

/// The environment overrides a session spawn applies in the child: unset
/// the shell's startup-hook variable so the nested shell does not re-run
/// initialization, and set a minimal prompt.
pub fn child_env_overrides() -> (r: Vec<EnvDirective>)
    ensures
        r@.len() == 2,
        (r@[0] matches EnvDirective::Unset(k) && k@ == "ENV"@),
        (r@[1] matches EnvDirective::Assign(k, v) && k@ == "PS1"@ && v@ == "% "@),
{
    let mut r: Vec<EnvDirective> = Vec::new();
    r.push(EnvDirective::Unset(String::from_str("ENV")));
    r.push(EnvDirective::Assign(String::from_str("PS1"), String::from_str("% ")));
    r
}

} // verus!
