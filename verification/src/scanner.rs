//! Escape-sequence scanner: a state machine that strips CSI and OSC control
//! sequences from terminal output and keeps the surrounding text in order.

use vstd::prelude::*;
use vstd::string::StrSliceExecFns;

verus! {

/// The escape introducer byte, as a character.
pub const ESC: char = '\x1b';

/// The BEL character, one of the two OSC terminators.
pub const BEL: char = '\x07';

/// Scanner state, persisted across chunks so that a control sequence split
/// over two reads is still elided. `OscEscape` refines the OSC string state:
/// an escape introducer was seen inside the OSC string and the scanner waits
/// to learn whether a `\` follows to complete the two-character terminator.
#[derive(Clone, Copy, PartialEq, Eq, Structural, Debug)]
pub enum ScanState {
    Normal,
    EscapeSeen,
    CsiParams,
    OscString,
    OscEscape,
}

/// An ASCII letter, the class of characters that terminates a CSI sequence.
pub open spec fn is_ascii_letter(c: char) -> bool {
    (97 <= c as u32 && c as u32 <= 122) || (65 <= c as u32 && c as u32 <= 90)
}

/// State after consuming one character.
pub open spec fn step_state(st: ScanState, c: char) -> ScanState {
    match st {
        ScanState::Normal => if c == ESC {
            ScanState::EscapeSeen
        } else {
            ScanState::Normal
        },
        ScanState::EscapeSeen => if c == '[' {
            ScanState::CsiParams
        } else if c == ']' {
            ScanState::OscString
        } else if c == ESC {
            ScanState::EscapeSeen
        } else {
            ScanState::Normal
        },
        ScanState::CsiParams => if is_ascii_letter(c) {
            ScanState::Normal
        } else {
            ScanState::CsiParams
        },
        ScanState::OscString => if c == BEL {
            ScanState::Normal
        } else if c == ESC {
            ScanState::OscEscape
        } else {
            ScanState::OscString
        },
        ScanState::OscEscape => if c == '\\' || c == BEL {
            ScanState::Normal
        } else if c == ESC {
            ScanState::OscEscape
        } else {
            ScanState::OscString
        },
    }
}

/// Text emitted on consuming one character: the character itself when it is
/// displayable, nothing while inside a control sequence.
pub open spec fn step_emit(st: ScanState, c: char) -> Seq<char> {
    match st {
        ScanState::Normal => if c == ESC {
            Seq::empty()
        } else {
            seq![c]
        },
        ScanState::EscapeSeen => if c == '[' || c == ']' || c == ESC {
            Seq::empty()
        } else {
            seq![c]
        },
        ScanState::CsiParams => Seq::empty(),
        ScanState::OscString => Seq::empty(),
        ScanState::OscEscape => Seq::empty(),
    }
}

/// State after consuming a whole sequence of characters.
pub open spec fn scan_state(st: ScanState, s: Seq<char>) -> ScanState
    decreases s.len(),
{
    if s.len() == 0 {
        st
    } else {
        scan_state(step_state(st, s[0]), s.drop_first())
    }
}

/// Text emitted while consuming a whole sequence of characters.
pub open spec fn scan_emit(st: ScanState, s: Seq<char>) -> Seq<char>
    decreases s.len(),
{
    if s.len() == 0 {
        Seq::empty()
    } else {
        step_emit(st, s[0]) + scan_emit(step_state(st, s[0]), s.drop_first())
    }
}

/// What scanning a complete text from the initial state emits.
pub open spec fn spec_scan(s: Seq<char>) -> Seq<char> {
    scan_emit(ScanState::Normal, s)
}

/// Consuming a sequence and then one more character is consuming the
/// sequence extended by that character.
pub proof fn lemma_scan_snoc(st: ScanState, s: Seq<char>, c: char)
    ensures
        scan_state(st, s.push(c)) == step_state(scan_state(st, s), c),
        scan_emit(st, s.push(c)) == scan_emit(st, s) + step_emit(scan_state(st, s), c),
    decreases s.len(),
{
    assert(s.push(c)[0] == if s.len() == 0 { c } else { s[0] });
    if s.len() == 0 {
        let p = s.push(c);
        assert(p.drop_first() =~= Seq::<char>::empty());
        assert(scan_emit(st, p) == step_emit(st, c) + scan_emit(step_state(st, c), p.drop_first()));
        assert(scan_emit(step_state(st, c), p.drop_first()) == Seq::<char>::empty());
        assert(scan_state(st, p) == scan_state(step_state(st, c), p.drop_first()));
        assert(scan_emit(st, s) == Seq::<char>::empty());
        assert(scan_emit(st, p) =~= scan_emit(st, s) + step_emit(scan_state(st, s), c));
    } else {
        assert(s.push(c).drop_first() =~= s.drop_first().push(c));
        lemma_scan_snoc(step_state(st, s[0]), s.drop_first(), c);
        assert(scan_emit(st, s.push(c)) =~= scan_emit(st, s) + step_emit(scan_state(st, s), c));
    }
}

/// Scanning a concatenation is scanning the first part and then the second
/// from the state the first part left behind. This is what lets a session
/// feed the scanner chunk by chunk: a control sequence cut at a chunk
/// boundary is still elided.
pub proof fn lemma_scan_append(st: ScanState, a: Seq<char>, b: Seq<char>)
    ensures
        scan_state(st, a + b) == scan_state(scan_state(st, a), b),
        scan_emit(st, a + b) == scan_emit(st, a) + scan_emit(scan_state(st, a), b),
    decreases a.len(),
{
    if a.len() == 0 {
        assert(a + b =~= b);
        assert(scan_emit(st, a) + scan_emit(scan_state(st, a), b) =~= scan_emit(st, b));
    } else {
        assert((a + b).drop_first() =~= a.drop_first() + b);
        lemma_scan_append(step_state(st, a[0]), a.drop_first(), b);
        assert(scan_emit(st, a + b) =~= scan_emit(st, a) + scan_emit(scan_state(st, a), b));
    }
}

/// Whatever the state, no emitted character is the escape introducer.
pub proof fn lemma_scan_emit_no_esc(st: ScanState, s: Seq<char>)
    ensures
        forall|i: int| 0 <= i < scan_emit(st, s).len() ==> scan_emit(st, s)[i] != ESC,
    decreases s.len(),
{
    if s.len() > 0 {
        lemma_scan_emit_no_esc(step_state(st, s[0]), s.drop_first());
        let e = step_emit(st, s[0]);
        let rest = scan_emit(step_state(st, s[0]), s.drop_first());
        assert forall|i: int| 0 <= i < scan_emit(st, s).len() implies scan_emit(st, s)[i]
            != ESC by {
            if i < e.len() {
                assert(scan_emit(st, s)[i] == e[i]);
            } else {
                assert(scan_emit(st, s)[i] == rest[i - e.len()]);
            }
        }
    }
}

/// Text free of the escape introducer passes through the scanner unchanged.
pub proof fn lemma_scan_plain(s: Seq<char>)
    requires
        forall|i: int| 0 <= i < s.len() ==> s[i] != ESC,
    ensures
        scan_state(ScanState::Normal, s) == ScanState::Normal,
        scan_emit(ScanState::Normal, s) == s,
    decreases s.len(),
{
    if s.len() == 0 {
        assert(scan_emit(ScanState::Normal, s) =~= s);
    } else {
        lemma_scan_plain(s.drop_first());
        assert(scan_emit(ScanState::Normal, s) =~= s);
    }
}

/// Scanning is idempotent: already-scanned text is returned unchanged.
pub proof fn lemma_scan_idempotent(s: Seq<char>)
    ensures
        spec_scan(spec_scan(s)) == spec_scan(s),
{
    lemma_scan_emit_no_esc(ScanState::Normal, s);
    lemma_scan_plain(spec_scan(s));
}

/// Relies on String::push: appends the given character to the end of the string.
#[verifier::external_body]
fn push_char(s: &mut String, c: char)
    ensures
        final(s)@ == old(s)@.push(c),
{
    s.push(c);
}

/// One transition of the state machine: the next state and the character to
/// display, if any.
fn step_exec(st: ScanState, c: char) -> (r: (ScanState, Option<char>))
    ensures
        r.0 == step_state(st, c),
        match r.1 {
            Some(e) => step_emit(st, c) == seq![e],
            None => step_emit(st, c) == Seq::<char>::empty(),
        },
{
    match st {
        ScanState::Normal => {
            if c == '\x1b' {
                (ScanState::EscapeSeen, None)
            } else {
                (ScanState::Normal, Some(c))
            }
        },
        ScanState::EscapeSeen => {
            if c == '[' {
                (ScanState::CsiParams, None)
            } else if c == ']' {
                (ScanState::OscString, None)
            } else if c == '\x1b' {
                (ScanState::EscapeSeen, None)
            } else {
                (ScanState::Normal, Some(c))
            }
        },
        ScanState::CsiParams => {
            let u = c as u32;
            if (97 <= u && u <= 122) || (65 <= u && u <= 90) {
                (ScanState::Normal, None)
            } else {
                (ScanState::CsiParams, None)
            }
        },
        ScanState::OscString => {
            if c == '\x07' {
                (ScanState::Normal, None)
            } else if c == '\x1b' {
                (ScanState::OscEscape, None)
            } else {
                (ScanState::OscString, None)
            }
        },
        ScanState::OscEscape => {
            if c == '\\' || c == '\x07' {
                (ScanState::Normal, None)
            } else if c == '\x1b' {
                (ScanState::OscEscape, None)
            } else {
                (ScanState::OscString, None)
            }
        },
    }
}

/// An incremental scanner: remembers where in a control sequence the previous
/// chunk ended, so that feeding the output stream piecewise elides exactly
/// the sequences that scanning the whole stream at once would elide.
pub struct Scanner {
    pub state: ScanState,
}

impl Scanner {
    /// A scanner ready for the start of the output stream.
    pub fn new() -> (r: Scanner)
        ensures
            r.state == ScanState::Normal,
    {
        Scanner { state: ScanState::Normal }
    }

    /// Consume the next chunk of the stream and return its displayable text.
    pub fn feed(&mut self, chunk: &str) -> (out: String)
        ensures
            final(self).state == scan_state(old(self).state, chunk@),
            out@ == scan_emit(old(self).state, chunk@),
    {
        let st0 = self.state;
        let n = chunk.unicode_len();
        let mut out = String::new();
        let mut i: usize = 0;
        while i < n
            invariant
                n == chunk@.len(),
                0 <= i <= n,
                self.state == scan_state(st0, chunk@.take(i as int)),
                out@ == scan_emit(st0, chunk@.take(i as int)),
            decreases n - i,
        {
            let c = chunk.get_char(i);
            let (next, emit) = step_exec(self.state, c);
            proof {
                assert(chunk@.take(i + 1 as int) =~= chunk@.take(i as int).push(chunk@[i as int]));
                lemma_scan_snoc(st0, chunk@.take(i as int), chunk@[i as int]);
            }
            self.state = next;
            match emit {
                Some(e) => {
                    push_char(&mut out, e);
                    assert(out@ =~= scan_emit(st0, chunk@.take(i + 1 as int)));
                },
                None => {
                    assert(out@ =~= scan_emit(st0, chunk@.take(i + 1 as int)));
                },
            }
            i = i + 1;
        }
        proof {
            assert(chunk@.take(n as int) =~= chunk@);
        }
        out
    }
}

/// Scan a complete text from the initial state: all CSI and OSC sequences
/// are elided, all other text is kept in order.
pub fn scan(text: &str) -> (r: String)
    ensures
        r@ == spec_scan(text@),
{
    let mut scanner = Scanner::new();
    scanner.feed(text)
}

/// Strip terminal control sequences from a complete text. The whole-string
/// form of [`scan`], under the name the display loop calls it by.
pub fn strip_ansi_codes(text: &str) -> (r: String)
    ensures
        r@ == spec_scan(text@),
{
    scan(text)
}

} // verus!
