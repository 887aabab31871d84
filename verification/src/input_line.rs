//! The pending command line: a small bounded byte buffer edited by
//! keystrokes and cleared on submission.

use vstd::prelude::*;

verus! {

/// Capacity bound of the pending input line, in bytes.
pub const INPUT_LINE_CAP: usize = 4096;

/// One keystroke-sized edit: append a byte if the capacity allows, else
/// leave the line unchanged.
pub open spec fn spec_push(s: Seq<u8>, b: u8) -> Seq<u8> {
    if s.len() < INPUT_LINE_CAP {
        s.push(b)
    } else {
        s
    }
}

/// A UTF-8 continuation byte: one that can only stand inside a
/// character's encoding, never start it.
pub open spec fn is_continuation_byte(b: u8) -> bool {
    128 <= b && b < 192
}

/// Remove one trailing character's bytes: the trailing continuation bytes
/// and the byte before them, stopping after at most `budget` bytes so
/// that content that is not valid UTF-8 cannot empty the line in one step.
pub open spec fn spec_drop_char(s: Seq<u8>, budget: nat) -> Seq<u8>
    decreases budget,
{
    if s.len() == 0 || budget == 0 {
        s
    } else if is_continuation_byte(s.last()) {
        if budget == 1 {
            s.drop_last()
        } else {
            spec_drop_char(s.drop_last(), (budget - 1) as nat)
        }
    } else {
        s.drop_last()
    }
}

/// One backspace: remove the last character (a UTF-8 character takes up to
/// four bytes), a no-op on an empty line.
pub open spec fn spec_backspace(s: Seq<u8>) -> Seq<u8> {
    spec_drop_char(s, 4)
}

/// A backspace removes at least one byte from a non-empty line and never
/// adds any.
pub proof fn lemma_drop_char_shrinks(s: Seq<u8>, budget: nat)
    ensures
        spec_drop_char(s, budget).len() <= s.len(),
        s.len() > 0 && budget > 0 ==> spec_drop_char(s, budget).len() < s.len(),
    decreases budget,
{
    if s.len() == 0 || budget == 0 {
    } else if is_continuation_byte(s.last()) && budget > 1 {
        lemma_drop_char_shrinks(s.drop_last(), (budget - 1) as nat);
    }
}

/// The line after a sequence of single-byte appends.
pub open spec fn apply_pushes(s: Seq<u8>, bs: Seq<u8>) -> Seq<u8>
    decreases bs.len(),
{
    if bs.len() == 0 {
        s
    } else {
        apply_pushes(spec_push(s, bs[0]), bs.drop_first())
    }
}

/// The line after a number of backspaces.
pub open spec fn apply_backspaces(s: Seq<u8>, n: nat) -> Seq<u8>
    decreases n,
{
    if n == 0 {
        s
    } else {
        apply_backspaces(spec_backspace(s), (n - 1) as nat)
    }
}

/// While the capacity is never exceeded, appends simply concatenate.
pub proof fn lemma_pushes_append(s: Seq<u8>, bs: Seq<u8>)
    requires
        s.len() + bs.len() <= INPUT_LINE_CAP,
    ensures
        apply_pushes(s, bs) == s + bs,
    decreases bs.len(),
{
    if bs.len() == 0 {
        assert(s + bs =~= s);
    } else {
        lemma_pushes_append(s.push(bs[0]), bs.drop_first());
        assert(s.push(bs[0]) + bs.drop_first() =~= s + bs);
    }
}

/// As many backspaces as there are appended bytes peel them all off
/// again, provided no appended byte is a continuation byte: each one is
/// then a whole character, and a backspace removes exactly it.
pub proof fn lemma_backspaces_drop_suffix(s: Seq<u8>, t: Seq<u8>)
    requires
        forall|i: int| 0 <= i < t.len() ==> !is_continuation_byte(t[i]),
    ensures
        apply_backspaces(s + t, t.len()) == s,
    decreases t.len(),
{
    if t.len() == 0 {
        assert(s + t =~= s);
    } else {
        assert((s + t).last() == t[t.len() - 1]);
        assert(spec_backspace(s + t) == (s + t).drop_last());
        assert((s + t).drop_last() =~= s + t.drop_last());
        lemma_backspaces_drop_suffix(s, t.drop_last());
    }
}

/// N single-byte appends followed by N backspaces return the line to
/// where it started, as long as no appended byte is a continuation byte
/// (a lone continuation byte would merge with the character before it and
/// a backspace would remove both).
pub proof fn lemma_pushes_then_backspaces(s: Seq<u8>, bs: Seq<u8>)
    requires
        s.len() + bs.len() <= INPUT_LINE_CAP,
        forall|i: int| 0 <= i < bs.len() ==> !is_continuation_byte(bs[i]),
    ensures
        apply_backspaces(apply_pushes(s, bs), bs.len()) == s,
{
    lemma_pushes_append(s, bs);
    lemma_backspaces_drop_suffix(s, bs);
}

/// Appends grow the line by at most one byte each.
pub proof fn lemma_pushes_len(s: Seq<u8>, bs: Seq<u8>)
    ensures
        apply_pushes(s, bs).len() <= s.len() + bs.len(),
    decreases bs.len(),
{
    if bs.len() > 0 {
        lemma_pushes_len(spec_push(s, bs[0]), bs.drop_first());
    }
}

/// At least as many backspaces as the line holds bytes empty it.
pub proof fn lemma_backspaces_empty(s: Seq<u8>, n: nat)
    requires
        n >= s.len(),
    ensures
        apply_backspaces(s, n) == Seq::<u8>::empty(),
    decreases n,
{
    if n == 0 {
        assert(s =~= Seq::<u8>::empty());
    } else {
        lemma_drop_char_shrinks(s, 4);
        lemma_backspaces_empty(spec_backspace(s), (n - 1) as nat);
    }
}

/// From an empty line, N single-byte appends followed by N backspaces
/// always return the line to empty, even when some appends were refused at
/// the capacity bound.
pub proof fn lemma_appends_then_backspaces_empty(bs: Seq<u8>)
    ensures
        apply_backspaces(apply_pushes(Seq::<u8>::empty(), bs), bs.len()) == Seq::<u8>::empty(),
{
    lemma_pushes_len(Seq::<u8>::empty(), bs);
    lemma_backspaces_empty(apply_pushes(Seq::<u8>::empty(), bs), bs.len());
}

/// The not-yet-submitted command line.
pub struct InputLine {
    buf: Vec<u8>,
}

impl View for InputLine {
    type V = Seq<u8>;

    closed spec fn view(&self) -> Seq<u8> {
        self.buf@
    }
}

impl InputLine {
    /// The capacity bound holds; every constructor establishes it and every
    /// edit preserves it.
    pub open spec fn wf(&self) -> bool {
        self@.len() <= INPUT_LINE_CAP
    }

    /// An empty line.
    pub fn new() -> (r: InputLine)
        ensures
            r@ == Seq::<u8>::empty(),
            r.wf(),
    {
        InputLine { buf: Vec::new() }
    }

    pub fn len(&self) -> (n: usize)
        ensures
            n == self@.len(),
    {
        self.buf.len()
    }

    pub fn is_empty(&self) -> (r: bool)
        ensures
            r == (self@.len() == 0),
    {
        self.buf.len() == 0
    }

    /// The line's bytes, oldest first.
    pub fn contents(&self) -> (r: &Vec<u8>)
        ensures
            r@ == self@,
    {
        &self.buf
    }

    /// Append one byte if the capacity allows; report whether it was taken.
    /// Exceeding the bound is answered by refusing the byte, not by
    /// aborting.
    pub fn push_byte(&mut self, b: u8) -> (ok: bool)
        ensures
            final(self)@ == spec_push(old(self)@, b),
            ok == (old(self)@.len() < INPUT_LINE_CAP),
            old(self).wf() ==> final(self).wf(),
    {
        if self.buf.len() < INPUT_LINE_CAP {
            self.buf.push(b);
            true
        } else {
            false
        }
    }

    /// Append a chunk of text whole if it fits, else leave the line
    /// unchanged; report whether it was taken.
    pub fn append_bytes(&mut self, data: &[u8]) -> (ok: bool)
        ensures
            ok == (old(self)@.len() + data@.len() <= INPUT_LINE_CAP),
            ok ==> final(self)@ == old(self)@ + data@,
            !ok ==> final(self)@ == old(self)@,
            old(self).wf() ==> final(self).wf(),
    {
        if data.len() <= INPUT_LINE_CAP && self.buf.len() <= INPUT_LINE_CAP - data.len() {
            self.buf.extend_from_slice(data);
            true
        } else {
            false
        }
    }

    /// Remove the last character: the trailing byte together with the
    /// UTF-8 continuation bytes before it, at most four bytes in all; a
    /// no-op on an empty line.
    pub fn backspace(&mut self)
        ensures
            final(self)@ == spec_backspace(old(self)@),
            old(self).wf() ==> final(self).wf(),
    {
        let ghost s0 = self.buf@;
        let mut budget: usize = 4;
        loop
            invariant_except_break
                spec_drop_char(s0, 4) == spec_drop_char(self.buf@, budget as nat),
            invariant
                1 <= budget <= 4,
                self.buf@.len() <= s0.len(),
            ensures
                self.buf@ == spec_drop_char(s0, 4),
                self.buf@.len() <= s0.len(),
            decreases budget,
        {
            if self.buf.len() == 0 {
                break ;
            }
            let b = self.buf[self.buf.len() - 1];
            if 128 <= b && b < 192 {
                if budget == 1 {
                    self.buf.pop();
                    break ;
                }
                self.buf.pop();
                budget = budget - 1;
            } else {
                self.buf.pop();
                break ;
            }
        }
    }

    /// Forget the line, as submission does.
    pub fn clear(&mut self)
        ensures
            final(self)@ == Seq::<u8>::empty(),
            final(self).wf(),
    {
        self.buf.clear();
    }
}

} // verus!
