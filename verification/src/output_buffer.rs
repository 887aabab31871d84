//! The decoded-output buffer: an append-only byte sequence bounded to a
//! configured cap. When an append would exceed the cap, the oldest bytes
//! are dropped so that the newest output is always kept.

use vstd::prelude::*;

verus! {

/// The cap the session viewer configures, in bytes.
pub const OUTPUT_BUFFER_CAP: usize = 1_000_000;

/// What remains of a byte sequence once it is held to a cap: the sequence
/// itself if it fits, else its newest `cap` bytes.
pub open spec fn clamp_to_cap(s: Seq<u8>, cap: nat) -> Seq<u8> {
    if s.len() <= cap {
        s
    } else {
        s.skip(s.len() - cap)
    }
}

/// Bytes of terminal output awaiting display, newest last.
pub struct OutputBuffer {
    buf: Vec<u8>,
    cap: usize,
}

impl View for OutputBuffer {
    type V = Seq<u8>;

    closed spec fn view(&self) -> Seq<u8> {
        self.buf@
    }
}

/// The newest `cap`-or-fewer bytes of a slice, from `start` on.
fn tail_of(src: &[u8], start: usize) -> (r: Vec<u8>)
    requires
        start <= src@.len(),
    ensures
        r@ == src@.skip(start as int),
{
    let mut r: Vec<u8> = Vec::new();
    let n = src.len();
    let mut i: usize = start;
    while i < n
        invariant
            start <= i <= n,
            n == src@.len(),
            r@ == src@.subrange(start as int, i as int),
        decreases n - i,
    {
        r.push(src[i]);
        assert(r@ =~= src@.subrange(start as int, i + 1 as int));
        i = i + 1;
    }
    assert(src@.subrange(start as int, n as int) =~= src@.skip(start as int));
    r
}

impl OutputBuffer {
    /// The configured cap.
    pub closed spec fn cap(&self) -> nat {
        self.cap as nat
    }

    /// The buffer never outgrows its cap.
    pub open spec fn wf(&self) -> bool {
        self@.len() <= self.cap()
    }

    /// An empty buffer bounded to `cap` bytes.
    pub fn new(cap: usize) -> (r: OutputBuffer)
        ensures
            r@ == Seq::<u8>::empty(),
            r.cap() == cap,
            r.wf(),
    {
        OutputBuffer { buf: Vec::new(), cap }
    }

    pub fn len(&self) -> (n: usize)
        ensures
            n == self@.len(),
    {
        self.buf.len()
    }

    pub fn capacity(&self) -> (n: usize)
        ensures
            n == self.cap(),
    {
        self.cap
    }

    /// The buffered bytes, oldest first.
    pub fn contents(&self) -> (r: &Vec<u8>)
        ensures
            r@ == self@,
    {
        &self.buf
    }

    /// Append newly scanned output. The result is the old contents followed
    /// by the new bytes, held to the cap by evicting the oldest bytes; so
    /// the buffer's size never exceeds its cap, whatever sequence of
    /// appends has happened.
    pub fn append(&mut self, data: &[u8])
        ensures
            final(self).cap() == old(self).cap(),
            final(self)@ == clamp_to_cap(old(self)@ + data@, old(self).cap()),
            final(self).wf(),
    {
        if data.len() >= self.cap {
            let start = data.len() - self.cap;
            self.buf = tail_of(data, start);
            proof {
                if old(self)@.len() + data@.len() > old(self).cap() {
                    assert(self.buf@ =~= clamp_to_cap(old(self)@ + data@, old(self).cap()));
                } else {
                    assert(old(self)@.len() == 0 && data@.len() == old(self).cap());
                    assert(self.buf@ =~= clamp_to_cap(old(self)@ + data@, old(self).cap()));
                }
            }
        } else {
            let keep = self.cap - data.len();
            if self.buf.len() > keep {
                let start = self.buf.len() - keep;
                self.buf = tail_of(self.buf.as_slice(), start);
            }
            self.buf.extend_from_slice(data);
            proof {
                assert(self.buf@ =~= clamp_to_cap(old(self)@ + data@, old(self).cap()));
            }
        }
    }
}

} // verus!
