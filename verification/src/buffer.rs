//! A byte buffer for one relay direction of a session.
//!
//! Each buffer alternates between a fill phase and a drain phase: bytes
//! read from the source socket are stored while the buffer is empty, and
//! are then handed to the destination socket, possibly over several
//! partial writes, until the buffer is empty again.  The contents are
//! modelled as the sequence of bytes still pending delivery.

use vstd::prelude::*;

verus! {

/// Fixed capacity of each relay buffer, in bytes.
pub const BUFFER_SIZE: usize = 2048;

/// Bytes read from one socket and not yet written to the other.
pub struct Buffer {
    data: Vec<u8>,
}

impl View for Buffer {
    type V = Seq<u8>;

    closed spec fn view(&self) -> Seq<u8> {
        self.data@
    }
}

impl Buffer {
    /// The buffer never holds more than `BUFFER_SIZE` bytes.
    pub open spec fn wf(&self) -> bool {
        self@.len() <= BUFFER_SIZE
    }

    /// An empty buffer, ready to be filled.
    pub fn new() -> (r: Buffer)
        ensures
            r@ == Seq::<u8>::empty(),
            r.wf(),
    {
        Buffer { data: Vec::new() }
    }

    /// Number of bytes pending delivery.
    pub fn len(&self) -> (r: usize)
        ensures
            r == self@.len(),
    {
        self.data.len()
    }

    /// True when nothing is pending, i.e. the buffer is in its fill phase.
    pub fn is_empty(&self) -> (r: bool)
        ensures
            r == (self@.len() == 0),
    {
        self.data.len() == 0
    }

    /// Store the bytes just read from the source socket.  The buffer must
    /// be in its fill phase: earlier bytes must have been fully drained.
    pub fn fill(&mut self, input: &[u8])
        requires
            old(self).wf(),
            old(self)@.len() == 0,
            input@.len() <= BUFFER_SIZE,
        ensures
            final(self)@ == input@,
            final(self).wf(),
    {
        let mut i: usize = 0;
        while i < input.len()
            invariant
                i <= input@.len(),
                input@.len() <= BUFFER_SIZE,
                self.data@ =~= input@.take(i as int),
            decreases input@.len() - i,
        {
            self.data.push(input[i]);
            i = i + 1;
        }
        proof {
            assert(self.data@ =~= input@);
        }
    }

    /// The bytes pending delivery, in order, for the caller to offer to
    /// the destination socket.
    pub fn pending(&self) -> (r: &[u8])
        ensures
            r@ == self@,
    {
        self.data.as_slice()
    }

    /// Drop the first `n` bytes after the destination socket accepted
    /// exactly that many: the rest stays, in order, neither lost nor
    /// duplicated.
    pub fn consume(&mut self, n: usize)
        requires
            old(self).wf(),
            n <= old(self)@.len(),
        ensures
            final(self)@ == old(self)@.skip(n as int),
            final(self).wf(),
    {
        let ghost orig = self.data@;
        let mut rest: Vec<u8> = Vec::new();
        let mut i: usize = n;
        while i < self.data.len()
            invariant
                n <= i <= self.data@.len(),
                self.data@ == orig,
                rest@ =~= orig.subrange(n as int, i as int),
            decreases self.data@.len() - i,
        {
            rest.push(self.data[i]);
            i = i + 1;
        }
        self.data = rest;
        proof {
            assert(self.data@ =~= orig.skip(n as int));
        }
    }
}

} // verus!
