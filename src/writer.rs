//! An append-only output buffer with a capacity fixed up front.
use vstd::prelude::*;
use crate::error::Error;

verus! {

/// Collects encoded bytes; never holds more than the capacity it was made with.
pub struct Writer {
    buf: Vec<u8>,
    capacity: usize,
}

impl View for Writer {
    type V = Seq<u8>;

    closed spec fn view(&self) -> Seq<u8> {
        self.buf@
    }
}

/// What an encoder owes: where `bytes` fit they are appended, and otherwise the call
/// fails with `BufferOverflow` and writes nothing.
pub open spec fn encoded(r: Result<(), Error>, bytes: Seq<u8>, before: Writer, after: Writer) -> bool {
    &&& after.wf()
    &&& after.cap() == before.cap()
    &&& before.room() >= bytes.len() ==> r is Ok && after@ == before@ + bytes
    &&& before.room() < bytes.len() ==> r == Err::<(), Error>(Error::BufferOverflow) && after@
        == before@
}

impl Writer {
    pub closed spec fn cap(&self) -> nat {
        self.capacity as nat
    }

    pub open spec fn wf(&self) -> bool {
        self@.len() <= self.cap() <= usize::MAX
    }

    /// Room left before the capacity is reached.
    pub open spec fn room(&self) -> nat {
        (self.cap() - self@.len()) as nat
    }

    pub fn with_capacity(capacity: usize) -> (w: Writer)
        ensures
            w.wf(),
            w@ == Seq::<u8>::empty(),
            w.cap() == capacity,
    {
        Writer { buf: Vec::new(), capacity }
    }

    pub fn len(&self) -> (r: usize)
        ensures
            r == self@.len(),
    {
        self.buf.len()
    }

    pub fn capacity(&self) -> (r: usize)
        ensures
            r == self.cap(),
    {
        self.capacity
    }

    pub fn remaining(&self) -> (r: usize)
        requires
            self.wf(),
        ensures
            r == self.room(),
    {
        self.capacity - self.buf.len()
    }

    /// Appends a byte that is known to fit.
    pub(crate) fn push(&mut self, b: u8)
        requires
            old(self).wf(),
            old(self).room() >= 1,
        ensures
            final(self).wf(),
            final(self)@ == old(self)@.push(b),
            final(self).cap() == old(self).cap(),
    {
        self.buf.push(b);
    }

    /// Appends bytes that are known to fit.
    pub(crate) fn push_slice(&mut self, s: &[u8])
        requires
            old(self).wf(),
            old(self).room() >= s@.len(),
        ensures
            final(self).wf(),
            final(self)@ == old(self)@ + s@,
            final(self).cap() == old(self).cap(),
    {
        let mut i: usize = 0;
        while i < s.len()
            invariant
                i <= s@.len(),
                self.wf(),
                self.cap() == old(self).cap(),
                self@ == old(self)@ + s@.subrange(0, i as int),
                old(self).room() >= s@.len(),
            decreases s@.len() - i,
        {
            self.buf.push(s[i]);
            i = i + 1;
            assert(s@.subrange(0, i as int) =~= s@.subrange(0, i - 1) .push(s@[i - 1]));
        }
        assert(s@.subrange(0, i as int) =~= s@);
    }

    pub fn write_byte(&mut self, b: u8) -> (r: Result<(), Error>)
        requires
            old(self).wf(),
        ensures
            final(self).wf(),
            final(self).cap() == old(self).cap(),
            old(self).room() >= 1 ==> r is Ok && final(self)@ == old(self)@.push(b),
            old(self).room() == 0 ==> r == Err::<(), Error>(Error::BufferOverflow) && final(self)@
                == old(self)@,
    {
        if self.buf.len() < self.capacity {
            self.push(b);
            Ok(())
        } else {
            Err(Error::BufferOverflow)
        }
    }

    pub fn write_slice(&mut self, s: &[u8]) -> (r: Result<(), Error>)
        requires
            old(self).wf(),
        ensures
            final(self).wf(),
            final(self).cap() == old(self).cap(),
            old(self).room() >= s@.len() ==> r is Ok && final(self)@ == old(self)@ + s@,
            old(self).room() < s@.len() ==> r == Err::<(), Error>(Error::BufferOverflow)
                && final(self)@ == old(self)@,
    {
        if s.len() <= self.capacity - self.buf.len() {
            self.push_slice(s);
            Ok(())
        } else {
            Err(Error::BufferOverflow)
        }
    }

    /// The bytes written so far.
    pub fn into_bytes(self) -> (r: Vec<u8>)
        ensures
            r@ == self@,
    {
        self.buf
    }
}

} // verus!
