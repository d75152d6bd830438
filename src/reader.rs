//! A forward-only, bounds-checked read cursor over a borrowed byte buffer.
use vstd::prelude::*;
use vstd::slice::slice_subrange;
use crate::error::Error;

verus! {

/// Reads a window `[position, limit)` of a borrowed buffer, front to back.
/// Positions are absolute indices into the whole buffer.
pub struct Reader<'a> {
    data: &'a [u8],
    position: usize,
    limit: usize,
}

impl<'a> Reader<'a> {
    /// The whole buffer the reader walks over.
    pub closed spec fn buffer(&self) -> Seq<u8> {
        self.data@
    }

    pub closed spec fn pos(&self) -> nat {
        self.position as nat
    }

    /// One past the last byte this reader may read.
    pub closed spec fn limit(&self) -> nat {
        self.limit as nat
    }

    pub open spec fn wf(&self) -> bool {
        self.pos() <= self.limit() <= self.buffer().len()
    }

    /// The bytes that are still to be read.
    pub open spec fn remaining(&self) -> Seq<u8> {
        self.buffer().subrange(self.pos() as int, self.limit() as int)
    }

    /// The same buffer and window, at another position.
    pub open spec fn moved(&self, other: &Reader<'a>) -> bool {
        &&& other.buffer() == self.buffer()
        &&& other.limit() == self.limit()
        &&& other.wf()
    }

    pub fn new(data: &'a [u8]) -> (r: Reader<'a>)
        ensures
            r.wf(),
            r.buffer() == data@,
            r.pos() == 0,
            r.limit() == data@.len(),
    {
        Reader { data, position: 0, limit: data.len() }
    }

    /// A reader over `[start, end)` of the same buffer.
    pub fn window(&self, start: usize, end: usize) -> (r: Reader<'a>)
        requires
            self.wf(),
            start <= end <= self.buffer().len(),
        ensures
            r.wf(),
            r.buffer() == self.buffer(),
            r.pos() == start,
            r.limit() == end,
    {
        Reader { data: self.data, position: start, limit: end }
    }

    pub fn position(&self) -> (r: usize)
        ensures
            r == self.pos(),
    {
        self.position
    }

    pub fn is_empty(&self) -> (r: bool)
        requires
            self.wf(),
        ensures
            r == (self.pos() == self.limit()),
    {
        self.position >= self.limit
    }

    /// The number of bytes left in the window.
    pub fn remaining_len(&self) -> (r: usize)
        requires
            self.wf(),
        ensures
            r == self.limit() - self.pos(),
    {
        self.limit - self.position
    }

    /// The next byte, without moving.
    pub fn peek_byte(&self) -> (r: Option<u8>)
        requires
            self.wf(),
        ensures
            self.pos() < self.limit() ==> r == Some(self.buffer()[self.pos() as int]),
            self.pos() == self.limit() ==> r is None,
    {
        if self.position < self.limit {
            Some(self.data[self.position])
        } else {
            None
        }
    }

    pub fn read_byte(&mut self) -> (r: Result<u8, Error>)
        requires
            old(self).wf(),
        ensures
            old(self).moved(final(self)),
            old(self).pos() < old(self).limit() ==> {
                &&& r == Ok::<u8, Error>(old(self).buffer()[old(self).pos() as int])
                &&& final(self).pos() == old(self).pos() + 1
            },
            old(self).pos() == old(self).limit() ==> {
                &&& r == Err::<u8, Error>(Error::BufferUnderrun)
                &&& final(self).pos() == old(self).pos()
            },
    {
        if self.position < self.limit {
            let b = self.data[self.position];
            self.position = self.position + 1;
            Ok(b)
        } else {
            Err(Error::BufferUnderrun)
        }
    }

    /// The next `n` bytes as a view into the buffer.
    pub fn read_slice(&mut self, n: usize) -> (r: Result<&'a [u8], Error>)
        requires
            old(self).wf(),
        ensures
            old(self).moved(final(self)),
            old(self).pos() + n <= old(self).limit() ==> {
                &&& r is Ok
                &&& r.unwrap()@ == old(self).remaining().subrange(0, n as int)
                &&& final(self).pos() == old(self).pos() + n
            },
            old(self).pos() + n > old(self).limit() ==> {
                &&& r == Err::<&'a [u8], Error>(Error::BufferUnderrun)
                &&& final(self).pos() == old(self).pos()
            },
    {
        if n <= self.limit - self.position {
            let start = self.position;
            let s = slice_subrange(self.data, start, start + n);
            self.position = start + n;
            assert(s@ =~= old(self).remaining().subrange(0, n as int));
            Ok(s)
        } else {
            Err(Error::BufferUnderrun)
        }
    }

    /// Bytes `[start, end)` of the whole buffer, whether read yet or not.
    pub fn data_in_range(&self, start: usize, end: usize) -> (r: Result<&'a [u8], Error>)
        requires
            self.wf(),
        ensures
            start <= end <= self.buffer().len() ==> r is Ok && r.unwrap()@ == self.buffer().subrange(
                start as int,
                end as int,
            ),
            !(start <= end <= self.buffer().len()) ==> r == Err::<&'a [u8], Error>(
                Error::BufferUnderrun,
            ),
    {
        if start <= end && end <= self.data.len() {
            Ok(slice_subrange(self.data, start, end))
        } else {
            Err(Error::BufferUnderrun)
        }
    }
}

} // verus!
