//! The boolean value: one content byte, `0x00` or `0xff`.
use vstd::prelude::*;
use crate::error::Error;
use crate::model::{encode_value, Asn1Value, BOOL_TAG};
use crate::writer::{encoded, Writer};
use crate::tag::Tag;

verus! {

#[derive(Debug, Clone, PartialEq, Eq)]
pub struct Bool {
    flag: bool,
}

impl View for Bool {
    type V = bool;

    closed spec fn view(&self) -> bool {
        self.flag
    }
}

/// What a content byte means: `0x00` is false, `0xff` is true, anything else is invalid.
pub open spec fn bool_of_byte(b: u8) -> Result<bool, Error> {
    if b == 0 {
        Ok(false)
    } else if b == 0xff {
        Ok(true)
    } else {
        Err(Error::InvalidValue)
    }
}

/// The boolean built from `flag` holds `flag`.
pub broadcast proof fn lemma_spec_new_view(flag: bool)
    ensures
        #[trigger] Bool::spec_new(flag)@ == flag,
{
}

impl Bool {
    /// The boolean that holds `flag`.
    pub closed spec fn spec_new(flag: bool) -> Bool {
        Bool { flag }
    }

    pub fn new(flag: bool) -> (r: Bool)
        ensures
            r@ == flag,
    {
        Bool { flag }
    }

    pub fn value(&self) -> (r: bool)
        ensures
            r == self@,
    {
        self.flag
    }

    /// Bytes that `encode` writes: always three.
    pub fn needed_buf_size(&self) -> (r: usize)
        ensures
            r == encode_value(Asn1Value::Bool(self@)).len(),
            r == 3,
    {
        3
    }

    /// Writes the encoding, which is known to fit.
    pub(crate) fn write_to(&self, w: &mut Writer)
        requires
            old(w).wf(),
            old(w).room() >= 3,
        ensures
            final(w).wf(),
            final(w).cap() == old(w).cap(),
            final(w)@ == old(w)@ + encode_value(Asn1Value::Bool(self@)),
    {
        w.push(BOOL_TAG);
        w.push(1);
        w.push(self.content_byte());
        assert(final(w)@ =~= old(w)@ + encode_value(Asn1Value::Bool(self@)));
    }

    /// Writes tag, length field and content byte.
    pub fn encode(&self, w: &mut Writer) -> (r: Result<(), Error>)
        requires
            old(w).wf(),
        ensures
            encoded(r, encode_value(Asn1Value::Bool(self@)), *old(w), *final(w)),
    {
        if w.remaining() < 3 {
            return Err(Error::BufferOverflow);
        }
        self.write_to(w);
        Ok(())
    }

    pub fn tag(&self) -> (r: Tag)
        ensures
            r.0 == BOOL_TAG,
    {
        Tag(BOOL_TAG)
    }

    /// Whether `tag` is the boolean's tag.
    pub fn compare_tags(tag: &Tag) -> (r: bool)
        ensures
            r == (tag.0 == BOOL_TAG),
    {
        tag.0 == BOOL_TAG
    }

    /// Reads a content byte.
    pub fn from_byte(b: u8) -> (r: Result<Bool, Error>)
        ensures
            match bool_of_byte(b) {
                Ok(f) => r is Ok && r.unwrap()@ == f,
                Err(e) => r == Err::<Bool, Error>(e),
            },
    {
        if b == 0 {
            Ok(Bool { flag: false })
        } else if b == 0xff {
            Ok(Bool { flag: true })
        } else {
            Err(Error::InvalidValue)
        }
    }

    /// The content byte this value encodes to.
    pub fn content_byte(&self) -> (r: u8)
        ensures
            r == if self@ { 0xffu8 } else { 0u8 },
    {
        if self.flag {
            0xff
        } else {
            0
        }
    }
}

impl From<bool> for Bool {
    fn from(flag: bool) -> (r: Bool) {
        Bool { flag }
    }
}

impl vstd::std_specs::convert::FromSpecImpl<bool> for Bool {
    open spec fn obeys_from_spec() -> bool {
        true
    }

    open spec fn from_spec(flag: bool) -> Bool {
        Bool::spec_new(flag)
    }
}

impl TryFrom<u8> for Bool {
    type Error = Error;

    fn try_from(b: u8) -> (r: Result<Bool, Error>) {
        Bool::from_byte(b)
    }
}

impl vstd::std_specs::convert::TryFromSpecImpl<u8> for Bool {
    open spec fn obeys_try_from_spec() -> bool {
        true
    }

    open spec fn try_from_spec(b: u8) -> Result<Bool, Error> {
        match bool_of_byte(b) {
            Ok(flag) => Ok(Bool::spec_new(flag)),
            Err(e) => Err(e),
        }
    }
}

} // verus!
