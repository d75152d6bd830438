//! The octet string: arbitrary content bytes.
use vstd::prelude::*;
use crate::error::Error;
use crate::length::{length_size, push_length};
use crate::model::{encode_value, Asn1Value, OCTET_STRING_TAG};
use crate::writer::{encoded, Writer};
use crate::octets::Octets;
use crate::tag::Tag;

verus! {

#[derive(Debug, Clone, PartialEq, Eq)]
pub struct OctetString<'a> {
    octets: Octets<'a>,
}

/// An octet string that borrows nothing.
pub type OwnedOctetString = OctetString<'static>;

impl<'a> View for OctetString<'a> {
    type V = Seq<u8>;

    closed spec fn view(&self) -> Seq<u8> {
        self.octets@
    }
}

/// The octet string that owns `data` holds its bytes.
pub broadcast proof fn lemma_spec_owned_view(data: Vec<u8>)
    ensures
        #[trigger] OctetString::spec_owned(data)@ == data@,
{
}

impl OctetString<'static> {
    /// The octet string that owns `data`.
    pub closed spec fn spec_owned(data: Vec<u8>) -> OctetString<'static> {
        OctetString { octets: Octets::Owned(data) }
    }
}

impl<'a> OctetString<'a> {
    /// A view of `data`, as decoding makes.
    pub fn borrowed(data: &'a [u8]) -> (r: OctetString<'a>)
        ensures
            r@ == data@,
    {
        OctetString { octets: Octets::Borrowed(data) }
    }

    pub fn from_vec(data: Vec<u8>) -> (r: OwnedOctetString)
        ensures
            r@ == data@,
    {
        OctetString { octets: Octets::Owned(data) }
    }

    pub fn octets(&self) -> (r: &[u8])
        ensures
            r@ == self@,
    {
        self.octets.as_slice()
    }

    /// A copy that no longer borrows from the input.
    pub fn to_owned_string(&self) -> (r: OwnedOctetString)
        ensures
            r@ == self@,
    {
        OctetString { octets: self.octets.to_owned_octets() }
    }

    /// Bytes that `encode` writes: tag, length field, content.
    pub fn needed_buf_size(&self) -> (r: usize)
        requires
            encode_value(Asn1Value::OctetString(self@)).len() <= usize::MAX,
        ensures
            r == encode_value(Asn1Value::OctetString(self@)).len(),
    {
        let n = self.octets.len();
        1 + length_size(n) + n
    }

    /// Writes the encoding, which is known to fit.
    pub(crate) fn write_to(&self, w: &mut Writer)
        requires
            old(w).wf(),
            old(w).room() >= encode_value(Asn1Value::OctetString(self@)).len(),
        ensures
            final(w).wf(),
            final(w).cap() == old(w).cap(),
            final(w)@ == old(w)@ + encode_value(Asn1Value::OctetString(self@)),
    {
        let content = self.octets.as_slice();
        w.push(OCTET_STRING_TAG);
        push_length(content.len(), w);
        w.push_slice(content);
        assert(final(w)@ =~= old(w)@ + encode_value(Asn1Value::OctetString(self@)));
    }

    /// Writes tag, length field and content.
    pub fn encode(&self, w: &mut Writer) -> (r: Result<(), Error>)
        requires
            old(w).wf(),
            encode_value(Asn1Value::OctetString(self@)).len() <= usize::MAX,
        ensures
            encoded(r, encode_value(Asn1Value::OctetString(self@)), *old(w), *final(w)),
    {
        if self.needed_buf_size() > w.remaining() {
            return Err(Error::BufferOverflow);
        }
        self.write_to(w);
        Ok(())
    }

    pub fn tag(&self) -> (r: Tag)
        ensures
            r.0 == OCTET_STRING_TAG,
    {
        Tag(OCTET_STRING_TAG)
    }

    /// Whether `tag` is the octet string's tag.
    pub fn compare_tags(tag: &Tag) -> (r: bool)
        ensures
            r == (tag.0 == OCTET_STRING_TAG),
    {
        tag.0 == OCTET_STRING_TAG
    }
}

impl From<Vec<u8>> for OctetString<'static> {
    fn from(data: Vec<u8>) -> (r: OctetString<'static>) {
        OctetString { octets: Octets::Owned(data) }
    }
}

impl vstd::std_specs::convert::FromSpecImpl<Vec<u8>> for OctetString<'static> {
    open spec fn obeys_from_spec() -> bool {
        true
    }

    open spec fn from_spec(data: Vec<u8>) -> OctetString<'static> {
        OctetString::spec_owned(data)
    }
}

} // verus!
