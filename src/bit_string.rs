//! The bit string: a count of unused bits in the last byte, then the bytes.
use vstd::prelude::*;
use vstd::slice::slice_subrange;
use crate::error::Error;
use crate::length::{length_size, push_length};
use crate::model::{bit_string_of, encode_value, Asn1Value, BIT_STRING_TAG};
use crate::octets::Octets;
use crate::tag::Tag;
use crate::writer::{encoded, Writer};

verus! {

#[derive(Debug, Clone, PartialEq, Eq)]
pub struct BitString<'a> {
    unused_bits: u8,
    bits: Octets<'a>,
}

pub type OwnedBitString = BitString<'static>;

impl<'a> View for BitString<'a> {
    /// The unused-bit count and the bytes.
    type V = (u8, Seq<u8>);

    closed spec fn view(&self) -> (u8, Seq<u8>) {
        (self.unused_bits, self.bits@)
    }
}

impl<'a> BitString<'a> {
    pub open spec fn value(&self) -> Asn1Value {
        Asn1Value::BitString(self@.0, self@.1)
    }

    /// Reads a content field, borrowing its bytes.
    pub fn from_content(content: &'a [u8]) -> (r: Result<BitString<'a>, Error>)
        ensures
            match bit_string_of(content@) {
                Ok((u, b)) => r is Ok && r->Ok_0@ == (u, b),
                Err(e) => r == Err::<BitString<'a>, Error>(e),
            },
    {
        if content.len() == 0 {
            return Err(Error::InvalidLength);
        }
        let unused_bits = content[0];
        if unused_bits > 7 || (content.len() == 1 && unused_bits != 0) {
            return Err(Error::InvalidValue);
        }
        let bits = slice_subrange(content, 1, content.len());
        Ok(BitString { unused_bits, bits: Octets::Borrowed(bits) })
    }

    /// A bit string of `bits` whose last byte leaves `unused_bits` bits unused.
    pub fn new(unused_bits: u8, bits: Vec<u8>) -> (r: Result<OwnedBitString, Error>)
        ensures
            unused_bits <= 7 && (bits@.len() == 0 ==> unused_bits == 0) ==> r is Ok && r->Ok_0@ == (
                unused_bits,
                bits@,
            ),
            !(unused_bits <= 7 && (bits@.len() == 0 ==> unused_bits == 0)) ==> r
                == Err::<OwnedBitString, Error>(Error::InvalidValue),
    {
        if unused_bits > 7 || (bits.len() == 0 && unused_bits != 0) {
            return Err(Error::InvalidValue);
        }
        Ok(BitString { unused_bits, bits: Octets::Owned(bits) })
    }

    pub fn unused_bits(&self) -> (r: u8)
        ensures
            r == self@.0,
    {
        self.unused_bits
    }

    pub fn bits(&self) -> (r: &[u8])
        ensures
            r@ == self@.1,
    {
        self.bits.as_slice()
    }

    /// A copy that no longer borrows from the input.
    pub fn to_owned_string(&self) -> (r: OwnedBitString)
        ensures
            r@ == self@,
    {
        BitString { unused_bits: self.unused_bits, bits: self.bits.to_owned_octets() }
    }

    /// Bytes that `encode` writes: tag, length field, unused-bit count and bytes.
    pub fn needed_buf_size(&self) -> (r: usize)
        requires
            encode_value(self.value()).len() <= usize::MAX,
        ensures
            r == encode_value(self.value()).len(),
    {
        let n = self.bits.len() + 1;
        1 + length_size(n) + n
    }

    /// Writes the encoding, which is known to fit.
    pub(crate) fn write_to(&self, w: &mut Writer)
        requires
            old(w).wf(),
            old(w).room() >= encode_value(self.value()).len(),
        ensures
            final(w).wf(),
            final(w).cap() == old(w).cap(),
            final(w)@ == old(w)@ + encode_value(self.value()),
    {
        let bits = self.bits.as_slice();
        w.push(BIT_STRING_TAG);
        push_length(bits.len() + 1, w);
        w.push(self.unused_bits);
        w.push_slice(bits);
        assert(final(w)@ =~= old(w)@ + encode_value(self.value()));
    }

    /// Writes tag, length field and content.
    pub fn encode(&self, w: &mut Writer) -> (r: Result<(), Error>)
        requires
            old(w).wf(),
            encode_value(self.value()).len() <= usize::MAX,
        ensures
            encoded(r, encode_value(self.value()), *old(w), *final(w)),
    {
        if self.needed_buf_size() > w.remaining() {
            return Err(Error::BufferOverflow);
        }
        self.write_to(w);
        Ok(())
    }

    pub fn tag(&self) -> (r: Tag)
        ensures
            r.0 == BIT_STRING_TAG,
    {
        Tag(BIT_STRING_TAG)
    }

    /// Whether `tag` is the bit string's tag.
    pub fn compare_tags(tag: &Tag) -> (r: bool)
        ensures
            r == (tag.0 == BIT_STRING_TAG),
    {
        tag.0 == BIT_STRING_TAG
    }
}

} // verus!
