//! The UTF-8 string: content bytes that must be well-formed UTF-8 text.
use vstd::prelude::*;
use vstd::string::StringSliceAdditionalSpecFns;
use vstd::utf8::valid_utf8;
use crate::error::Error;
use crate::length::{length_size, push_length};
use crate::model::{encode_value, Asn1Value, UTF8_STRING_TAG};
use crate::writer::{encoded, Writer};
use crate::octets::Octets;
use crate::tag::Tag;

verus! {

#[derive(Debug, Clone, PartialEq, Eq)]
pub struct Utf8String<'a> {
    text: Octets<'a>,
}

pub type OwnedUtf8String = Utf8String<'static>;

impl<'a> View for Utf8String<'a> {
    /// The UTF-8 bytes of the text.
    type V = Seq<u8>;

    closed spec fn view(&self) -> Seq<u8> {
        self.text@
    }
}

/// Relies on `core::str::from_utf8`: it succeeds exactly on well-formed UTF-8.
#[verifier::external_body]
fn is_utf8(bytes: &[u8]) -> (r: bool)
    ensures
        r == valid_utf8(bytes@),
{
    core::str::from_utf8(bytes).is_ok()
}

impl<'a> Utf8String<'a> {
    /// Checks and wraps content bytes, as decoding does.
    pub fn from_utf8(bytes: &'a [u8]) -> (r: Option<Utf8String<'a>>)
        ensures
            valid_utf8(bytes@) ==> r is Some && r.unwrap()@ == bytes@,
            !valid_utf8(bytes@) ==> r is None,
    {
        if is_utf8(bytes) {
            Some(Utf8String { text: Octets::Borrowed(bytes) })
        } else {
            None
        }
    }

    /// A view of the bytes of `text`.
    pub fn from_text(text: &'a str) -> (r: Utf8String<'a>)
        ensures
            r@ == text.spec_bytes(),
    {
        Utf8String { text: Octets::Borrowed(text.as_bytes()) }
    }

    pub fn bytes(&self) -> (r: &[u8])
        ensures
            r@ == self@,
    {
        self.text.as_slice()
    }

    /// A copy that no longer borrows from the input.
    pub fn to_owned_string(&self) -> (r: OwnedUtf8String)
        ensures
            r@ == self@,
    {
        Utf8String { text: self.text.to_owned_octets() }
    }

    /// Bytes that `encode` writes: tag, length field, content.
    pub fn needed_buf_size(&self) -> (r: usize)
        requires
            encode_value(Asn1Value::Utf8String(self@)).len() <= usize::MAX,
        ensures
            r == encode_value(Asn1Value::Utf8String(self@)).len(),
    {
        let n = self.text.len();
        1 + length_size(n) + n
    }

    /// Writes the encoding, which is known to fit.
    pub(crate) fn write_to(&self, w: &mut Writer)
        requires
            old(w).wf(),
            old(w).room() >= encode_value(Asn1Value::Utf8String(self@)).len(),
        ensures
            final(w).wf(),
            final(w).cap() == old(w).cap(),
            final(w)@ == old(w)@ + encode_value(Asn1Value::Utf8String(self@)),
    {
        let content = self.text.as_slice();
        w.push(UTF8_STRING_TAG);
        push_length(content.len(), w);
        w.push_slice(content);
        assert(final(w)@ =~= old(w)@ + encode_value(Asn1Value::Utf8String(self@)));
    }

    /// Writes tag, length field and content.
    pub fn encode(&self, w: &mut Writer) -> (r: Result<(), Error>)
        requires
            old(w).wf(),
            encode_value(Asn1Value::Utf8String(self@)).len() <= usize::MAX,
        ensures
            encoded(r, encode_value(Asn1Value::Utf8String(self@)), *old(w), *final(w)),
    {
        if self.needed_buf_size() > w.remaining() {
            return Err(Error::BufferOverflow);
        }
        self.write_to(w);
        Ok(())
    }

    pub fn tag(&self) -> (r: Tag)
        ensures
            r.0 == UTF8_STRING_TAG,
    {
        Tag(UTF8_STRING_TAG)
    }

    /// Whether `tag` is the UTF-8 string's tag.
    pub fn compare_tags(tag: &Tag) -> (r: bool)
        ensures
            r == (tag.0 == UTF8_STRING_TAG),
    {
        tag.0 == UTF8_STRING_TAG
    }
}

} // verus!
