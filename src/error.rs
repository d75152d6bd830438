use vstd::prelude::*;

verus! {

/// Every way a decode or an encode call can fail. Each error ends the call that raised it.
#[derive(Debug, Clone, Copy, PartialEq, Eq, Structural)]
pub enum Error {
    /// The next byte is not the tag of the expected type.
    TagMismatch,
    /// A long-form length field whose length-of-length is zero, or whose magnitude does
    /// not fit in `usize`.
    InvalidLength,
    /// Fewer bytes remain than a field needs.
    BufferUnderrun,
    /// An encoder would write past the capacity it was given.
    BufferOverflow,
    /// Content bytes break a constraint of their type.
    InvalidValue,
    /// The children of a constructed value do not exactly fill its content.
    MalformedContainer,
    /// Generic decoding met a tag outside the supported set.
    UnsupportedTag,
}

pub type Asn1Result<T> = Result<T, Error>;

} // verus!
