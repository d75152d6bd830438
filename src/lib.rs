//! A verified codec for a tag-length-value binary encoding (a subset of ASN.1 DER):
//! bounds-checked cursors, the determinate length field, typed values that keep the
//! exact byte ranges they were decoded from, and a symmetric encoder. Beside it stand the
//! settings types of the cryptographic tools that display decoded data.
use vstd::prelude::*;

pub mod error;
pub mod model;
pub mod reader;
pub mod writer;
pub mod length;
pub mod octets;
pub mod tag;
pub mod boolean;
pub mod octet_string;
pub mod utf8_string;
pub mod bit_string;
pub mod asn1;
pub mod laws;
pub mod algorithm;
pub mod jwt;
pub mod scheme;

verus! {

} // verus!
