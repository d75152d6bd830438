//! Properties of the encoding that relate its functions to one another.
use vstd::prelude::*;
use crate::error::Error;
use crate::model::{
    Asn1Value, BOOL_TAG, SEQUENCE_TAG, supported_tag, value_wf, children_wf, encode_value,
    encode_children, length_bytes, parse_length, parse_body, parse_any, parse_children,
    parse_tagged, max_len, lemma_length_round_trip, tag_of, lemma_parse_length_prefix,
};

verus! {

/// Length codec self-consistency: for every `n` that fits `usize`, `length_size(n)` is the
/// number of bytes `write_length(n)` emits, and `read_length` reads those bytes back as
/// `n`, whatever follows them.
pub proof fn lemma_length_codec(n: nat, rest: Seq<u8>)
    requires
        n <= max_len(),
    ensures
        parse_length(length_bytes(n) + rest) == Ok::<(nat, nat), Error>((n, length_bytes(n).len())),
{
    lemma_length_round_trip(n, rest);
}

/// Round trip: decoding the encoding of a well-formed value, generically or as its own
/// type, gives the value back and spans exactly the encoding, whatever follows it; so an
/// encoded buffer re-encodes to itself.
pub proof fn lemma_decode_encode(v: Asn1Value, rest: Seq<u8>)
    requires
        value_wf(v),
    ensures
        parse_any(encode_value(v) + rest) == Ok::<(Asn1Value, nat), Error>((v, encode_value(v).len())),
        parse_tagged(tag_of(v), encode_value(v) + rest) == Ok::<(Asn1Value, nat), Error>(
            (v, encode_value(v).len()),
        ),
        encode_value(parse_any(encode_value(v) + rest)->Ok_0.0) == (encode_value(v) + rest).subrange(
            0,
            parse_any(encode_value(v) + rest)->Ok_0.1 as int,
        ),
    decreases v, 2nat,
{
    let e = encode_value(v);
    let s = e + rest;
    assert(s[0] == tag_of(v));
    assert(supported_tag(s[0]));
    match v {
        Asn1Value::Sequence(_) => lemma_decode_encode_constructed(v, rest),
        Asn1Value::ExplicitTag(_, _) => lemma_decode_encode_constructed(v, rest),
        Asn1Value::ApplicationTag(_, _) => lemma_decode_encode_constructed(v, rest),
        _ => lemma_decode_encode_primitive(v, rest),
    }
    assert(s.subrange(0, e.len() as int) =~= e);
}

proof fn lemma_decode_encode_primitive(v: Asn1Value, rest: Seq<u8>)
    requires
        value_wf(v),
        !(v is Sequence || v is ExplicitTag || v is ApplicationTag),
    ensures
        parse_body(encode_value(v) + rest) == Ok::<(Asn1Value, nat), Error>((v, encode_value(v).len())),
{
    let s = encode_value(v) + rest;
    match v {
        Asn1Value::Bool(b) => {
            assert(length_bytes(1) =~= seq![1u8]);
            assert(s.subrange(1, s.len() as int) =~= length_bytes(1) + s.subrange(2, s.len() as int));
            lemma_length_round_trip(1, s.subrange(2, s.len() as int));
        },
        Asn1Value::OctetString(c) => {
            let lb = length_bytes(c.len());
            assert(s.subrange(1, s.len() as int) =~= lb + (c + rest));
            lemma_length_round_trip(c.len(), c + rest);
            assert(s.subrange(1 + lb.len() as int, (1 + lb.len() + c.len()) as int) =~= c);
        },
        Asn1Value::Utf8String(c) => {
            let lb = length_bytes(c.len());
            assert(s.subrange(1, s.len() as int) =~= lb + (c + rest));
            lemma_length_round_trip(c.len(), c + rest);
            assert(s.subrange(1 + lb.len() as int, (1 + lb.len() + c.len()) as int) =~= c);
        },
        Asn1Value::BitString(u, b) => {
            let c = seq![u] + b;
            let lb = length_bytes(c.len());
            assert(s.subrange(1, s.len() as int) =~= lb + (c + rest));
            lemma_length_round_trip(c.len(), c + rest);
            assert(s.subrange(1 + lb.len() as int, (1 + lb.len() + c.len()) as int) =~= c);
            assert(c.subrange(1, c.len() as int) =~= b);
        },
        _ => {},
    }
}

proof fn lemma_decode_encode_constructed(v: Asn1Value, rest: Seq<u8>)
    requires
        value_wf(v),
        v is Sequence || v is ExplicitTag || v is ApplicationTag,
    ensures
        parse_body(encode_value(v) + rest) == Ok::<(Asn1Value, nat), Error>((v, encode_value(v).len())),
    decreases v, 1nat,
{
    let s = encode_value(v) + rest;
    let cs = match v {
        Asn1Value::Sequence(cs) => cs,
        Asn1Value::ExplicitTag(_, cs) => cs,
        Asn1Value::ApplicationTag(_, cs) => cs,
        _ => Seq::empty(),
    };
    let c = encode_children(cs);
    let lb = length_bytes(c.len());
    assert(s.subrange(1, s.len() as int) =~= lb + (c + rest));
    lemma_length_round_trip(c.len(), c + rest);
    assert(s.subrange(1 + lb.len() as int, (1 + lb.len() + c.len()) as int) =~= c);
    lemma_decode_encode_children(cs);
}

/// The concatenated encodings of well-formed children decode back to those children.
pub proof fn lemma_decode_encode_children(cs: Seq<Asn1Value>)
    requires
        children_wf(cs),
    ensures
        parse_children(encode_children(cs)) == Ok::<Seq<Asn1Value>, Error>(cs),
    decreases cs, 0nat,
{
    if cs.len() == 0 {
        assert(cs =~= Seq::<Asn1Value>::empty());
    } else {
        let tail = cs.subrange(1, cs.len() as int);
        let e0 = encode_value(cs[0]);
        let et = encode_children(tail);
        lemma_decode_encode(cs[0], et);
        lemma_decode_encode_children(tail);
        let s = e0 + et;
        assert(s.subrange(e0.len() as int, s.len() as int) =~= et);
        assert(seq![cs[0]] + tail =~= cs);
    }
}

/// Order is part of the value: two well-formed values with the same encoding are the
/// same value, so a sequence whose children are put in another order encodes to other
/// bytes.
pub proof fn lemma_encoding_injective(v1: Asn1Value, v2: Asn1Value)
    requires
        value_wf(v1),
        value_wf(v2),
        encode_value(v1) == encode_value(v2),
    ensures
        v1 == v2,
{
    lemma_decode_encode(v1, Seq::empty());
    lemma_decode_encode(v2, Seq::empty());
}

/// Booleans: with the boolean tag first, decoding succeeds exactly on a length of one and
/// a content byte of `0x00` (false) or `0xff` (true); a length other than one is an
/// invalid length, any other byte an invalid value.
pub proof fn lemma_bool_decoding(s: Seq<u8>)
    requires
        s.len() >= 1,
        s[0] == BOOL_TAG,
    ensures
        match parse_length(s.subrange(1, s.len() as int)) {
            Ok((len, k)) => {
                &&& len != 1 ==> parse_tagged(BOOL_TAG, s) == Err::<(Asn1Value, nat), Error>(Error::InvalidLength)
                &&& len == 1 && s.len() >= 2 + k ==> {
                    &&& s[1 + k as int] == 0 ==> parse_tagged(BOOL_TAG, s) == Ok::<(Asn1Value, nat), Error>(
                        (Asn1Value::Bool(false), 2 + k),
                    )
                    &&& s[1 + k as int] == 0xff ==> parse_tagged(BOOL_TAG, s) == Ok::<(Asn1Value, nat), Error>(
                        (Asn1Value::Bool(true), 2 + k),
                    )
                    &&& s[1 + k as int] != 0 && s[1 + k as int] != 0xff ==> parse_tagged(BOOL_TAG, s)
                        == Err::<(Asn1Value, nat), Error>(Error::InvalidValue)
                }
            },
            Err(e) => parse_tagged(BOOL_TAG, s) == Err::<(Asn1Value, nat), Error>(e),
        },
{
}

/// Truncation: a buffer cut one byte short of a sequence's end never decodes; it fails
/// with `BufferUnderrun`.
pub proof fn lemma_truncated_sequence(s: Seq<u8>)
    requires
        parse_tagged(SEQUENCE_TAG, s) is Ok,
    ensures
        parse_tagged(SEQUENCE_TAG, s.subrange(0, parse_tagged(SEQUENCE_TAG, s)->Ok_0.1 - 1))
            == Err::<(Asn1Value, nat), Error>(Error::BufferUnderrun),
        parse_any(s.subrange(0, parse_tagged(SEQUENCE_TAG, s)->Ok_0.1 - 1)) == Err::<(Asn1Value, nat), Error>(
            Error::BufferUnderrun,
        ),
{
    let n = parse_tagged(SEQUENCE_TAG, s)->Ok_0.1;
    let t = s.subrange(0, n - 1);
    let a = s.subrange(1, s.len() as int);
    let (len, k) = parse_length(a)->Ok_0;
    assert(n == 1 + k + len);
    assert(t[0] == s[0]);
    let b = t.subrange(1, t.len() as int);
    if len > 0 {
        assert(b.subrange(0, k as int) =~= a.subrange(0, k as int));
        lemma_parse_length_prefix(a, b, k);
    } else {
        assert(b.len() == k - 1);
        if k > 1 {
            assert(b[0] == a[0]);
        }
    }
}

} // verus!
