//! The mathematical model of the encoding: values, the length field, and what a
//! byte sequence decodes to.
use vstd::prelude::*;
use vstd::utf8::valid_utf8;
use crate::error::Error;

verus! {

pub const BOOL_TAG: u8 = 0x01;

pub const OCTET_STRING_TAG: u8 = 0x04;

pub const UTF8_STRING_TAG: u8 = 0x0c;

pub const SEQUENCE_TAG: u8 = 0x30;

pub const BIT_STRING_TAG: u8 = 0x03;

/// Tag of explicit tag number zero: context-specific class, constructed.
pub const EXPLICIT_TAG_BASE: u8 = 0xa0;

/// Tag of application tag number zero: application class, constructed.
pub const APPLICATION_TAG_BASE: u8 = 0x60;

/// The largest tag number a single tag byte holds.
pub const MAX_TAG_NUMBER: u8 = 30;

/// What a decoded value means, apart from where it came from.
pub enum Asn1Value {
    Bool(bool),
    OctetString(Seq<u8>),
    /// The UTF-8 bytes of the text.
    Utf8String(Seq<u8>),
    /// The children in their order.
    Sequence(Seq<Asn1Value>),
    /// The count of unused bits in the last byte, and the bytes.
    BitString(u8, Seq<u8>),
    /// A context-specific tag number and the values it wraps.
    ExplicitTag(u8, Seq<Asn1Value>),
    /// An application tag number and the values it wraps.
    ApplicationTag(u8, Seq<Asn1Value>),
}

pub open spec fn is_explicit_tag(t: u8) -> bool {
    EXPLICIT_TAG_BASE <= t <= EXPLICIT_TAG_BASE + MAX_TAG_NUMBER
}

pub open spec fn is_application_tag(t: u8) -> bool {
    APPLICATION_TAG_BASE <= t <= APPLICATION_TAG_BASE + MAX_TAG_NUMBER
}

/// What a bit string's content means: a first byte of at most 7 unused bits (none where
/// no byte follows), then the bytes.
pub open spec fn bit_string_of(content: Seq<u8>) -> Result<(u8, Seq<u8>), Error> {
    if content.len() == 0 {
        Err(Error::InvalidLength)
    } else if content[0] > 7 || (content.len() == 1 && content[0] != 0) {
        Err(Error::InvalidValue)
    } else {
        Ok((content[0], content.subrange(1, content.len() as int)))
    }
}

/// The tags that generic decoding knows.
pub open spec fn supported_tag(t: u8) -> bool {
    t == BOOL_TAG || t == OCTET_STRING_TAG || t == UTF8_STRING_TAG || t == SEQUENCE_TAG
        || t == BIT_STRING_TAG || is_explicit_tag(t) || is_application_tag(t)
}

/// The first byte of an encoding is the value's tag.
pub open spec fn tag_of(v: Asn1Value) -> u8 {
    match v {
        Asn1Value::Bool(_) => BOOL_TAG,
        Asn1Value::OctetString(_) => OCTET_STRING_TAG,
        Asn1Value::Utf8String(_) => UTF8_STRING_TAG,
        Asn1Value::Sequence(_) => SEQUENCE_TAG,
        Asn1Value::BitString(_, _) => BIT_STRING_TAG,
        Asn1Value::ExplicitTag(n, _) => (EXPLICIT_TAG_BASE + n) as u8,
        Asn1Value::ApplicationTag(n, _) => (APPLICATION_TAG_BASE + n) as u8,
    }
}

/// The canonical encoding of a value.
pub open spec fn encode_value(v: Asn1Value) -> Seq<u8>
    decreases v,
{
    match v {
        Asn1Value::Bool(b) => seq![BOOL_TAG, 1u8, if b { 0xffu8 } else { 0u8 }],
        Asn1Value::OctetString(c) => seq![OCTET_STRING_TAG] + length_bytes(c.len()) + c,
        Asn1Value::Utf8String(c) => seq![UTF8_STRING_TAG] + length_bytes(c.len()) + c,
        Asn1Value::Sequence(cs) => seq![SEQUENCE_TAG] + length_bytes(encode_children(cs).len())
            + encode_children(cs),
        Asn1Value::BitString(u, b) => seq![BIT_STRING_TAG] + length_bytes(1 + b.len()) + seq![u]
            + b,
        Asn1Value::ExplicitTag(n, cs) => seq![(EXPLICIT_TAG_BASE + n) as u8] + length_bytes(
            encode_children(cs).len(),
        ) + encode_children(cs),
        Asn1Value::ApplicationTag(n, cs) => seq![(APPLICATION_TAG_BASE + n) as u8] + length_bytes(
            encode_children(cs).len(),
        ) + encode_children(cs),
    }
}

/// The encodings of the children, concatenated in order.
pub open spec fn encode_children(cs: Seq<Asn1Value>) -> Seq<u8>
    decreases cs,
{
    if cs.len() == 0 {
        Seq::empty()
    } else {
        encode_value(cs[0]) + encode_children(cs.subrange(1, cs.len() as int))
    }
}

/// A value that can be encoded and read back: text is UTF-8 and every length fits `usize`.
pub open spec fn value_wf(v: Asn1Value) -> bool
    decreases v,
{
    match v {
        Asn1Value::Bool(_) => true,
        Asn1Value::OctetString(c) => c.len() <= max_len(),
        Asn1Value::Utf8String(c) => c.len() <= max_len() && valid_utf8(c),
        Asn1Value::Sequence(cs) => encode_children(cs).len() <= max_len() && children_wf(cs),
        Asn1Value::BitString(u, b) => 1 + b.len() <= max_len() && u <= 7 && (b.len() == 0 ==> u
            == 0),
        Asn1Value::ExplicitTag(n, cs) => n <= MAX_TAG_NUMBER && encode_children(cs).len()
            <= max_len() && children_wf(cs),
        Asn1Value::ApplicationTag(n, cs) => n <= MAX_TAG_NUMBER && encode_children(cs).len()
            <= max_len() && children_wf(cs),
    }
}

pub open spec fn children_wf(cs: Seq<Asn1Value>) -> bool
    decreases cs,
{
    if cs.len() == 0 {
        true
    } else {
        value_wf(cs[0]) && children_wf(cs.subrange(1, cs.len() as int))
    }
}

/// Decoding at `s[0]`, whose tag is known to be supported: the value and the number of
/// bytes it spans.
pub open spec fn parse_body(s: Seq<u8>) -> Result<(Asn1Value, nat), Error>
    decreases s.len(), 0nat,
{
    if s.len() == 0 {
        Err(Error::BufferUnderrun)
    } else {
        match parse_length(s.subrange(1, s.len() as int)) {
            Err(e) => Err(e),
            Ok((len, k)) => {
                let start = 1 + k;
                let end = start + len;
                if s[0] == BOOL_TAG && len != 1 {
                    Err(Error::InvalidLength)
                } else if s[0] == BIT_STRING_TAG && len == 0 {
                    Err(Error::InvalidLength)
                } else if end > s.len() {
                    Err(Error::BufferUnderrun)
                } else {
                    let content = s.subrange(start as int, end as int);
                    if s[0] == BOOL_TAG {
                        if content[0] == 0 {
                            Ok((Asn1Value::Bool(false), end))
                        } else if content[0] == 0xff {
                            Ok((Asn1Value::Bool(true), end))
                        } else {
                            Err(Error::InvalidValue)
                        }
                    } else if s[0] == OCTET_STRING_TAG {
                        Ok((Asn1Value::OctetString(content), end))
                    } else if s[0] == UTF8_STRING_TAG {
                        if valid_utf8(content) {
                            Ok((Asn1Value::Utf8String(content), end))
                        } else {
                            Err(Error::InvalidValue)
                        }
                    } else if s[0] == BIT_STRING_TAG {
                        match bit_string_of(content) {
                            Ok((u, b)) => Ok((Asn1Value::BitString(u, b), end)),
                            Err(e) => Err(e),
                        }
                    } else {
                        match parse_children(content) {
                            Ok(cs) => Ok(
                                (
                                    if s[0] == SEQUENCE_TAG {
                                        Asn1Value::Sequence(cs)
                                    } else if is_explicit_tag(s[0]) {
                                        Asn1Value::ExplicitTag((s[0] - EXPLICIT_TAG_BASE) as u8, cs)
                                    } else {
                                        Asn1Value::ApplicationTag(
                                            (s[0] - APPLICATION_TAG_BASE) as u8,
                                            cs,
                                        )
                                    },
                                    end,
                                ),
                            ),
                            Err(e) => Err(e),
                        }
                    }
                }
            },
        }
    }
}

/// Generic decoding at the start of `s`, dispatched on the tag.
pub open spec fn parse_any(s: Seq<u8>) -> Result<(Asn1Value, nat), Error>
    decreases s.len(), 1nat,
{
    if s.len() == 0 {
        Err(Error::BufferUnderrun)
    } else if !supported_tag(s[0]) {
        Err(Error::UnsupportedTag)
    } else {
        parse_body(s)
    }
}

/// Decoding the content of a constructed value: complete children, one after another,
/// that fill it exactly. A child that runs past the content makes the container malformed.
pub open spec fn parse_children(s: Seq<u8>) -> Result<Seq<Asn1Value>, Error>
    decreases s.len(), 2nat,
{
    if s.len() == 0 {
        Ok(Seq::empty())
    } else {
        match parse_any(s) {
            Err(e) => Err(
                if e == Error::BufferUnderrun {
                    Error::MalformedContainer
                } else {
                    e
                },
            ),
            Ok((v, n)) => if 0 < n <= s.len() {
                match parse_children(s.subrange(n as int, s.len() as int)) {
                    Ok(cs) => Ok(seq![v] + cs),
                    Err(e) => Err(e),
                }
            } else {
                Err(Error::MalformedContainer)
            },
        }
    }
}

/// Decoding a value whose tag lies in `[lo, hi]` at the start of `s`.
pub open spec fn parse_class(lo: u8, hi: u8, s: Seq<u8>) -> Result<(Asn1Value, nat), Error> {
    if s.len() == 0 {
        Err(Error::BufferUnderrun)
    } else if !(lo <= s[0] <= hi) {
        Err(Error::TagMismatch)
    } else {
        parse_body(s)
    }
}

/// Decoding a value of one given type at the start of `s`.
pub open spec fn parse_tagged(tag: u8, s: Seq<u8>) -> Result<(Asn1Value, nat), Error> {
    parse_class(tag, tag, s)
}

/// Size of the length field of the value that starts at `s[0]`.
pub open spec fn length_field_size(s: Seq<u8>) -> nat {
    match parse_length(s.subrange(1, s.len() as int)) {
        Ok((_, k)) => k,
        Err(_) => 0,
    }
}

/// A decoded value spans its tag, its length field and at least no content.
pub proof fn lemma_parse_body_span(s: Seq<u8>)
    requires
        s.len() >= 1,
        parse_body(s) is Ok,
    ensures
        2 <= parse_body(s)->Ok_0.1 <= s.len(),
        1 + length_field_size(s) <= parse_body(s)->Ok_0.1,
        length_field_size(s) >= 1,
{
}

/// Largest magnitude a length field may carry.
pub open spec fn max_len() -> nat {
    usize::MAX as nat
}

/// The unsigned big-endian number that the bytes spell out.
pub open spec fn be_value(s: Seq<u8>) -> nat
    decreases s.len(),
{
    if s.len() == 0 {
        0
    } else {
        be_value(s.drop_last()) * 256 + s.last() as nat
    }
}

/// The shortest big-endian bytes of `n`: no leading zero byte, and none at all for zero.
pub open spec fn be_min(n: nat) -> Seq<u8>
    decreases n,
{
    if n == 0 {
        Seq::empty()
    } else {
        be_min(n / 256).push((n % 256) as u8)
    }
}

/// The canonical length field for a content of `n` bytes: short form below 128,
/// otherwise a header byte `0x80 | k` followed by the `k` minimal big-endian bytes.
pub open spec fn length_bytes(n: nat) -> Seq<u8> {
    if n < 128 {
        seq![n as u8]
    } else {
        seq![(0x80 + be_min(n).len()) as u8] + be_min(n)
    }
}

/// What reading a length field at the start of `s` gives: the length and the number of
/// bytes the field occupies. A long form with no magnitude bytes (the indefinite form)
/// or with a magnitude beyond `usize` is an invalid length; one that announces more
/// bytes than remain runs out of input. Leading zero bytes are read, not rejected.
pub open spec fn parse_length(s: Seq<u8>) -> Result<(nat, nat), Error> {
    if s.len() == 0 {
        Err(Error::BufferUnderrun)
    } else if s[0] < 0x80 {
        Ok((s[0] as nat, 1))
    } else {
        let k = (s[0] - 0x80) as nat;
        if k == 0 {
            Err(Error::InvalidLength)
        } else if s.len() < 1 + k {
            Err(Error::BufferUnderrun)
        } else if be_value(s.subrange(1, 1 + k as int)) > max_len() {
            Err(Error::InvalidLength)
        } else {
            Ok((be_value(s.subrange(1, 1 + k as int)), 1 + k))
        }
    }
}

/// Reading a length field looks at nothing past the field.
pub proof fn lemma_parse_length_prefix(a: Seq<u8>, b: Seq<u8>, k: nat)
    requires
        parse_length(a) matches Ok((_, kk)) && kk == k,
        b.len() >= k,
        b.subrange(0, k as int) == a.subrange(0, k as int),
    ensures
        parse_length(b) == parse_length(a),
{
    assert(b[0] == b.subrange(0, k as int)[0]);
    assert(a[0] == a.subrange(0, k as int)[0]);
    if a[0] >= 0x80 {
        assert(b.subrange(1, k as int) =~= b.subrange(0, k as int).subrange(1, k as int));
        assert(a.subrange(1, k as int) =~= a.subrange(0, k as int).subrange(1, k as int));
    }
}

pub open spec fn pow256(j: nat) -> nat
    decreases j,
{
    if j == 0 {
        1
    } else {
        256 * pow256((j - 1) as nat)
    }
}

pub proof fn lemma_be_min_value(n: nat)
    ensures
        be_value(be_min(n)) == n,
    decreases n,
{
    if n != 0 {
        lemma_be_min_value(n / 256);
        let s = be_min(n);
        assert(s.drop_last() =~= be_min(n / 256));
    }
}

pub proof fn lemma_be_min_len(n: nat, j: nat)
    requires
        n < pow256(j),
    ensures
        be_min(n).len() <= j,
    decreases j,
{
    if n != 0 {
        if j == 0 {
        } else {
            assert(n / 256 < pow256((j - 1) as nat));
            lemma_be_min_len(n / 256, (j - 1) as nat);
        }
    }
}

pub proof fn lemma_be_min_fits(n: nat)
    requires
        n <= max_len(),
    ensures
        be_min(n).len() <= 8,
        n >= 128 ==> be_min(n).len() >= 1,
{
    reveal_with_fuel(pow256, 9);
    assert(pow256(8) == 0x1_0000_0000_0000_0000nat);
    lemma_be_min_len(n, 8);
}

/// The length field of `n` is as long as `length_bytes` says and reads back as `n`,
/// whatever follows it.
pub proof fn lemma_length_round_trip(n: nat, rest: Seq<u8>)
    requires
        n <= max_len(),
    ensures
        parse_length(length_bytes(n) + rest) == Ok::<(nat, nat), Error>((n, length_bytes(n).len())),
        1 <= length_bytes(n).len() <= 9,
{
    lemma_be_min_fits(n);
    let s = length_bytes(n) + rest;
    if n >= 128 {
        let m = be_min(n);
        assert(s.subrange(1, 1 + m.len() as int) =~= m);
        lemma_be_min_value(n);
    }
}

/// The encoding of a list of children splits at any index.
pub proof fn lemma_encode_children_split(cs: Seq<Asn1Value>, i: int)
    requires
        0 <= i <= cs.len(),
    ensures
        encode_children(cs) == encode_children(cs.subrange(0, i)) + encode_children(
            cs.subrange(i, cs.len() as int),
        ),
    decreases i,
{
    if i == 0 {
        assert(cs.subrange(0, 0) =~= Seq::<Asn1Value>::empty());
        assert(cs.subrange(0, cs.len() as int) =~= cs);
        assert(encode_children(cs.subrange(0, 0)) =~= Seq::<u8>::empty());
        assert(encode_children(cs) =~= Seq::<u8>::empty() + encode_children(cs));
    } else {
        let tail = cs.subrange(1, cs.len() as int);
        lemma_encode_children_split(tail, i - 1);
        assert(tail.subrange(0, i - 1) =~= cs.subrange(0, i).subrange(1, i));
        assert(tail.subrange(i - 1, tail.len() as int) =~= cs.subrange(i, cs.len() as int));
        assert(cs.subrange(0, i)[0] == cs[0]);
        assert(encode_children(cs.subrange(0, i)) == encode_value(cs[0]) + encode_children(
            cs.subrange(0, i).subrange(1, i),
        ));
        assert(encode_children(cs) =~= encode_children(cs.subrange(0, i)) + encode_children(
            cs.subrange(i, cs.len() as int),
        ));
    }
}

/// Appending a child appends its encoding.
pub proof fn lemma_encode_children_step(cs: Seq<Asn1Value>, i: int)
    requires
        0 <= i < cs.len(),
    ensures
        encode_children(cs.subrange(0, i + 1)) == encode_children(cs.subrange(0, i))
            + encode_value(cs[i]),
        encode_children(cs.subrange(0, i + 1)).len() <= encode_children(cs).len(),
{
    let p = cs.subrange(0, i + 1);
    lemma_encode_children_split(p, i);
    assert(p.subrange(0, i) =~= cs.subrange(0, i));
    let last = p.subrange(i, i + 1);
    assert(last.len() == 1);
    assert(last[0] == cs[i]);
    assert(last.subrange(1, 1) =~= Seq::<Asn1Value>::empty());
    assert(encode_children(last.subrange(1, 1)) =~= Seq::<u8>::empty());
    assert(encode_children(last) == encode_value(last[0]) + encode_children(last.subrange(1, 1)));
    assert(encode_children(last) =~= encode_value(cs[i]));
    assert(p.subrange(i, p.len() as int) =~= last);
    lemma_encode_children_split(cs, i + 1);
}

} // verus!
