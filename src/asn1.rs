//! Decoded values with their byte provenance, the closed set of value types, generic
//! dispatch on the tag, and the constructed values (sequence, explicit and application
//! tags), whose content is a list of nodes.
use core::ops::Range;
use vstd::prelude::*;
use crate::bit_string::BitString;
use crate::boolean::Bool;
use crate::error::Error;
use crate::length::{length_size, push_length, read_length};
use crate::model::{
    Asn1Value, BOOL_TAG, OCTET_STRING_TAG, UTF8_STRING_TAG, SEQUENCE_TAG, BIT_STRING_TAG,
    EXPLICIT_TAG_BASE, APPLICATION_TAG_BASE, MAX_TAG_NUMBER, supported_tag, is_explicit_tag,
    is_application_tag, parse_body, parse_any, parse_children, parse_class, parse_tagged,
    length_field_size, lemma_parse_body_span, tag_of, parse_length, lemma_parse_length_prefix,
    encode_value, encode_children, lemma_encode_children_step,
};
use crate::writer::{encoded, Writer};
use crate::octet_string::OctetString;
use crate::octets::Octets;
use crate::reader::Reader;
use crate::tag::Tag;
use crate::utf8_string::Utf8String;

verus! {

broadcast use vstd::std_specs::vec::group_vec_axioms;

/// One value of the closed set, dispatched on its tag.
#[derive(Debug, PartialEq, Eq)]
pub enum Asn1Type<'a> {
    Sequence(Sequence<'a>),
    OctetString(OctetString<'a>),
    Utf8String(Utf8String<'a>),
    Bool(Bool),
    BitString(BitString<'a>),
    ExplicitTag(ExplicitTag<'a>),
    ApplicationTag(ApplicationTag<'a>),
}

pub type OwnedAsn1Type = Asn1Type<'static>;

/// An ordered list of child nodes.
#[derive(Debug, PartialEq, Eq)]
pub struct Sequence<'a> {
    fields: Vec<Asn1<'a>>,
}

pub type OwnedSequence = Sequence<'static>;

/// A context-specific tag number (at most 30) wrapping a list of nodes.
#[derive(Debug, PartialEq, Eq)]
pub struct ExplicitTag<'a> {
    tag_number: u8,
    inner: Vec<Asn1<'a>>,
}

pub type OwnedExplicitTag = ExplicitTag<'static>;

impl<'a> ExplicitTag<'a> {
    #[verifier::type_invariant]
    closed spec fn inv(&self) -> bool {
        self.tag_number <= MAX_TAG_NUMBER
    }
}

/// An application tag number (at most 30) wrapping a list of nodes.
#[derive(Debug, PartialEq, Eq)]
pub struct ApplicationTag<'a> {
    tag_number: u8,
    inner: Vec<Asn1<'a>>,
}

pub type OwnedApplicationTag = ApplicationTag<'static>;

impl<'a> ApplicationTag<'a> {
    #[verifier::type_invariant]
    closed spec fn inv(&self) -> bool {
        self.tag_number <= MAX_TAG_NUMBER
    }
}

/// A decoded value together with the bytes it was decoded from: the tag's absolute
/// offset, the absolute ranges of the length field and of the content, and all its bytes.
#[derive(Debug, PartialEq, Eq)]
pub struct Asn1<'a> {
    raw_data: Octets<'a>,
    tag: usize,
    length_start: usize,
    length_end: usize,
    data_start: usize,
    data_end: usize,
    asn1_type: Asn1Type<'a>,
}

pub type OwnedAsn1 = Asn1<'static>;

impl<'a> Asn1<'a> {
    /// The length field lies inside the node's bytes, right after the tag.
    #[verifier::type_invariant]
    closed spec fn inv(&self) -> bool {
        &&& self.length_start == self.tag + 1
        &&& self.length_start <= self.length_end
        &&& self.length_end - self.tag <= self.raw_data@.len()
    }
}

/// The value a decoded type stands for.
pub open spec fn type_value(t: Asn1Type) -> Asn1Value
    decreases t,
{
    match t {
        Asn1Type::Sequence(s) => Asn1Value::Sequence(nodes_value(s.spec_fields())),
        Asn1Type::OctetString(o) => Asn1Value::OctetString(o@),
        Asn1Type::Utf8String(u) => Asn1Value::Utf8String(u@),
        Asn1Type::Bool(b) => Asn1Value::Bool(b@),
        Asn1Type::BitString(b) => Asn1Value::BitString(b@.0, b@.1),
        Asn1Type::ExplicitTag(x) => Asn1Value::ExplicitTag(x.spec_tag_number(), nodes_value(x.spec_inner())),
        Asn1Type::ApplicationTag(x) => Asn1Value::ApplicationTag(
            x.spec_tag_number(),
            nodes_value(x.spec_inner()),
        ),
    }
}

/// The values of a list of nodes, in order.
pub open spec fn nodes_value(ns: Seq<Asn1>) -> Seq<Asn1Value>
    decreases ns,
{
    if ns.len() == 0 {
        Seq::empty()
    } else {
        nodes_value(ns.subrange(0, ns.len() - 1)).push(type_value(ns[ns.len() - 1].spec_type()))
    }
}

/// Where a node and everything below it sit in `buf`: the length field follows the tag
/// and reads as the content's size, the content follows the length field, the raw data is exactly those bytes, and the
/// children of a constructed value tile its content in order.
pub open spec fn well_placed(n: Asn1, buf: Seq<u8>) -> bool
    decreases n,
{
    &&& n.spec_length().0 == n.spec_tag() + 1
    &&& n.spec_length().0 < n.spec_length().1 == n.spec_data().0
    &&& parse_length(buf.subrange(n.spec_length().0 as int, n.spec_length().1 as int)) == Ok::<
        (nat, nat),
        Error,
    >(((n.spec_data().1 - n.spec_data().0) as nat, (n.spec_length().1 - n.spec_length().0) as nat))
    &&& n.spec_data().0 <= n.spec_data().1 <= buf.len()
    &&& n.spec_raw() == buf.subrange(n.spec_tag() as int, n.spec_data().1 as int)
    &&& match n.spec_type() {
        Asn1Type::Sequence(s) => children_placed(s.spec_fields(), n.spec_data().0, n.spec_data().1, buf),
        Asn1Type::ExplicitTag(x) => children_placed(x.spec_inner(), n.spec_data().0, n.spec_data().1, buf),
        Asn1Type::ApplicationTag(x) => children_placed(
            x.spec_inner(),
            n.spec_data().0,
            n.spec_data().1,
            buf,
        ),
        _ => true,
    }
}

/// The nodes lie one after another in `buf`, filling `[start, end)` exactly, each of
/// them well placed.
pub open spec fn children_placed(ns: Seq<Asn1>, start: nat, end: nat, buf: Seq<u8>) -> bool
    decreases ns,
{
    if ns.len() == 0 {
        start == end
    } else {
        let last = ns[ns.len() - 1];
        &&& children_placed(ns.subrange(0, ns.len() - 1), start, last.spec_tag(), buf)
        &&& well_placed(last, buf)
        &&& last.spec_data().1 == end
    }
}

/// The values of a list of nodes are the nodes' values, one for one.
pub proof fn lemma_nodes_value(ns: Seq<Asn1>)
    ensures
        nodes_value(ns).len() == ns.len(),
        forall|i: int| 0 <= i < ns.len() ==> #[trigger] nodes_value(ns)[i] == ns[i]@,
    decreases ns.len(),
{
    if ns.len() > 0 {
        let pre = ns.subrange(0, ns.len() - 1);
        lemma_nodes_value(pre);
        assert forall|i: int| 0 <= i < ns.len() implies #[trigger] nodes_value(ns)[i] == ns[i]@ by {
            if i < ns.len() - 1 {
                assert(pre[i] == ns[i]);
            }
        }
    }
}

/// Nodes placed one after another in `buf` over `[start, end)`: the first starts at
/// `start`, each ends where the next begins, the last ends at `end`, and each is well
/// placed; with no nodes, `start == end`.
pub proof fn lemma_children_placed(ns: Seq<Asn1>, start: nat, end: nat, buf: Seq<u8>)
    requires
        children_placed(ns, start, end, buf),
    ensures
        ns.len() == 0 ==> start == end,
        ns.len() > 0 ==> ns[0].spec_tag() == start && ns[ns.len() - 1].spec_data().1 == end,
        forall|i: int| 0 <= i < ns.len() - 1 ==> #[trigger] ns[i].spec_data().1 == ns[i + 1].spec_tag(),
        forall|i: int| 0 <= i < ns.len() ==> well_placed(#[trigger] ns[i], buf),
    decreases ns.len(),
{
    if ns.len() > 0 {
        let pre = ns.subrange(0, ns.len() - 1);
        let last = ns[ns.len() - 1];
        lemma_children_placed(pre, start, last.spec_tag(), buf);
        if pre.len() > 0 {
            assert(pre[0] == ns[0]);
        }
        assert forall|i: int| 0 <= i < ns.len() - 1 implies #[trigger] ns[i].spec_data().1 == ns[i
            + 1].spec_tag() by {
            assert(pre[i] == ns[i]);
            if i + 1 < pre.len() {
                assert(pre[i + 1] == ns[i + 1]);
            }
        }
        assert forall|i: int| 0 <= i < ns.len() implies well_placed(#[trigger] ns[i], buf) by {
            if i < pre.len() {
                assert(pre[i] == ns[i]);
            }
        }
    }
}

impl<'a> View for Asn1Type<'a> {
    type V = Asn1Value;

    open spec fn view(&self) -> Asn1Value {
        type_value(*self)
    }
}

impl<'a> View for Sequence<'a> {
    /// The values of the children, in order.
    type V = Seq<Asn1Value>;

    open spec fn view(&self) -> Seq<Asn1Value> {
        nodes_value(self.spec_fields())
    }
}

impl<'a> Sequence<'a> {
    /// The child nodes.
    pub closed spec fn spec_fields(&self) -> Seq<Asn1<'a>> {
        self.fields@
    }
}

impl<'a> View for ExplicitTag<'a> {
    /// The tag number and the values of the wrapped nodes.
    type V = (u8, Seq<Asn1Value>);

    open spec fn view(&self) -> (u8, Seq<Asn1Value>) {
        (self.spec_tag_number(), nodes_value(self.spec_inner()))
    }
}

impl<'a> ExplicitTag<'a> {
    pub closed spec fn spec_tag_number(&self) -> u8 {
        self.tag_number
    }

    /// The wrapped nodes.
    pub closed spec fn spec_inner(&self) -> Seq<Asn1<'a>> {
        self.inner@
    }
}

impl<'a> View for ApplicationTag<'a> {
    /// The tag number and the values of the wrapped nodes.
    type V = (u8, Seq<Asn1Value>);

    open spec fn view(&self) -> (u8, Seq<Asn1Value>) {
        (self.spec_tag_number(), nodes_value(self.spec_inner()))
    }
}

impl<'a> ApplicationTag<'a> {
    pub closed spec fn spec_tag_number(&self) -> u8 {
        self.tag_number
    }

    /// The wrapped nodes.
    pub closed spec fn spec_inner(&self) -> Seq<Asn1<'a>> {
        self.inner@
    }
}

impl<'a> View for Asn1<'a> {
    type V = Asn1Value;

    open spec fn view(&self) -> Asn1Value {
        type_value(self.spec_type())
    }
}

impl<'a> Asn1<'a> {
    pub closed spec fn spec_tag(&self) -> nat {
        self.tag as nat
    }

    pub closed spec fn spec_length(&self) -> (nat, nat) {
        (self.length_start as nat, self.length_end as nat)
    }

    pub closed spec fn spec_data(&self) -> (nat, nat) {
        (self.data_start as nat, self.data_end as nat)
    }

    pub closed spec fn spec_raw(&self) -> Seq<u8> {
        self.raw_data@
    }

    /// The decoded value's type and contents.
    pub closed spec fn spec_type(&self) -> Asn1Type<'a> {
        self.asn1_type
    }

    /// The node spans `n` bytes from offset `pos` of `buf`, where `s` is what was left
    /// to read at `pos`.
    pub open spec fn located(&self, buf: Seq<u8>, pos: nat, s: Seq<u8>, n: nat) -> bool {
        let k = length_field_size(s);
        &&& self.spec_tag() == pos
        &&& self.spec_length() == (pos + 1, pos + 1 + k)
        &&& self.spec_data() == (pos + 1 + k, pos + n)
        &&& self.spec_raw() == buf.subrange(pos as int, (pos + n) as int)
    }

    /// Absolute offset of the tag byte.
    pub fn tag_position(&self) -> (r: usize)
        ensures
            r == self.spec_tag(),
    {
        self.tag
    }

    /// Absolute range of the length field.
    pub fn length_range(&self) -> (r: Range<usize>)
        ensures
            (r.start as nat, r.end as nat) == self.spec_length(),
    {
        self.length_start..self.length_end
    }

    /// Absolute range of the content.
    pub fn data_range(&self) -> (r: Range<usize>)
        ensures
            (r.start as nat, r.end as nat) == self.spec_data(),
    {
        self.data_start..self.data_end
    }

    /// Every byte of the node, tag through content.
    pub fn raw_data(&self) -> (r: &[u8])
        ensures
            r@ == self.spec_raw(),
    {
        self.raw_data.as_slice()
    }

    /// The bytes of the length field.
    pub fn length_bytes(&self) -> (r: &[u8])
        ensures
            r@ == self.spec_raw().subrange(
                self.spec_length().0 - self.spec_tag(),
                self.spec_length().1 - self.spec_tag(),
            ),
    {
        proof {
            use_type_invariant(self);
        }
        vstd::slice::slice_subrange(
            self.raw_data.as_slice(),
            self.length_start - self.tag,
            self.length_end - self.tag,
        )
    }

    /// The decoded value.
    pub fn asn1(&self) -> (r: &Asn1Type<'a>)
        ensures
            *r == self.spec_type(),
            r@ == self@,
            self@ is Sequence <==> r is Sequence,
            self@ is OctetString <==> r is OctetString,
            self@ is Utf8String <==> r is Utf8String,
            self@ is Bool <==> r is Bool,
            self@ is BitString <==> r is BitString,
            self@ is ExplicitTag <==> r is ExplicitTag,
            self@ is ApplicationTag <==> r is ApplicationTag,
    {
        &self.asn1_type
    }
}

/// What a decoder owes: on success a node with the value and the span the model gives,
/// with the reader moved past it; on failure the model's error.
pub open spec fn decoded<'a>(
    r: Result<Asn1<'a>, Error>,
    p: Result<(Asn1Value, nat), Error>,
    before: Reader<'a>,
    after: Reader<'a>,
) -> bool {
    &&& before.moved(&after)
    &&& match p {
        Ok((v, n)) => {
            &&& r is Ok
            &&& r->Ok_0@ == v
            &&& r->Ok_0.located(before.buffer(), before.pos(), before.remaining(), n)
            &&& well_placed(r->Ok_0, before.buffer())
            &&& after.pos() == before.pos() + n
        },
        Err(e) => r == Err::<Asn1<'a>, Error>(e),
    }
}

/// A decoder that meets a tag outside `[lo, hi]` reads that one byte and nothing more.
pub open spec fn mismatch_consumes_class<'a>(lo: u8, hi: u8, before: Reader<'a>, after: Reader<'a>) -> bool {
    before.remaining().len() > 0 && !(lo <= before.remaining()[0] <= hi) ==> after.pos()
        == before.pos() + 1
}

/// A decoder that meets another type's tag reads that one byte and nothing more.
pub open spec fn mismatch_consumes_tag<'a>(tag: u8, before: Reader<'a>, after: Reader<'a>) -> bool {
    mismatch_consumes_class(tag, tag, before, after)
}

/// What a decoder from the start of a whole buffer owes.
pub open spec fn decoded_buff<'a>(
    r: Result<Asn1<'a>, Error>,
    p: Result<(Asn1Value, nat), Error>,
    buf: Seq<u8>,
) -> bool {
    match p {
        Ok((v, n)) => {
            &&& r is Ok
            &&& r->Ok_0@ == v
            &&& r->Ok_0.located(buf, 0, buf, n)
            &&& well_placed(r->Ok_0, buf)
        },
        Err(e) => r == Err::<Asn1<'a>, Error>(e),
    }
}

/// Decodes the value at the reader, whose tag is known to be supported.
fn decode_body<'a>(reader: &mut Reader<'a>) -> (r: Result<Asn1<'a>, Error>)
    requires
        old(reader).wf(),
        old(reader).remaining().len() >= 1,
        supported_tag(old(reader).remaining()[0]),
    ensures
        decoded(r, parse_body(old(reader).remaining()), *old(reader), *final(reader)),
    decreases old(reader).remaining().len(), 0nat,
{
    let ghost s = reader.remaining();
    let tag_position = reader.position();
    let tag = match reader.read_byte() {
        Ok(t) => t,
        Err(e) => return Err(e),
    };
    assert(reader.remaining() =~= s.subrange(1, s.len() as int));
    let (len, len_range) = match read_length(reader) {
        Ok(x) => x,
        Err(e) => return Err(e),
    };
    if tag == BOOL_TAG && len != 1 {
        return Err(Error::InvalidLength);
    }
    if tag == BIT_STRING_TAG && len == 0 {
        return Err(Error::InvalidLength);
    }
    let content_start = reader.position();
    let content = match reader.read_slice(len) {
        Ok(c) => c,
        Err(e) => return Err(e),
    };
    let content_end = reader.position();
    let ghost k = (content_start - tag_position - 1) as nat;
    assert(content@ =~= s.subrange(1 + k as int, 1 + k + len));
    proof {
        let a = s.subrange(1, s.len() as int);
        let b = reader.buffer().subrange(tag_position + 1, content_start as int);
        assert(b.subrange(0, k as int) =~= a.subrange(0, k as int));
        lemma_parse_length_prefix(a, b, k);
    }
    let asn1_type = if tag == BOOL_TAG {
        match Bool::from_byte(content[0]) {
            Ok(b) => Asn1Type::Bool(b),
            Err(e) => return Err(e),
        }
    } else if tag == OCTET_STRING_TAG {
        Asn1Type::OctetString(OctetString::borrowed(content))
    } else if tag == UTF8_STRING_TAG {
        match Utf8String::from_utf8(content) {
            Some(u) => Asn1Type::Utf8String(u),
            None => return Err(Error::InvalidValue),
        }
    } else if tag == BIT_STRING_TAG {
        match BitString::from_content(content) {
            Ok(b) => Asn1Type::BitString(b),
            Err(e) => return Err(e),
        }
    } else {
        let mut sub = reader.window(content_start, content_end);
        assert(sub.remaining() =~= content@);
        let nodes = match decode_nodes(&mut sub) {
            Ok(nodes) => nodes,
            Err(e) => return Err(e),
        };
        if tag == SEQUENCE_TAG {
            Asn1Type::Sequence(Sequence { fields: nodes })
        } else if tag >= EXPLICIT_TAG_BASE {
            Asn1Type::ExplicitTag(ExplicitTag { tag_number: tag - EXPLICIT_TAG_BASE, inner: nodes })
        } else {
            Asn1Type::ApplicationTag(
                ApplicationTag { tag_number: tag - APPLICATION_TAG_BASE, inner: nodes },
            )
        }
    };
    let raw_data = match reader.data_in_range(tag_position, content_end) {
        Ok(d) => d,
        Err(e) => return Err(e),
    };
    Ok(
        Asn1 {
            raw_data: Octets::Borrowed(raw_data),
            tag: tag_position,
            length_start: len_range.start,
            length_end: len_range.end,
            data_start: content_start,
            data_end: content_end,
            asn1_type,
        },
    )
}

impl<'a> Asn1Type<'a> {
    /// Decodes whatever value of the supported set comes next.
    pub fn decode_asn1(reader: &mut Reader<'a>) -> (r: Result<Asn1<'a>, Error>)
        requires
            old(reader).wf(),
        ensures
            decoded(r, parse_any(old(reader).remaining()), *old(reader), *final(reader)),
        decreases old(reader).remaining().len(), 1nat,
    {
        match reader.peek_byte() {
            None => Err(Error::BufferUnderrun),
            Some(t) => {
                if t == BOOL_TAG || t == OCTET_STRING_TAG || t == UTF8_STRING_TAG || t == SEQUENCE_TAG
                    || t == BIT_STRING_TAG || (EXPLICIT_TAG_BASE <= t && t <= EXPLICIT_TAG_BASE
                    + MAX_TAG_NUMBER) || (APPLICATION_TAG_BASE <= t && t <= APPLICATION_TAG_BASE
                    + MAX_TAG_NUMBER) {
                    decode_body(reader)
                } else {
                    Err(Error::UnsupportedTag)
                }
            },
        }
    }

    pub fn tag(&self) -> (r: Tag)
        ensures
            r.0 == tag_of(self@),
            supported_tag(r.0),
    {
        match self {
            Asn1Type::Sequence(_) => Tag(SEQUENCE_TAG),
            Asn1Type::OctetString(_) => Tag(OCTET_STRING_TAG),
            Asn1Type::Utf8String(_) => Tag(UTF8_STRING_TAG),
            Asn1Type::Bool(_) => Tag(BOOL_TAG),
            Asn1Type::BitString(_) => Tag(BIT_STRING_TAG),
            Asn1Type::ExplicitTag(t) => {
                proof {
                    use_type_invariant(t);
                }
                Tag(EXPLICIT_TAG_BASE + t.tag_number)
            },
            Asn1Type::ApplicationTag(t) => {
                proof {
                    use_type_invariant(t);
                }
                Tag(APPLICATION_TAG_BASE + t.tag_number)
            },
        }
    }
}

/// Decodes the nodes that fill the reader's window, one after another.
fn decode_nodes<'a>(reader: &mut Reader<'a>) -> (r: Result<Vec<Asn1<'a>>, Error>)
    requires
        old(reader).wf(),
    ensures
        old(reader).moved(final(reader)),
        match parse_children(old(reader).remaining()) {
            Ok(cs) => {
                &&& r is Ok
                &&& nodes_value(r->Ok_0@) == cs
                &&& children_placed(
                    r->Ok_0@,
                    old(reader).pos(),
                    old(reader).limit(),
                    old(reader).buffer(),
                )
            },
            Err(e) => r == Err::<Vec<Asn1<'a>>, Error>(e),
        },
    decreases old(reader).remaining().len(), 2nat,
{
    let ghost s0 = reader.remaining();
    let mut fields: Vec<Asn1<'a>> = Vec::new();
    while !reader.is_empty()
        invariant
            old(reader).moved(reader),
            reader.remaining().len() <= s0.len(),
            children_placed(fields@, old(reader).pos(), reader.pos(), reader.buffer()),
            s0 == old(reader).remaining(),
            parse_children(s0) == match parse_children(reader.remaining()) {
                Ok(cs) => Ok(nodes_value(fields@) + cs),
                Err(e) => Err::<Seq<Asn1Value>, Error>(e),
            },
        decreases reader.remaining().len(),
    {
        let ghost s = reader.remaining();
        let child = match Asn1Type::decode_asn1(reader) {
            Ok(c) => c,
            Err(Error::BufferUnderrun) => return Err(Error::MalformedContainer),
            Err(e) => return Err(e),
        };
        proof {
            lemma_parse_body_span(s);
            let n = parse_any(s)->Ok_0.1;
            assert(reader.remaining() =~= s.subrange(n as int, s.len() as int));
            let old_fields = fields@;
            assert(old_fields.push(child).subrange(0, old_fields.len() as int) =~= old_fields);
            assert(children_placed(old_fields.push(child), old(reader).pos(), reader.pos(), reader.buffer()));
            assert(nodes_value(old_fields.push(child)) == nodes_value(old_fields).push(child@));
            match parse_children(reader.remaining()) {
                Ok(cs) => {
                    assert(nodes_value(old_fields) + (seq![child@] + cs) =~= nodes_value(
                        old_fields,
                    ).push(child@) + cs);
                },
                Err(_) => {},
            }
        }
        fields.push(child);
    }
    assert(nodes_value(fields@) + Seq::<Asn1Value>::empty() =~= nodes_value(fields@));
    Ok(fields)
}

impl<'a> Sequence<'a> {
    /// Decodes a sequence with provenance.
    pub fn decode_asn1(reader: &mut Reader<'a>) -> (r: Result<Asn1<'a>, Error>)
        requires
            old(reader).wf(),
        ensures
            decoded(r, parse_tagged(SEQUENCE_TAG, old(reader).remaining()), *old(reader), *final(reader)),
            mismatch_consumes_tag(SEQUENCE_TAG, *old(reader), *final(reader)),
    {
        decode_tagged(reader, SEQUENCE_TAG, SEQUENCE_TAG)
    }

    /// Decodes a sequence with provenance from the start of `buf`.
    pub fn decode_asn1_buff(buf: &'a [u8]) -> (r: Result<Asn1<'a>, Error>)
        ensures
            decoded_buff(r, parse_tagged(SEQUENCE_TAG, buf@), buf@),
    {
        let mut reader = Reader::new(buf);
        assert(reader.remaining() =~= buf@);
        Sequence::decode_asn1(&mut reader)
    }
}

/// Decodes a value whose tag must lie in `[lo, hi]`.
fn decode_tagged<'a>(reader: &mut Reader<'a>, lo: u8, hi: u8) -> (r: Result<Asn1<'a>, Error>)
    requires
        old(reader).wf(),
        forall|t: u8| lo <= t <= hi ==> supported_tag(t),
    ensures
        decoded(r, parse_class(lo, hi, old(reader).remaining()), *old(reader), *final(reader)),
        mismatch_consumes_class(lo, hi, *old(reader), *final(reader)),
{
    match reader.peek_byte() {
        None => Err(Error::BufferUnderrun),
        Some(t) => {
            if t < lo || t > hi {
                let _ = reader.read_byte();
                Err(Error::TagMismatch)
            } else {
                decode_body(reader)
            }
        },
    }
}

/// Bytes of the encodings of the nodes together.
fn nodes_size<'a>(nodes: &Vec<Asn1<'a>>) -> (r: usize)
    requires
        encode_children(nodes_value(nodes@)).len() <= usize::MAX,
    ensures
        r == encode_children(nodes_value(nodes@)).len(),
    decreases nodes,
{
    let ghost cs = nodes_value(nodes@);
    proof {
        lemma_nodes_value(nodes@);
    }
    let mut sum: usize = 0;
    let mut i: usize = 0;
    while i < nodes.len()
        invariant
            cs == nodes_value(nodes@),
            cs.len() == nodes@.len(),
            forall|j: int| 0 <= j < cs.len() ==> cs[j] == #[trigger] nodes@[j]@,
            i <= cs.len(),
            sum == encode_children(cs.subrange(0, i as int)).len(),
            encode_children(cs).len() <= usize::MAX,
        decreases cs.len() - i,
    {
        proof {
            lemma_encode_children_step(cs, i as int);
        }
        assert(cs[i as int] == nodes@[i as int]@);
        assert(nodes@[i as int]@ == nodes@[i as int].asn1_type@);
        let size = nodes[i].asn1_type.needed_buf_size();
        sum = sum + size;
        i = i + 1;
    }
    assert(cs.subrange(0, i as int) =~= cs);
    sum
}

/// Writes the encodings of the nodes, which are known to fit.
fn write_nodes<'a>(nodes: &Vec<Asn1<'a>>, w: &mut Writer)
    requires
        old(w).wf(),
        old(w).room() >= encode_children(nodes_value(nodes@)).len(),
    ensures
        final(w).wf(),
        final(w).cap() == old(w).cap(),
        final(w)@ == old(w)@ + encode_children(nodes_value(nodes@)),
    decreases nodes,
{
    let ghost cs = nodes_value(nodes@);
    proof {
        lemma_nodes_value(nodes@);
    }
    let mut i: usize = 0;
    while i < nodes.len()
        invariant
            cs == nodes_value(nodes@),
            cs.len() == nodes@.len(),
            forall|j: int| 0 <= j < cs.len() ==> cs[j] == #[trigger] nodes@[j]@,
            i <= cs.len(),
            w.wf(),
            w.cap() == old(w).cap(),
            w@ == old(w)@ + encode_children(cs.subrange(0, i as int)),
            old(w).room() >= encode_children(cs).len(),
        decreases cs.len() - i,
    {
        proof {
            lemma_encode_children_step(cs, i as int);
        }
        assert(cs[i as int] == nodes@[i as int]@);
        assert(nodes@[i as int]@ == nodes@[i as int].asn1_type@);
        nodes[i].asn1_type.write_to(w);
        i = i + 1;
        assert(w@ =~= old(w)@ + encode_children(cs.subrange(0, i as int)));
    }
    assert(cs.subrange(0, i as int) =~= cs);
}

impl<'a> Sequence<'a> {
    pub fn new(fields: Vec<Asn1<'a>>) -> (r: Sequence<'a>)
        ensures
            r.spec_fields() == fields@,
            r@ == nodes_value(fields@),
            r@.len() == fields@.len(),
            forall|i: int| 0 <= i < fields@.len() ==> #[trigger] r@[i] == fields@[i]@,
    {
        proof {
            lemma_nodes_value(fields@);
        }
        Sequence { fields }
    }

    /// The child nodes in order.
    pub fn fields(&self) -> (r: &[Asn1<'a>])
        ensures
            r@ == self.spec_fields(),
            nodes_value(r@) == self@,
            r@.len() == self@.len(),
            forall|i: int| 0 <= i < r@.len() ==> #[trigger] r@[i]@ == self@[i],
    {
        proof {
            lemma_nodes_value(self.fields@);
        }
        self.fields.as_slice()
    }

    /// Bytes that `encode` writes: tag, length field and every child.
    pub fn needed_buf_size(&self) -> (r: usize)
        requires
            encode_value(Asn1Value::Sequence(self@)).len() <= usize::MAX,
        ensures
            r == encode_value(Asn1Value::Sequence(self@)).len(),
    {
        let n = nodes_size(&self.fields);
        1 + length_size(n) + n
    }

    /// Writes the encoding, which is known to fit.
    pub(crate) fn write_to(&self, w: &mut Writer)
        requires
            old(w).wf(),
            old(w).room() >= encode_value(Asn1Value::Sequence(self@)).len(),
            encode_value(Asn1Value::Sequence(self@)).len() <= usize::MAX,
        ensures
            final(w).wf(),
            final(w).cap() == old(w).cap(),
            final(w)@ == old(w)@ + encode_value(Asn1Value::Sequence(self@)),
    {
        let n = nodes_size(&self.fields);
        w.push(SEQUENCE_TAG);
        push_length(n, w);
        write_nodes(&self.fields, w);
        assert(final(w)@ =~= old(w)@ + encode_value(Asn1Value::Sequence(self@)));
    }

    /// Writes tag, length field, then each child in order.
    pub fn encode(&self, w: &mut Writer) -> (r: Result<(), Error>)
        requires
            old(w).wf(),
            encode_value(Asn1Value::Sequence(self@)).len() <= usize::MAX,
        ensures
            encoded(r, encode_value(Asn1Value::Sequence(self@)), *old(w), *final(w)),
    {
        if self.needed_buf_size() > w.remaining() {
            return Err(Error::BufferOverflow);
        }
        self.write_to(w);
        Ok(())
    }

    pub fn tag(&self) -> (r: Tag)
        ensures
            r.0 == SEQUENCE_TAG,
    {
        Tag(SEQUENCE_TAG)
    }

    /// Whether `tag` is the sequence's tag.
    pub fn compare_tags(tag: &Tag) -> (r: bool)
        ensures
            r == (tag.0 == SEQUENCE_TAG),
    {
        tag.0 == SEQUENCE_TAG
    }
}

impl<'a> Asn1Type<'a> {
    /// Bytes that `encode` writes.
    pub fn needed_buf_size(&self) -> (r: usize)
        requires
            encode_value(self@).len() <= usize::MAX,
        ensures
            r == encode_value(self@).len(),
        decreases self,
    {
        match self {
            Asn1Type::Sequence(s) => {
                let n = nodes_size(&s.fields);
                1 + length_size(n) + n
            },
            Asn1Type::ExplicitTag(t) => {
                let n = nodes_size(&t.inner);
                1 + length_size(n) + n
            },
            Asn1Type::ApplicationTag(t) => {
                let n = nodes_size(&t.inner);
                1 + length_size(n) + n
            },
            Asn1Type::BitString(b) => b.needed_buf_size(),
            Asn1Type::OctetString(o) => o.needed_buf_size(),
            Asn1Type::Utf8String(u) => u.needed_buf_size(),
            Asn1Type::Bool(b) => b.needed_buf_size(),
        }
    }

    /// Writes the encoding, which is known to fit.
    pub(crate) fn write_to(&self, w: &mut Writer)
        requires
            old(w).wf(),
            old(w).room() >= encode_value(self@).len(),
        ensures
            final(w).wf(),
            final(w).cap() == old(w).cap(),
            final(w)@ == old(w)@ + encode_value(self@),
        decreases self,
    {
        match self {
            Asn1Type::Sequence(s) => {
                let n = nodes_size(&s.fields);
                w.push(SEQUENCE_TAG);
                push_length(n, w);
                write_nodes(&s.fields, w);
                assert(final(w)@ =~= old(w)@ + encode_value(self@));
            },
            Asn1Type::ExplicitTag(t) => {
                proof {
                    use_type_invariant(t);
                }
                let n = nodes_size(&t.inner);
                w.push(EXPLICIT_TAG_BASE + t.tag_number);
                push_length(n, w);
                write_nodes(&t.inner, w);
                assert(final(w)@ =~= old(w)@ + encode_value(self@));
            },
            Asn1Type::ApplicationTag(t) => {
                proof {
                    use_type_invariant(t);
                }
                let n = nodes_size(&t.inner);
                w.push(APPLICATION_TAG_BASE + t.tag_number);
                push_length(n, w);
                write_nodes(&t.inner, w);
                assert(final(w)@ =~= old(w)@ + encode_value(self@));
            },
            Asn1Type::BitString(b) => b.write_to(w),
            Asn1Type::OctetString(o) => o.write_to(w),
            Asn1Type::Utf8String(u) => u.write_to(w),
            Asn1Type::Bool(b) => b.write_to(w),
        }
    }

    /// Writes the encoding, or fails with `BufferOverflow` where it does not fit.
    pub fn encode(&self, w: &mut Writer) -> (r: Result<(), Error>)
        requires
            old(w).wf(),
            encode_value(self@).len() <= usize::MAX,
        ensures
            encoded(r, encode_value(self@), *old(w), *final(w)),
    {
        if self.needed_buf_size() > w.remaining() {
            return Err(Error::BufferOverflow);
        }
        self.write_to(w);
        Ok(())
    }

    /// The encoding as a new vector of exactly its size.
    pub fn encode_to_vec(&self) -> (r: Vec<u8>)
        requires
            encode_value(self@).len() <= usize::MAX,
        ensures
            r@ == encode_value(self@),
    {
        let mut w = Writer::with_capacity(self.needed_buf_size());
        self.write_to(&mut w);
        w.into_bytes()
    }

    /// Writes the encoding at the front of `buf`, leaving the rest of it as it was, or
    /// fails with `BufferOverflow` where `buf` is too short.
    pub fn encode_buff(&self, buf: &mut [u8]) -> (r: Result<(), Error>)
        requires
            encode_value(self@).len() <= usize::MAX,
        ensures
            encode_value(self@).len() <= old(buf)@.len() ==> r is Ok && final(buf)@ == encode_value(
                self@,
            ) + old(buf)@.subrange(encode_value(self@).len() as int, old(buf)@.len() as int),
            encode_value(self@).len() > old(buf)@.len() ==> r == Err::<(), Error>(
                Error::BufferOverflow,
            ) && final(buf)@ == old(buf)@,
    {
        let n = self.needed_buf_size();
        if n > buf.len() {
            return Err(Error::BufferOverflow);
        }
        let bytes = self.encode_to_vec();
        let mut i: usize = 0;
        while i < n
            invariant
                n == bytes@.len(),
                n <= buf@.len(),
                buf@.len() == old(buf)@.len(),
                i <= n,
                forall|j: int| 0 <= j < i ==> buf@[j] == bytes@[j],
                forall|j: int| n <= j < buf@.len() ==> buf@[j] == old(buf)@[j],
            decreases n - i,
        {
            buf[i] = bytes[i];
            i = i + 1;
        }
        assert(buf@ =~= bytes@ + old(buf)@.subrange(n as int, old(buf)@.len() as int));
        Ok(())
    }
}

impl<'a> Bool {
    /// Decodes one value of this type with provenance.
    pub fn decode_asn1(reader: &mut Reader<'a>) -> (r: Result<Asn1<'a>, Error>)
        requires
            old(reader).wf(),
        ensures
            decoded(r, parse_tagged(BOOL_TAG, old(reader).remaining()), *old(reader), *final(reader)),
            mismatch_consumes_tag(BOOL_TAG, *old(reader), *final(reader)),
    {
        decode_tagged(reader, BOOL_TAG, BOOL_TAG)
    }

    /// Decodes one value of this type, without provenance.
    pub fn decode(reader: &mut Reader<'a>) -> (r: Result<Bool, Error>)
        requires
            old(reader).wf(),
        ensures
            old(reader).moved(final(reader)),
            mismatch_consumes_tag(BOOL_TAG, *old(reader), *final(reader)),
            match parse_tagged(BOOL_TAG, old(reader).remaining()) {
                Ok((v, n)) => r is Ok && v == Asn1Value::Bool(r->Ok_0@) && final(reader).pos()
                    == old(reader).pos() + n,
                Err(e) => r == Err::<Bool, Error>(e),
            },
    {
        match decode_tagged(reader, BOOL_TAG, BOOL_TAG) {
            Ok(node) => match node.asn1_type {
                Asn1Type::Bool(x) => Ok(x),
                _ => Err(Error::InvalidValue),
            },
            Err(e) => Err(e),
        }
    }

    /// Decodes one value of this type with provenance from the start of `buf`.
    pub fn decode_asn1_buff(buf: &'a [u8]) -> (r: Result<Asn1<'a>, Error>)
        ensures
            decoded_buff(r, parse_tagged(BOOL_TAG, buf@), buf@),
    {
        let mut reader = Reader::new(buf);
        assert(reader.remaining() =~= buf@);
        Bool::decode_asn1(&mut reader)
    }
}

impl<'a> OctetString<'a> {
    /// Decodes one value of this type with provenance.
    pub fn decode_asn1(reader: &mut Reader<'a>) -> (r: Result<Asn1<'a>, Error>)
        requires
            old(reader).wf(),
        ensures
            decoded(r, parse_tagged(OCTET_STRING_TAG, old(reader).remaining()), *old(reader), *final(reader)),
            mismatch_consumes_tag(OCTET_STRING_TAG, *old(reader), *final(reader)),
    {
        decode_tagged(reader, OCTET_STRING_TAG, OCTET_STRING_TAG)
    }

    /// Decodes one value of this type, without provenance.
    pub fn decode(reader: &mut Reader<'a>) -> (r: Result<OctetString<'a>, Error>)
        requires
            old(reader).wf(),
        ensures
            old(reader).moved(final(reader)),
            mismatch_consumes_tag(OCTET_STRING_TAG, *old(reader), *final(reader)),
            match parse_tagged(OCTET_STRING_TAG, old(reader).remaining()) {
                Ok((v, n)) => r is Ok && v == Asn1Value::OctetString(r->Ok_0@) && final(reader).pos()
                    == old(reader).pos() + n,
                Err(e) => r == Err::<OctetString<'a>, Error>(e),
            },
    {
        match decode_tagged(reader, OCTET_STRING_TAG, OCTET_STRING_TAG) {
            Ok(node) => match node.asn1_type {
                Asn1Type::OctetString(x) => Ok(x),
                _ => Err(Error::InvalidValue),
            },
            Err(e) => Err(e),
        }
    }

    /// Decodes one value of this type with provenance from the start of `buf`.
    pub fn decode_asn1_buff(buf: &'a [u8]) -> (r: Result<Asn1<'a>, Error>)
        ensures
            decoded_buff(r, parse_tagged(OCTET_STRING_TAG, buf@), buf@),
    {
        let mut reader = Reader::new(buf);
        assert(reader.remaining() =~= buf@);
        OctetString::decode_asn1(&mut reader)
    }
}

impl<'a> Utf8String<'a> {
    /// Decodes one value of this type with provenance.
    pub fn decode_asn1(reader: &mut Reader<'a>) -> (r: Result<Asn1<'a>, Error>)
        requires
            old(reader).wf(),
        ensures
            decoded(r, parse_tagged(UTF8_STRING_TAG, old(reader).remaining()), *old(reader), *final(reader)),
            mismatch_consumes_tag(UTF8_STRING_TAG, *old(reader), *final(reader)),
    {
        decode_tagged(reader, UTF8_STRING_TAG, UTF8_STRING_TAG)
    }

    /// Decodes one value of this type, without provenance.
    pub fn decode(reader: &mut Reader<'a>) -> (r: Result<Utf8String<'a>, Error>)
        requires
            old(reader).wf(),
        ensures
            old(reader).moved(final(reader)),
            mismatch_consumes_tag(UTF8_STRING_TAG, *old(reader), *final(reader)),
            match parse_tagged(UTF8_STRING_TAG, old(reader).remaining()) {
                Ok((v, n)) => r is Ok && v == Asn1Value::Utf8String(r->Ok_0@) && final(reader).pos()
                    == old(reader).pos() + n,
                Err(e) => r == Err::<Utf8String<'a>, Error>(e),
            },
    {
        match decode_tagged(reader, UTF8_STRING_TAG, UTF8_STRING_TAG) {
            Ok(node) => match node.asn1_type {
                Asn1Type::Utf8String(x) => Ok(x),
                _ => Err(Error::InvalidValue),
            },
            Err(e) => Err(e),
        }
    }

    /// Decodes one value of this type with provenance from the start of `buf`.
    pub fn decode_asn1_buff(buf: &'a [u8]) -> (r: Result<Asn1<'a>, Error>)
        ensures
            decoded_buff(r, parse_tagged(UTF8_STRING_TAG, buf@), buf@),
    {
        let mut reader = Reader::new(buf);
        assert(reader.remaining() =~= buf@);
        Utf8String::decode_asn1(&mut reader)
    }
}

impl<'a> Sequence<'a> {
    /// Decodes a sequence without provenance of its own.
    pub fn decode(reader: &mut Reader<'a>) -> (r: Result<Sequence<'a>, Error>)
        requires
            old(reader).wf(),
        ensures
            old(reader).moved(final(reader)),
            mismatch_consumes_tag(SEQUENCE_TAG, *old(reader), *final(reader)),
            match parse_tagged(SEQUENCE_TAG, old(reader).remaining()) {
                Ok((v, n)) => r is Ok && v == Asn1Value::Sequence(r->Ok_0@) && final(reader).pos()
                    == old(reader).pos() + n,
                Err(e) => r == Err::<Sequence<'a>, Error>(e),
            },
    {
        match decode_tagged(reader, SEQUENCE_TAG, SEQUENCE_TAG) {
            Ok(node) => match node.asn1_type {
                Asn1Type::Sequence(x) => Ok(x),
                _ => Err(Error::InvalidValue),
            },
            Err(e) => Err(e),
        }
    }
}

impl<'a> BitString<'a> {
    /// Decodes one value of this type, with provenance.
    pub fn decode_asn1(reader: &mut Reader<'a>) -> (r: Result<Asn1<'a>, Error>)
        requires
            old(reader).wf(),
        ensures
            decoded(r, parse_class(BIT_STRING_TAG, BIT_STRING_TAG, old(reader).remaining()), *old(reader), *final(reader)),
            mismatch_consumes_class(BIT_STRING_TAG, BIT_STRING_TAG, *old(reader), *final(reader)),
    {
        decode_tagged(reader, BIT_STRING_TAG, BIT_STRING_TAG)
    }

    /// Decodes one value of this type, without provenance of its own.
    pub fn decode(reader: &mut Reader<'a>) -> (r: Result<BitString<'a>, Error>)
        requires
            old(reader).wf(),
        ensures
            old(reader).moved(final(reader)),
            mismatch_consumes_class(BIT_STRING_TAG, BIT_STRING_TAG, *old(reader), *final(reader)),
            match parse_class(BIT_STRING_TAG, BIT_STRING_TAG, old(reader).remaining()) {
                Ok((v, n)) => r is Ok && v == Asn1Value::BitString(r->Ok_0@.0, r->Ok_0@.1) && final(reader).pos() == old(reader).pos() + n,
                Err(e) => r == Err::<BitString<'a>, Error>(e),
            },
    {
        match decode_tagged(reader, BIT_STRING_TAG, BIT_STRING_TAG) {
            Ok(node) => match node.asn1_type {
                Asn1Type::BitString(x) => Ok(x),
                _ => Err(Error::InvalidValue),
            },
            Err(e) => Err(e),
        }
    }

    /// Decodes one value of this type, with provenance, from the start of `buf`.
    pub fn decode_asn1_buff(buf: &'a [u8]) -> (r: Result<Asn1<'a>, Error>)
        ensures
            decoded_buff(r, parse_class(BIT_STRING_TAG, BIT_STRING_TAG, buf@), buf@),
    {
        let mut reader = Reader::new(buf);
        assert(reader.remaining() =~= buf@);
        BitString::decode_asn1(&mut reader)
    }
}

impl<'a> ExplicitTag<'a> {
    /// Decodes one value of this class, whatever its tag number, with provenance.
    pub fn decode_asn1(reader: &mut Reader<'a>) -> (r: Result<Asn1<'a>, Error>)
        requires
            old(reader).wf(),
        ensures
            decoded(r, parse_class(EXPLICIT_TAG_BASE, (EXPLICIT_TAG_BASE + MAX_TAG_NUMBER) as u8, old(reader).remaining()), *old(reader), *final(reader)),
            mismatch_consumes_class(EXPLICIT_TAG_BASE, (EXPLICIT_TAG_BASE + MAX_TAG_NUMBER) as u8, *old(reader), *final(reader)),
    {
        decode_tagged(reader, EXPLICIT_TAG_BASE, EXPLICIT_TAG_BASE + MAX_TAG_NUMBER)
    }

    /// Decodes one value of this class, whatever its tag number, without provenance of its own.
    pub fn decode(reader: &mut Reader<'a>) -> (r: Result<ExplicitTag<'a>, Error>)
        requires
            old(reader).wf(),
        ensures
            old(reader).moved(final(reader)),
            mismatch_consumes_class(EXPLICIT_TAG_BASE, (EXPLICIT_TAG_BASE + MAX_TAG_NUMBER) as u8, *old(reader), *final(reader)),
            match parse_class(EXPLICIT_TAG_BASE, (EXPLICIT_TAG_BASE + MAX_TAG_NUMBER) as u8, old(reader).remaining()) {
                Ok((v, n)) => r is Ok && v == Asn1Value::ExplicitTag(r->Ok_0@.0, r->Ok_0@.1) && final(reader).pos() == old(reader).pos() + n,
                Err(e) => r == Err::<ExplicitTag<'a>, Error>(e),
            },
    {
        match decode_tagged(reader, EXPLICIT_TAG_BASE, EXPLICIT_TAG_BASE + MAX_TAG_NUMBER) {
            Ok(node) => match node.asn1_type {
                Asn1Type::ExplicitTag(x) => Ok(x),
                _ => Err(Error::InvalidValue),
            },
            Err(e) => Err(e),
        }
    }

    /// Decodes one value of this class, whatever its tag number, with provenance, from the start of `buf`.
    pub fn decode_asn1_buff(buf: &'a [u8]) -> (r: Result<Asn1<'a>, Error>)
        ensures
            decoded_buff(r, parse_class(EXPLICIT_TAG_BASE, (EXPLICIT_TAG_BASE + MAX_TAG_NUMBER) as u8, buf@), buf@),
    {
        let mut reader = Reader::new(buf);
        assert(reader.remaining() =~= buf@);
        ExplicitTag::decode_asn1(&mut reader)
    }
}

impl<'a> ApplicationTag<'a> {
    /// Decodes one value of this class, whatever its tag number, with provenance.
    pub fn decode_asn1(reader: &mut Reader<'a>) -> (r: Result<Asn1<'a>, Error>)
        requires
            old(reader).wf(),
        ensures
            decoded(r, parse_class(APPLICATION_TAG_BASE, (APPLICATION_TAG_BASE + MAX_TAG_NUMBER) as u8, old(reader).remaining()), *old(reader), *final(reader)),
            mismatch_consumes_class(APPLICATION_TAG_BASE, (APPLICATION_TAG_BASE + MAX_TAG_NUMBER) as u8, *old(reader), *final(reader)),
    {
        decode_tagged(reader, APPLICATION_TAG_BASE, APPLICATION_TAG_BASE + MAX_TAG_NUMBER)
    }

    /// Decodes one value of this class, whatever its tag number, without provenance of its own.
    pub fn decode(reader: &mut Reader<'a>) -> (r: Result<ApplicationTag<'a>, Error>)
        requires
            old(reader).wf(),
        ensures
            old(reader).moved(final(reader)),
            mismatch_consumes_class(APPLICATION_TAG_BASE, (APPLICATION_TAG_BASE + MAX_TAG_NUMBER) as u8, *old(reader), *final(reader)),
            match parse_class(APPLICATION_TAG_BASE, (APPLICATION_TAG_BASE + MAX_TAG_NUMBER) as u8, old(reader).remaining()) {
                Ok((v, n)) => r is Ok && v == Asn1Value::ApplicationTag(r->Ok_0@.0, r->Ok_0@.1) && final(reader).pos() == old(reader).pos() + n,
                Err(e) => r == Err::<ApplicationTag<'a>, Error>(e),
            },
    {
        match decode_tagged(reader, APPLICATION_TAG_BASE, APPLICATION_TAG_BASE + MAX_TAG_NUMBER) {
            Ok(node) => match node.asn1_type {
                Asn1Type::ApplicationTag(x) => Ok(x),
                _ => Err(Error::InvalidValue),
            },
            Err(e) => Err(e),
        }
    }

    /// Decodes one value of this class, whatever its tag number, with provenance, from the start of `buf`.
    pub fn decode_asn1_buff(buf: &'a [u8]) -> (r: Result<Asn1<'a>, Error>)
        ensures
            decoded_buff(r, parse_class(APPLICATION_TAG_BASE, (APPLICATION_TAG_BASE + MAX_TAG_NUMBER) as u8, buf@), buf@),
    {
        let mut reader = Reader::new(buf);
        assert(reader.remaining() =~= buf@);
        ApplicationTag::decode_asn1(&mut reader)
    }
}

impl<'a> ExplicitTag<'a> {
    /// Wraps `inner` under context-specific tag number `tag_number`, which must be at most 30.
    pub fn new(tag_number: u8, inner: Vec<Asn1<'a>>) -> (r: Result<ExplicitTag<'a>, Error>)
        ensures
            tag_number <= MAX_TAG_NUMBER ==> r is Ok && r->Ok_0@ == (tag_number, nodes_value(inner@))
                && r->Ok_0.spec_inner() == inner@,
            tag_number <= MAX_TAG_NUMBER ==> r->Ok_0@.1.len() == inner@.len(),
            tag_number <= MAX_TAG_NUMBER ==> forall|i: int| 0 <= i < inner@.len() ==> #[trigger] r->Ok_0@.1[i] == inner@[i]@,
            tag_number > MAX_TAG_NUMBER ==> r == Err::<ExplicitTag<'a>, Error>(Error::UnsupportedTag),
    {
        proof {
            lemma_nodes_value(inner@);
        }
        if tag_number > MAX_TAG_NUMBER {
            return Err(Error::UnsupportedTag);
        }
        Ok(ExplicitTag { tag_number, inner })
    }

    pub fn tag_number(&self) -> (r: u8)
        ensures
            r == self@.0,
            r <= MAX_TAG_NUMBER,
    {
        proof {
            use_type_invariant(self);
        }
        self.tag_number
    }

    /// The wrapped nodes in order.
    pub fn inner(&self) -> (r: &[Asn1<'a>])
        ensures
            r@ == self.spec_inner(),
            nodes_value(r@) == self@.1,
            r@.len() == self@.1.len(),
            forall|i: int| 0 <= i < r@.len() ==> #[trigger] r@[i]@ == self@.1[i],
    {
        proof {
            lemma_nodes_value(self.inner@);
        }
        self.inner.as_slice()
    }

    pub fn tag(&self) -> (r: Tag)
        ensures
            r.0 == EXPLICIT_TAG_BASE + self@.0,
    {
        proof {
            use_type_invariant(self);
        }
        Tag(EXPLICIT_TAG_BASE + self.tag_number)
    }

    /// Whether `tag` belongs to this class.
    pub fn compare_tags(tag: &Tag) -> (r: bool)
        ensures
            r == (EXPLICIT_TAG_BASE <= tag.0 <= EXPLICIT_TAG_BASE + MAX_TAG_NUMBER),
    {
        EXPLICIT_TAG_BASE <= tag.0 && tag.0 <= EXPLICIT_TAG_BASE + MAX_TAG_NUMBER
    }
}

impl<'a> ApplicationTag<'a> {
    /// Wraps `inner` under application tag number `tag_number`, which must be at most 30.
    pub fn new(tag_number: u8, inner: Vec<Asn1<'a>>) -> (r: Result<ApplicationTag<'a>, Error>)
        ensures
            tag_number <= MAX_TAG_NUMBER ==> r is Ok && r->Ok_0@ == (tag_number, nodes_value(inner@))
                && r->Ok_0.spec_inner() == inner@,
            tag_number <= MAX_TAG_NUMBER ==> r->Ok_0@.1.len() == inner@.len(),
            tag_number <= MAX_TAG_NUMBER ==> forall|i: int| 0 <= i < inner@.len() ==> #[trigger] r->Ok_0@.1[i] == inner@[i]@,
            tag_number > MAX_TAG_NUMBER ==> r == Err::<ApplicationTag<'a>, Error>(Error::UnsupportedTag),
    {
        proof {
            lemma_nodes_value(inner@);
        }
        if tag_number > MAX_TAG_NUMBER {
            return Err(Error::UnsupportedTag);
        }
        Ok(ApplicationTag { tag_number, inner })
    }

    pub fn tag_number(&self) -> (r: u8)
        ensures
            r == self@.0,
            r <= MAX_TAG_NUMBER,
    {
        proof {
            use_type_invariant(self);
        }
        self.tag_number
    }

    /// The wrapped nodes in order.
    pub fn inner(&self) -> (r: &[Asn1<'a>])
        ensures
            r@ == self.spec_inner(),
            nodes_value(r@) == self@.1,
            r@.len() == self@.1.len(),
            forall|i: int| 0 <= i < r@.len() ==> #[trigger] r@[i]@ == self@.1[i],
    {
        proof {
            lemma_nodes_value(self.inner@);
        }
        self.inner.as_slice()
    }

    pub fn tag(&self) -> (r: Tag)
        ensures
            r.0 == APPLICATION_TAG_BASE + self@.0,
    {
        proof {
            use_type_invariant(self);
        }
        Tag(APPLICATION_TAG_BASE + self.tag_number)
    }

    /// Whether `tag` belongs to this class.
    pub fn compare_tags(tag: &Tag) -> (r: bool)
        ensures
            r == (APPLICATION_TAG_BASE <= tag.0 <= APPLICATION_TAG_BASE + MAX_TAG_NUMBER),
    {
        APPLICATION_TAG_BASE <= tag.0 && tag.0 <= APPLICATION_TAG_BASE + MAX_TAG_NUMBER
    }
}

/// Copies of the nodes that borrow nothing, in the same order.
fn owned_nodes<'a>(nodes: &Vec<Asn1<'a>>) -> (r: Vec<OwnedAsn1>)
    ensures
        nodes_value(r@) == nodes_value(nodes@),
    decreases nodes,
{
    let mut out: Vec<OwnedAsn1> = Vec::new();
    let mut i: usize = 0;
    while i < nodes.len()
        invariant
            i <= nodes@.len(),
            nodes_value(out@) == nodes_value(nodes@.subrange(0, i as int)),
        decreases nodes@.len() - i,
    {
        let copy = nodes[i].to_owned_node();
        proof {
            let before = out@;
            assert(before.push(copy).subrange(0, before.len() as int) =~= before);
            assert(nodes@.subrange(0, i + 1).subrange(0, i as int) =~= nodes@.subrange(0, i as int));
        }
        out.push(copy);
        i = i + 1;
    }
    assert(nodes@.subrange(0, i as int) =~= nodes@);
    out
}

impl<'a> Asn1Type<'a> {
    /// A deep copy that no longer borrows from the input.
    pub fn to_owned_type(&self) -> (r: OwnedAsn1Type)
        ensures
            r@ == self@,
        decreases self,
    {
        match self {
            Asn1Type::Sequence(s) => Asn1Type::Sequence(Sequence { fields: owned_nodes(&s.fields) }),
            Asn1Type::OctetString(o) => Asn1Type::OctetString(o.to_owned_string()),
            Asn1Type::Utf8String(u) => Asn1Type::Utf8String(u.to_owned_string()),
            Asn1Type::Bool(b) => Asn1Type::Bool(Bool::new(b.value())),
            Asn1Type::BitString(b) => Asn1Type::BitString(b.to_owned_string()),
            Asn1Type::ExplicitTag(t) => {
                proof {
                    use_type_invariant(t);
                }
                Asn1Type::ExplicitTag(ExplicitTag { tag_number: t.tag_number, inner: owned_nodes(&t.inner) })
            },
            Asn1Type::ApplicationTag(t) => {
                proof {
                    use_type_invariant(t);
                }
                Asn1Type::ApplicationTag(
                    ApplicationTag { tag_number: t.tag_number, inner: owned_nodes(&t.inner) },
                )
            },
        }
    }
}

impl<'a> Asn1<'a> {
    /// A deep copy, bytes and offsets included, that no longer borrows from the input.
    pub fn to_owned_node(&self) -> (r: OwnedAsn1)
        ensures
            r@ == self@,
            r.spec_tag() == self.spec_tag(),
            r.spec_length() == self.spec_length(),
            r.spec_data() == self.spec_data(),
            r.spec_raw() == self.spec_raw(),
        decreases self,
    {
        proof {
            use_type_invariant(self);
        }
        Asn1 {
            raw_data: self.raw_data.to_owned_octets(),
            tag: self.tag,
            length_start: self.length_start,
            length_end: self.length_end,
            data_start: self.data_start,
            data_end: self.data_end,
            asn1_type: self.asn1_type.to_owned_type(),
        }
    }
}

impl<'a> ExplicitTag<'a> {
    /// A deep copy that no longer borrows from the input.
    pub fn to_owned_tag(&self) -> (r: OwnedExplicitTag)
        ensures
            r@ == self@,
    {
        proof {
            use_type_invariant(self);
        }
        ExplicitTag { tag_number: self.tag_number, inner: owned_nodes(&self.inner) }
    }
}

impl<'a> ApplicationTag<'a> {
    /// A deep copy that no longer borrows from the input.
    pub fn to_owned_tag(&self) -> (r: OwnedApplicationTag)
        ensures
            r@ == self@,
    {
        proof {
            use_type_invariant(self);
        }
        ApplicationTag { tag_number: self.tag_number, inner: owned_nodes(&self.inner) }
    }
}

} // verus!
