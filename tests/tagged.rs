use asn1_codec::asn1::{ApplicationTag, Asn1Type, ExplicitTag};
use asn1_codec::bit_string::BitString;
use asn1_codec::error::Error;
use asn1_codec::reader::Reader;
use asn1_codec::scheme::{ApplicationTagProps, ExplicitTagProps};
use asn1_codec::tag::Tag;

#[test]
fn bit_string_decode_and_encode() {
    let raw = [0x03, 0x03, 0x04, 0xab, 0xc0];
    let b = BitString::decode(&mut Reader::new(&raw)).unwrap();
    assert_eq!(b.unused_bits(), 4);
    assert_eq!(b.bits(), &[0xab, 0xc0]);
    let v = Asn1Type::BitString(b);
    assert_eq!(v.needed_buf_size(), 5);
    assert_eq!(v.encode_to_vec(), raw.to_vec());
    let empty = BitString::decode(&mut Reader::new(&[0x03, 0x01, 0x00])).unwrap();
    assert!(empty.bits().is_empty());
}

#[test]
fn bit_string_errors() {
    assert_eq!(BitString::decode(&mut Reader::new(&[0x03, 0x00])), Err(Error::InvalidLength));
    assert_eq!(BitString::decode(&mut Reader::new(&[0x03, 0x02, 0x08, 0x00])), Err(Error::InvalidValue));
    assert_eq!(BitString::decode(&mut Reader::new(&[0x03, 0x01, 0x01])), Err(Error::InvalidValue));
    assert_eq!(BitString::new(8, vec![1]), Err(Error::InvalidValue));
    assert_eq!(BitString::new(1, vec![]), Err(Error::InvalidValue));
    assert_eq!(BitString::new(3, vec![0xf8]).map(|b| b.unused_bits()), Ok(3));
}

#[test]
fn explicit_tag_wraps_nodes() {
    // [1] { BOOLEAN true }
    let raw = [0xa1, 0x03, 0x01, 0x01, 0xff];
    let node = ExplicitTag::decode_asn1_buff(&raw).unwrap();
    assert_eq!(node.data_range(), 2..5);
    let t = match node.asn1() {
        Asn1Type::ExplicitTag(t) => t,
        _ => panic!("not an explicit tag"),
    };
    assert_eq!(t.tag_number(), 1);
    assert_eq!(t.tag(), Tag(0xa1));
    assert_eq!(t.inner().len(), 1);
    assert_eq!(t.inner()[0].tag_position(), 2);
    assert_eq!(t.inner()[0].data_range(), 4..5);
    assert_eq!(node.asn1().encode_to_vec(), raw.to_vec());
    assert!(ExplicitTag::compare_tags(&Tag(0xbe)));
    assert!(!ExplicitTag::compare_tags(&Tag(0xbf)));
}

#[test]
fn application_tag_wraps_nodes() {
    let raw = [0x62, 0x04, 0x04, 0x02, 0x01, 0x02];
    let mut r = Reader::new(&raw);
    let t = ApplicationTag::decode(&mut r).unwrap();
    assert_eq!(r.position(), raw.len());
    assert_eq!(t.tag_number(), 2);
    assert_eq!(t.inner().len(), 1);
    let generic = Asn1Type::decode_asn1(&mut Reader::new(&raw)).unwrap();
    assert_eq!(generic.asn1().encode_to_vec(), raw.to_vec());
    assert_eq!(ApplicationTag::new(31, Vec::new()).err(), Some(Error::UnsupportedTag));
    let empty = ApplicationTag::new(5, Vec::new()).unwrap();
    assert_eq!(Asn1Type::ApplicationTag(empty).encode_to_vec(), vec![0x65, 0x00]);
}

#[test]
fn tag_class_mismatch() {
    let raw = [0x30, 0x00];
    let mut r = Reader::new(&raw);
    assert_eq!(ExplicitTag::decode(&mut r).err(), Some(Error::TagMismatch));
    assert_eq!(r.position(), 1);
    // high tag number form is outside the supported set
    assert_eq!(Asn1Type::decode_asn1(&mut Reader::new(&[0xbf, 0x00])).err(), Some(Error::UnsupportedTag));
}

#[test]
fn tag_props_hold_owned_nodes() {
    let e = ExplicitTagProps { node: ExplicitTag::new(0, Vec::new()).unwrap(), cur_node: Some(3) };
    assert_eq!(e.node.tag_number(), 0);
    assert_eq!(e.cur_node, Some(3));
    let a = ApplicationTagProps { node: ApplicationTag::new(7, Vec::new()).unwrap(), cur_node: None };
    assert_eq!(a.node.tag_number(), 7);
    assert!(a.cur_node.is_none());
}

#[test]
fn owned_copy_outlives_buffer() {
    let owned = {
        let raw = vec![0xa1, 0x03, 0x01, 0x01, 0xff];
        let node = Asn1Type::decode_asn1(&mut Reader::new(&raw)).unwrap();
        node.to_owned_node()
    };
    assert_eq!(owned.raw_data(), &[0xa1, 0x03, 0x01, 0x01, 0xff]);
    assert_eq!(owned.tag_position(), 0);
    assert_eq!(owned.data_range(), 2..5);
    assert_eq!(owned.asn1().encode_to_vec(), vec![0xa1, 0x03, 0x01, 0x01, 0xff]);

    let props = {
        let raw = vec![0x61, 0x02, 0x04, 0x00];
        let t = ApplicationTag::decode(&mut Reader::new(&raw)).unwrap();
        ApplicationTagProps { node: t.to_owned_tag(), cur_node: Some(0) }
    };
    assert_eq!(props.node.tag_number(), 1);
    assert_eq!(props.node.inner().len(), 1);
}
