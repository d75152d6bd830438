use asn1_codec::asn1::{Asn1Type, Sequence};
use asn1_codec::boolean::Bool;
use asn1_codec::error::Error;
use asn1_codec::length::{length_size, read_length, write_length};
use asn1_codec::octet_string::OctetString;
use asn1_codec::reader::Reader;
use asn1_codec::utf8_string::Utf8String;
use asn1_codec::writer::Writer;

const SEQ_RAW: [u8; 29] = [
    48, 27, 4, 8, 0, 17, 34, 51, 68, 85, 102, 119, 12, 15, 116, 104, 101, 98, 101, 115, 116, 116,
    118, 97, 114, 121, 110, 107, 97,
];

#[test]
fn sequence_example() {
    let raw = SEQ_RAW;

    let decoded = Sequence::decode_asn1_buff(&raw).unwrap();

    assert_eq!(decoded.raw_data(), &raw);
    assert_eq!(decoded.tag_position(), 0);
    assert_eq!(decoded.length_range(), 1..2);
    assert_eq!(decoded.data_range(), 2..29);
    let fields = match decoded.asn1() {
        Asn1Type::Sequence(s) => s.fields(),
        other => panic!("not a sequence: {:?}", other),
    };
    assert_eq!(fields.len(), 2);

    assert_eq!(fields[0].raw_data(), &[4, 8, 0, 17, 34, 51, 68, 85, 102, 119]);
    assert_eq!(fields[0].tag_position(), 2);
    assert_eq!(fields[0].length_range(), 3..4);
    assert_eq!(fields[0].data_range(), 4..12);
    assert_eq!(
        fields[0].asn1(),
        &Asn1Type::OctetString(OctetString::from(vec![0, 17, 34, 51, 68, 85, 102, 119]))
    );

    assert_eq!(
        fields[1].raw_data(),
        &[12, 15, 116, 104, 101, 98, 101, 115, 116, 116, 118, 97, 114, 121, 110, 107, 97]
    );
    assert_eq!(fields[1].tag_position(), 12);
    assert_eq!(fields[1].length_range(), 13..14);
    assert_eq!(fields[1].data_range(), 14..29);
    assert_eq!(fields[1].asn1(), &Asn1Type::Utf8String(Utf8String::from_text("thebesttvarynka")));
}

#[test]
fn octet_string_example() {
    let raw = [4, 8, 0, 17, 34, 51, 68, 85, 102, 119];

    let octet_string = OctetString::decode_asn1(&mut Reader::new(&raw)).unwrap();

    assert_eq!(octet_string.tag_position(), 0);
    assert_eq!(octet_string.length_bytes(), &[8]);
    assert_eq!(octet_string.length_range(), 1..2);
    assert_eq!(&raw[octet_string.data_range()], &[0, 17, 34, 51, 68, 85, 102, 119]);

    let mut encoded = [0; 10];

    assert_eq!(octet_string.asn1().needed_buf_size(), 10);

    octet_string.asn1().encode_buff(&mut encoded).unwrap();

    assert_eq!(encoded, raw);
}

#[test]
fn bool_content_bytes() {
    let f = Bool::decode(&mut Reader::new(&[1, 1, 0])).unwrap();
    assert!(!f.value());
    let t = Bool::decode(&mut Reader::new(&[1, 1, 0xff])).unwrap();
    assert!(t.value());
    assert_eq!(Bool::decode(&mut Reader::new(&[1, 1, 1])), Err(Error::InvalidValue));
    assert_eq!(Bool::decode(&mut Reader::new(&[1, 1, 0x7f])), Err(Error::InvalidValue));
    assert_eq!(Bool::decode(&mut Reader::new(&[1, 2, 0xff, 0xff])), Err(Error::InvalidLength));
    assert_eq!(Bool::decode(&mut Reader::new(&[1, 0])), Err(Error::InvalidLength));
    assert_eq!(Bool::decode(&mut Reader::new(&[1, 1])), Err(Error::BufferUnderrun));
    assert_eq!(Bool::try_from(0xffu8).map(|b| b.value()), Ok(true));
    assert_eq!(Bool::try_from(0x00u8).map(|b| b.value()), Ok(false));
    assert_eq!(Bool::try_from(0x10u8), Err(Error::InvalidValue));
}

#[test]
fn bool_encoding() {
    let v = Asn1Type::Bool(Bool::from(true));
    assert_eq!(v.needed_buf_size(), 3);
    assert_eq!(v.encode_to_vec(), vec![1, 1, 0xff]);
    assert_eq!(Asn1Type::Bool(Bool::new(false)).encode_to_vec(), vec![1, 1, 0]);
}

fn written_length(n: usize) -> Vec<u8> {
    let mut w = Writer::with_capacity(9);
    write_length(n, &mut w).unwrap();
    w.into_bytes()
}

#[test]
fn length_forms() {
    assert_eq!(written_length(0), vec![0]);
    assert_eq!(written_length(127), vec![127]);
    assert_eq!(written_length(128), vec![0x81, 0x80]);
    assert_eq!(written_length(255), vec![0x81, 0xff]);
    assert_eq!(written_length(256), vec![0x82, 0x01, 0x00]);
    assert_eq!(written_length(65536), vec![0x83, 0x01, 0x00, 0x00]);
    assert_eq!(written_length(usize::MAX).len(), 1 + std::mem::size_of::<usize>());
}

#[test]
fn length_size_matches_write_and_read_back() {
    for n in [0usize, 1, 100, 127, 128, 200, 255, 256, 1000, 65535, 65536, 1 << 24, usize::MAX] {
        let bytes = written_length(n);
        assert_eq!(length_size(n), bytes.len());
        let mut r = Reader::new(&bytes);
        let (value, range) = read_length(&mut r).unwrap();
        assert_eq!(value, n);
        assert_eq!(range, 0..bytes.len());
        assert_eq!(r.position(), bytes.len());
    }
}

#[test]
fn length_errors() {
    assert_eq!(read_length(&mut Reader::new(&[0x80])), Err(Error::InvalidLength));
    assert_eq!(read_length(&mut Reader::new(&[0x82, 0x01])), Err(Error::BufferUnderrun));
    assert_eq!(read_length(&mut Reader::new(&[])), Err(Error::BufferUnderrun));
    let too_big = [0x89, 1, 0, 0, 0, 0, 0, 0, 0, 0];
    assert_eq!(read_length(&mut Reader::new(&too_big)), Err(Error::InvalidLength));
    // a long form with a leading zero is still read
    let (v, _) = read_length(&mut Reader::new(&[0x82, 0x00, 0x05])).unwrap();
    assert_eq!(v, 5);
}

#[test]
fn write_length_overflow() {
    let mut w = Writer::with_capacity(2);
    assert_eq!(write_length(256, &mut w), Err(Error::BufferOverflow));
    assert_eq!(w.len(), 0);
    assert_eq!(write_length(255, &mut w), Ok(()));
    assert_eq!(w.into_bytes(), vec![0x81, 0xff]);
}

#[test]
fn sequence_keeps_child_order() {
    let raw = [0x30, 0x08, 0x04, 0x02, b'A', b'B', 0x0c, 0x02, b'c', b'd'];
    let node = Sequence::decode_asn1_buff(&raw).unwrap();
    let fields = match node.asn1() {
        Asn1Type::Sequence(s) => s.fields(),
        _ => panic!("not a sequence"),
    };
    assert_eq!(fields[0].asn1(), &Asn1Type::OctetString(OctetString::from(b"AB".to_vec())));
    assert_eq!(fields[1].asn1(), &Asn1Type::Utf8String(Utf8String::from_text("cd")));
    assert_eq!(node.asn1().encode_to_vec(), raw.to_vec());

    let swapped = [0x30, 0x08, 0x0c, 0x02, b'c', b'd', 0x04, 0x02, b'A', b'B'];
    let other = Sequence::decode_asn1_buff(&swapped).unwrap();
    assert_ne!(other.asn1().encode_to_vec(), node.asn1().encode_to_vec());
}

#[test]
fn provenance_of_nested_children() {
    let raw = SEQ_RAW;
    let node = Asn1Type::decode_asn1(&mut Reader::new(&raw)).unwrap();
    assert_eq!(node.tag_position(), 0);
    assert_eq!(node.length_range(), 1..2);
    assert_eq!(node.data_range(), 2..29);
    assert_eq!(node.asn1().encode_to_vec(), raw.to_vec());
}

#[test]
fn truncated_sequence_fails() {
    let raw = SEQ_RAW;
    assert_eq!(Sequence::decode_asn1_buff(&raw[..28]), Err(Error::BufferUnderrun));
    assert_eq!(Sequence::decode_asn1_buff(&[0x30]), Err(Error::BufferUnderrun));
    // the declared content ends inside the second child
    let mut short = raw;
    short[1] = 26;
    assert_eq!(Sequence::decode_asn1_buff(&short[..28]), Err(Error::MalformedContainer));
}

#[test]
fn tag_mismatch_consumes_one_byte() {
    let raw = [1, 1, 0xff];
    let mut r = Reader::new(&raw);
    assert_eq!(OctetString::decode(&mut r), Err(Error::TagMismatch));
    assert_eq!(r.position(), 1);
    let mut r = Reader::new(&raw);
    assert!(OctetString::decode_asn1(&mut r).is_err());
    assert_eq!(r.position(), 1);
}

#[test]
fn unsupported_tag_and_empty_input() {
    assert_eq!(Asn1Type::decode_asn1(&mut Reader::new(&[0x02, 0x01, 0x00])), Err(Error::UnsupportedTag));
    assert_eq!(Asn1Type::decode_asn1(&mut Reader::new(&[])), Err(Error::BufferUnderrun));
    assert_eq!(
        Sequence::decode_asn1_buff(&[0x30, 0x03, 0x02, 0x01, 0x00]),
        Err(Error::UnsupportedTag)
    );
}

#[test]
fn empty_sequence() {
    let raw = [0x30, 0x00];
    let node = Sequence::decode_asn1_buff(&raw).unwrap();
    match node.asn1() {
        Asn1Type::Sequence(s) => assert!(s.fields().is_empty()),
        _ => panic!("not a sequence"),
    }
    assert_eq!(node.data_range(), 2..2);
    assert_eq!(node.asn1().encode_to_vec(), raw.to_vec());
}

#[test]
fn utf8_must_be_valid() {
    assert_eq!(Utf8String::decode(&mut Reader::new(&[0x0c, 0x02, 0xc3, 0x28])), Err(Error::InvalidValue));
    let ok = Utf8String::decode(&mut Reader::new(&[0x0c, 0x02, 0xc3, 0xa9])).unwrap();
    assert_eq!(ok.bytes(), "é".as_bytes());
    assert!(Utf8String::from_utf8(&[0xff]).is_none());
}

#[test]
fn encode_into_short_buffer_fails() {
    let v = Asn1Type::OctetString(OctetString::from(vec![1, 2, 3]));
    let mut buf = [7u8; 4];
    assert_eq!(v.encode_buff(&mut buf), Err(Error::BufferOverflow));
    assert_eq!(buf, [7; 4]);
    let mut w = Writer::with_capacity(4);
    assert_eq!(v.encode(&mut w), Err(Error::BufferOverflow));
    let mut buf = [7u8; 6];
    assert_eq!(v.encode_buff(&mut buf), Ok(()));
    assert_eq!(buf, [4, 3, 1, 2, 3, 7]);
}

#[test]
fn long_octet_string_round_trip() {
    let content: Vec<u8> = (0..300u32).map(|i| (i % 251) as u8).collect();
    let v = Asn1Type::OctetString(OctetString::from(content.clone()));
    let bytes = v.encode_to_vec();
    assert_eq!(&bytes[..4], &[4, 0x82, 0x01, 0x2c]);
    assert_eq!(v.needed_buf_size(), bytes.len());
    let back = OctetString::decode(&mut Reader::new(&bytes)).unwrap();
    assert_eq!(back.octets(), &content[..]);
    assert_eq!(back.to_owned_string(), OctetString::from(content));
}

#[test]
fn nested_sequence_round_trip() {
    let raw = [0x30, 0x0a, 0x30, 0x03, 0x01, 0x01, 0xff, 0x04, 0x00, 0x0c, 0x01, b'x'];
    let node = Asn1Type::decode_asn1(&mut Reader::new(&raw)).unwrap();
    assert_eq!(node.asn1().needed_buf_size(), raw.len());
    assert_eq!(node.asn1().encode_to_vec(), raw.to_vec());
    let mut w = Writer::with_capacity(raw.len());
    node.asn1().encode(&mut w).unwrap();
    assert_eq!(w.into_bytes(), raw.to_vec());
}
