use asn1rs::io::protobuf::{Error, Format, ProtoRead, ProtoWrite};
use asn1rs::io::protobuf_eq::ProtobufEq;
use asn1rs::io::psql::Representable;

#[test]
fn protobuf_varint_bytes() {
    let mut out: Vec<u8> = Vec::new();
    out.write_varint(1).unwrap();
    out.write_varint(300).unwrap();
    out.write_varint(127).unwrap();
    out.write_varint(128).unwrap();
    assert_eq!(out, vec![0x01, 0xAC, 0x02, 0x7F, 0x80, 0x01]);
    let mut out: Vec<u8> = Vec::new();
    out.write_varint(u64::MAX).unwrap();
    assert_eq!(out.len(), 10);
    let mut input: &[u8] = &out[..];
    assert_eq!(u64::MAX, input.read_varint().unwrap());
    assert!(input.is_empty());
}

#[test]
fn protobuf_varint_roundtrip_stops_behind_the_number() {
    for value in [0_u64, 1, 127, 128, 300, 16383, 16384, u32::MAX as u64, u64::MAX - 1] {
        let mut out: Vec<u8> = Vec::new();
        out.write_varint(value).unwrap();
        out.push(0xAA);
        let mut input: &[u8] = &out[..];
        assert_eq!(value, input.read_varint().unwrap());
        assert_eq!(input, &[0xAA][..]);
    }
}

#[test]
fn protobuf_varint_at_end_is_an_io_error() {
    let mut input: &[u8] = &[0x80, 0x80][..];
    assert!(matches!(input.read_varint(), Err(Error::Io(_))));
    let mut empty: &[u8] = &[][..];
    assert!(matches!(empty.read_bool(), Err(Error::Io(_))));
}

#[test]
fn protobuf_zigzag() {
    let mut out: Vec<u8> = Vec::new();
    out.write_sint32(-1).unwrap();
    out.write_sint32(1).unwrap();
    out.write_sint64(-2).unwrap();
    assert_eq!(out, vec![0x01, 0x02, 0x03]);
    for value in [0_i32, 1, -1, 63, -64, i32::MAX, i32::MIN] {
        let mut out: Vec<u8> = Vec::new();
        out.write_sint32(value).unwrap();
        let mut input: &[u8] = &out[..];
        assert_eq!(value, input.read_sint32().unwrap());
    }
    for value in [0_i64, 1, -1, i64::MAX, i64::MIN] {
        let mut out: Vec<u8> = Vec::new();
        out.write_sint64(value).unwrap();
        let mut input: &[u8] = &out[..];
        assert_eq!(value, input.read_sint64().unwrap());
    }
}

#[test]
fn protobuf_tags() {
    let mut out: Vec<u8> = Vec::new();
    out.write_tag(1, Format::VarInt).unwrap();
    out.write_tag(2, Format::LengthDelimited).unwrap();
    assert_eq!(out, vec![0x08, 0x12]);
    let mut input: &[u8] = &out[..];
    assert_eq!((1, Format::VarInt), input.read_tag().unwrap());
    assert_eq!((2, Format::LengthDelimited), input.read_tag().unwrap());
    let mut invalid: &[u8] = &[0x0B][..];
    assert!(matches!(invalid.read_tag(), Err(Error::InvalidFormat(3))));
}

#[test]
fn protobuf_formats() {
    assert_eq!(Format::Fixed32, Format::from(5).unwrap());
    assert_eq!(5, Format::Fixed32.id());
    assert_eq!("LengthDelimited", Format::LengthDelimited.to_string());
    assert!(matches!(Format::from(7), Err(Error::InvalidFormat(7))));
}

#[test]
fn protobuf_sfixed32() {
    let mut out: Vec<u8> = Vec::new();
    out.write_sfixed32(-2).unwrap();
    assert_eq!(out, vec![0xFE, 0xFF, 0xFF, 0xFF]);
    let mut input: &[u8] = &out[..];
    assert_eq!(-2, input.read_sfixed32().unwrap());
    let mut short: &[u8] = &[1, 2, 3][..];
    assert!(matches!(short.read_sfixed32(), Err(Error::Io(_))));
}

#[test]
fn protobuf_strings_and_bytes() {
    let mut out: Vec<u8> = Vec::new();
    out.write_tagged_string(3, "hé").unwrap();
    assert_eq!(out, vec![0x1A, 0x03, b'h', 0xC3, 0xA9]);
    let mut input: &[u8] = &out[..];
    assert_eq!((3, Format::LengthDelimited), input.read_tag().unwrap());
    assert_eq!(3, input.read_varint().unwrap());
    assert_eq!("hé", input.read_string().unwrap());
    let mut invalid: &[u8] = &[0xFF, 0xFE][..];
    assert!(matches!(invalid.read_string(), Err(Error::InvalidUtf8Received)));
    let mut out: Vec<u8> = Vec::new();
    out.write_bytes(&[1, 2]).unwrap();
    let mut input: &[u8] = &out[..];
    assert_eq!(2, input.read_varint().unwrap());
    assert_eq!(vec![1, 2], input.read_bytes().unwrap());
}

#[test]
fn protobuf_tagged_values() {
    let mut out: Vec<u8> = Vec::new();
    out.write_tagged_bool(1, true).unwrap();
    out.write_tagged_uint32(2, 150).unwrap();
    out.write_tagged_enum_variant(3, 2).unwrap();
    assert_eq!(out, vec![0x08, 0x01, 0x10, 0x96, 0x01, 0x18, 0x02]);
    let mut input: &[u8] = &out[..];
    assert_eq!((1, Format::VarInt), input.read_tag().unwrap());
    assert!(input.read_bool().unwrap());
    assert_eq!((2, Format::VarInt), input.read_tag().unwrap());
    assert_eq!(150, input.read_uint32().unwrap());
    assert_eq!((3, Format::VarInt), input.read_tag().unwrap());
    assert_eq!(2, input.read_enum_variant().unwrap());
}

#[test]
fn protobuf_equality() {
    assert!(vec![1_u32, 2].protobuf_eq(&vec![1, 2]));
    assert!(!vec![1_u32, 2].protobuf_eq(&vec![1]));
    assert!(Some(0_u32).protobuf_eq(&None));
    assert!(!Some(1_u32).protobuf_eq(&None));
    assert!(None::<u32>.protobuf_eq(&None));
    assert!("a".to_string().protobuf_eq(&"a".to_string()));
}

struct Person;

impl Representable for Person {
    fn table_name(&self) -> &'static str {
        "Person"
    }
}

#[test]
fn representable_names_its_table() {
    assert_eq!("Person", Person.table_name());
}
