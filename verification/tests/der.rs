use asn1rs::io::buf::OctetBuffer;
use asn1rs::io::per::err::ErrorKind;
use asn1rs::protocol::basic::distinguished::DistinguishedEncodingRules as Der;

const LENGTH_SHORT_MAX_VALUE: u64 = 127;

fn write_read_length_check(len: u64) {
    let mut buffer = Vec::new();
    Der::write_length(&mut buffer, len);
    let mut pos = 0_usize;
    assert_eq!(len, Der::read_length(&buffer[..], &mut pos).unwrap());
    assert_eq!(pos, buffer.len());
}

#[test]
fn test_length_bounds() {
    write_read_length_check(0);
    write_read_length_check(LENGTH_SHORT_MAX_VALUE - 1);
    write_read_length_check(LENGTH_SHORT_MAX_VALUE);
    write_read_length_check(LENGTH_SHORT_MAX_VALUE + 1);
    write_read_length_check(u8::MAX as u64 - 1);
    write_read_length_check(u8::MAX as u64);
    write_read_length_check(u8::MAX as u64 + 1);
    write_read_length_check(u16::MAX as u64 - 1);
    write_read_length_check(u16::MAX as u64);
    write_read_length_check(u16::MAX as u64 + 1);
    write_read_length_check(u32::MAX as u64 - 1);
    write_read_length_check(u32::MAX as u64);
    write_read_length_check(u32::MAX as u64 + 1);
    write_read_length_check(u64::MAX - 1);
    write_read_length_check(u64::MAX);
}

#[test]
fn der_short_and_long_length_forms() {
    let mut buffer = Vec::new();
    Der::write_length(&mut buffer, 127);
    assert_eq!(buffer, vec![0x7F]);
    let mut buffer = Vec::new();
    Der::write_length(&mut buffer, 128);
    assert_eq!(buffer, vec![0x81, 0x80]);
    let mut buffer = Vec::new();
    Der::write_length(&mut buffer, 256);
    assert_eq!(buffer, vec![0x82, 0x01, 0x00]);
}

#[test]
fn der_integer_roundtrip() {
    for value in [0_u64, 1, 127, 128, 255, 256, 65535, u64::MAX] {
        let mut buffer = Vec::new();
        Der::write_integer_u64(&mut buffer, value);
        let mut pos = 0_usize;
        let len = buffer.len() as u32;
        assert_eq!(value, Der::read_integer_u64(&buffer[..], &mut pos, len).unwrap());
        assert_eq!(pos, buffer.len());
    }
    for value in [0_i64, 1, -1, 127, -128, i64::MIN, i64::MAX] {
        let mut buffer = Vec::new();
        Der::write_integer_i64(&mut buffer, value);
        let mut pos = 0_usize;
        let len = buffer.len() as u32;
        assert_eq!(value, Der::read_integer_i64(&buffer[..], &mut pos, len).unwrap());
    }
}

#[test]
fn der_boolean() {
    let mut buffer = Vec::new();
    Der::write_boolean(&mut buffer, true);
    Der::write_boolean(&mut buffer, false);
    let mut pos = 0_usize;
    assert!(Der::read_boolean(&buffer[..], &mut pos).unwrap());
    assert!(!Der::read_boolean(&buffer[..], &mut pos).unwrap());
    assert!(Der::read_boolean(&buffer[..], &mut pos).is_err());
}

#[test]
fn octet_buffer_ends_with_end_of_stream() {
    let mut buffer = OctetBuffer::from_bytes(vec![0x02, 0x81]);
    assert_eq!(0x02, buffer.read_octet().unwrap());
    assert_eq!(0x81, buffer.read_octet().unwrap());
    assert_eq!(ErrorKind::EndOfStream, *buffer.read_octet().unwrap_err().kind());
    assert_eq!(ErrorKind::EndOfStream, *buffer.read_length().unwrap_err().kind());
}

#[test]
fn model_rust_field_names_are_snake_case() {
    assert_eq!("noch_so_ein_brot", asn1rs::model::rust::rust_field_name("nochSoEinBrot"));
    assert_eq!("bernd_das_brot", asn1rs::model::rust::rust_field_name("bernd-das-brot"));
}
