use asn1rs::io::per::err::{Error, ErrorKind};
use asn1rs::io::per::unaligned::bits::Bits;
use asn1rs::io::per::unaligned::buffer::BitBuffer;

#[test]
fn bit_buffer_bits() -> Result<(), Error> {
    let content = &[0xFF, 0x74, 0xA6, 0x0F];
    let mut buffer = BitBuffer::default();
    buffer.write_bits(content)?;
    assert_eq!(buffer.content(), content);

    {
        let mut buffer2 = BitBuffer::from_bits(buffer.content().into(), buffer.bit_len());
        let mut content2 = vec![0_u8; content.len()];
        buffer2.read_bits(&mut content2[..])?;
        assert_eq!(&content[..], &content2[..]);
    }

    let mut content2 = vec![0xFF_u8; content.len()];
    buffer.read_bits(&mut content2[..])?;
    assert_eq!(&content[..], &content2[..]);

    Ok(())
}

#[test]
fn bit_buffers_with_offset() -> Result<(), Error> {
    let content = &[0b1111_1111, 0b0111_0100, 0b1010_0110, 0b0000_1111];
    let mut buffer = BitBuffer::default();
    buffer.write_bits_with_offset(content, 7)?;
    assert_eq!(
        buffer.content(),
        &[0b1011_1010, 0b0101_0011, 0b0000_0111, 0b1000_0000]
    );

    {
        let mut buffer2 = BitBuffer::from_bits(buffer.content().into(), buffer.bit_len());
        let mut content2 = vec![0xFF_u8; content.len()];
        content2[0] = content[0] & 0b1111_1110;
        buffer2.read_bits_with_offset(&mut content2[..], 7)?;
        assert_eq!(&content[..], &content2[..]);
    }

    let mut content2 = vec![0_u8; content.len()];
    content2[0] = content[0] & 0b1111_1110;
    buffer.read_bits_with_offset(&mut content2[..], 7)?;
    assert_eq!(&content[..], &content2[..]);

    Ok(())
}

#[test]
fn bit_buffer_bits_with_offset_len() -> Result<(), Error> {
    let content = &[0b1111_1111, 0b0111_0100, 0b1010_0110, 0b0000_1111];
    let mut buffer = BitBuffer::default();
    buffer.write_bits_with_offset_len(content, 7, 12)?;
    assert_eq!(buffer.content(), &[0b1011_1010, 0b0101_0000]);

    {
        let mut buffer2 = BitBuffer::from_bits(buffer.content().into(), buffer.bit_len());
        let mut content2 = vec![0_u8; content.len()];
        let content = &[
            content[0] & 0x01,
            content[1],
            content[2] & 0b1110_0000,
            0x00,
        ];
        buffer2.read_bits_with_offset_len(&mut content2[..], 7, 12)?;
        assert_eq!(&content[..], &content2[..]);
    }

    let mut content2 = vec![0x00_u8; content.len()];
    let content = &[
        content[0] & 0x01,
        content[1],
        content[2] & 0b1110_0000,
        0x00,
    ];
    buffer.read_bits_with_offset_len(&mut content2[..], 7, 12)?;
    assert_eq!(&content[..], &content2[..]);

    Ok(())
}

#[test]
fn buffer_bit_buffer_octet_string_with_range() -> Result<(), Error> {
    const BYTES: &[u8] = &[0x2A, 0x2B, 0x96, 0xFF];
    const RANGE: (u64, u64) = (1, 20);
    let mut buffer = BitBuffer::default();
    buffer.write_octetstring(Some(RANGE.0), Some(RANGE.1), false, BYTES)?;
    assert_eq!(&[0x19, 0x51, 0x5c, 0xb7, 0xf8], &buffer.content());
    Ok(())
}

#[test]
fn buffer_bit_buffer_octet_string_without_range() -> Result<(), Error> {
    const BYTES: &[u8] = &[0x2A, 0x2B, 0x96, 0xFF];
    let mut buffer = BitBuffer::default();
    buffer.write_octetstring(None, None, false, BYTES)?;
    assert_eq!(&[0x04, 0x2a, 0x2b, 0x96, 0xff], &buffer.content());
    Ok(())
}

#[test]
fn buffer_bit_buffer_octet_string_empty() -> Result<(), Error> {
    const BYTES: &[u8] = &[];
    let mut buffer = BitBuffer::default();
    buffer.write_octetstring(None, None, false, BYTES)?;
    assert_eq!(&[0x00], &buffer.content());
    Ok(())
}

#[test]
fn bit_buffer_normally_small_non_negative_whole_number_5() -> Result<(), Error> {
    let mut buffer = BitBuffer::default();
    buffer.write_normally_small_non_negative_whole_number(5)?;
    assert_eq!(&[0b0000_101_0], &buffer.content());
    assert_eq!(5, buffer.read_normally_small_non_negative_whole_number()?);
    Ok(())
}

#[test]
fn bit_buffer_normally_small_non_negative_whole_number_60() -> Result<(), Error> {
    let mut buffer = BitBuffer::default();
    buffer.write_normally_small_non_negative_whole_number(60)?;
    assert_eq!(&[0b0111_100_0], &buffer.content());
    assert_eq!(60, buffer.read_normally_small_non_negative_whole_number()?);
    Ok(())
}

#[test]
fn bit_buffer_normally_small_non_negative_whole_number_254() -> Result<(), Error> {
    let mut buffer = BitBuffer::default();
    buffer.write_normally_small_non_negative_whole_number(254)?;
    assert_eq!(
        &[0b1_000_0000, 0b1__111_1111, 0b0_000_0000],
        &buffer.content()
    );
    Ok(())
}

#[test]
fn per_write_bit_keeps_correct_order() -> Result<(), Error> {
    let mut buffer = BitBuffer::default();
    for bit in [true, false, false, true, true, true, true, false] {
        buffer.write_bit(bit)?;
    }
    assert_eq!(buffer.content(), &[0b1001_1110]);
    for bit in [true, false, true, true, true, true, true, false] {
        buffer.write_bit(bit)?;
    }
    assert_eq!(buffer.content(), &[0b1001_1110, 0b1011_1110]);
    for bit in [true, false, true, false] {
        buffer.write_bit(bit)?;
    }
    assert_eq!(buffer.content(), &[0b1001_1110, 0b1011_1110, 0b1010_0000]);

    let mut buffer = BitBuffer::from_bits(buffer.content().into(), buffer.bit_len());
    for expected in [
        true, false, false, true, true, true, true, false, true, false, true, true, true, true,
        true, false, true, false, true, false,
    ] {
        assert_eq!(expected, buffer.read_bit()?);
    }
    assert_eq!(buffer.read_bit(), Err(ErrorKind::EndOfStream.into()));
    Ok(())
}

fn length_determinant_roundtrip(det: u64, expected: &[u8]) -> Result<(), Error> {
    let mut buffer = BitBuffer::default();
    buffer.write_length_determinant(None, None, det)?;
    assert_eq!(buffer.content(), expected);
    {
        let mut buffer2 = BitBuffer::from_bits(buffer.content().into(), buffer.bit_len());
        assert_eq!(det, buffer2.read_length_determinant(None, None)?);
    }
    assert_eq!(det, buffer.read_length_determinant(None, None)?);
    Ok(())
}

#[test]
fn per_length_determinants() -> Result<(), Error> {
    length_determinant_roundtrip(0, &[0x00])?;
    length_determinant_roundtrip(1, &[0x01])?;
    length_determinant_roundtrip(126, &[126])?;
    length_determinant_roundtrip(128, &[0x80, 128])?;
    length_determinant_roundtrip(16383, &[0x80 | 0x3F, 0xFF])?;
    let mut buffer = BitBuffer::default();
    assert_eq!(
        buffer.write_length_determinant(None, None, 16384),
        Err(ErrorKind::UnsupportedOperation.into())
    );
    assert_eq!(
        buffer.write_length_determinant(Some(2), Some(10), 11),
        Err(ErrorKind::SizeNotInRange(11, 2, 10).into())
    );
    Ok(())
}

fn unconstrained_roundtrip(int: i64, expected: &[u8]) -> Result<(), Error> {
    let mut buffer = BitBuffer::default();
    buffer.write_unconstrained_whole_number(int)?;
    assert_eq!(buffer.content(), expected);
    let mut buffer2 = BitBuffer::from_bits(buffer.content().into(), buffer.bit_len());
    assert_eq!(int, buffer2.read_unconstrained_whole_number()?);
    assert_eq!(int, buffer.read_unconstrained_whole_number()?);
    Ok(())
}

#[test]
fn per_unconstrained_whole_numbers() -> Result<(), Error> {
    unconstrained_roundtrip(-12, &[0x01, 0xF4])?;
    unconstrained_roundtrip(0, &[0x01, 0x00])?;
    unconstrained_roundtrip(127, &[0x01, 0x7F])?;
    unconstrained_roundtrip(128, &[0x02, 0x00, 0x80])?;
    unconstrained_roundtrip(65_536, &[0x03, 0x01, 0x00, 0x00])?;
    unconstrained_roundtrip(
        i64::MAX,
        &[0x08, 0x7F, 0xFF, 0xFF, 0xFF, 0xFF, 0xFF, 0xFF, 0xFF],
    )?;
    unconstrained_roundtrip(
        i64::MIN,
        &[0x08, 0x80, 0x00, 0x00, 0x00, 0x00, 0x00, 0x00, 0x00],
    )?;
    Ok(())
}

#[test]
fn per_constrained_whole_numbers() -> Result<(), Error> {
    let mut buffer = BitBuffer::default();
    assert_eq!(
        buffer.write_constrained_whole_number(10, 127, 0),
        Err(ErrorKind::ValueNotInRange(0, 10, 127).into())
    );
    assert_eq!(
        buffer.write_constrained_whole_number(-10, -1, 0),
        Err(ErrorKind::ValueNotInRange(0, -10, -1).into())
    );
    buffer.write_constrained_whole_number(0, 127, 10)?;
    assert_eq!(buffer.content(), &[10 << 1]);
    assert_eq!(10, buffer.read_constrained_whole_number(0, 127)?);
    buffer.write_bit(true)?;
    assert_eq!(buffer.content(), &[(10 << 1) | 1]);

    let mut buffer = BitBuffer::default();
    buffer.write_constrained_whole_number(-128, 128, -10)?;
    assert_eq!(buffer.content(), &[118 >> 1, 118 << 7]);
    assert_eq!(-10, buffer.read_constrained_whole_number(-128, 128)?);
    Ok(())
}

#[test]
fn per_choice_index_extensible() -> Result<(), Error> {
    fn write_once(index: u64, variants: u64) -> Result<(usize, Vec<u8>), Error> {
        let mut buffer = BitBuffer::default();
        buffer.write_choice_index(variants, true, index)?;
        let bits = buffer.bit_len();
        Ok((bits, buffer.into_bytes()))
    }
    assert_eq!((2, vec![0x00]), write_once(0, 2)?);
    assert_eq!((2, vec![0x40]), write_once(1, 2)?);
    assert_eq!((8, vec![0x80]), write_once(2, 2)?);
    assert_eq!((8, vec![0x81]), write_once(3, 2)?);

    fn read_once(data: &[u8], bits: usize, variants: u64) -> Result<u64, Error> {
        let mut buffer = BitBuffer::default();
        buffer.write_bits_with_len(data, bits)?;
        buffer.read_choice_index(variants, true)
    }
    assert_eq!(0, read_once(&[0x00], 2, 2)?);
    assert_eq!(1, read_once(&[0x40], 2, 2)?);
    assert_eq!(2, read_once(&[0x80], 8, 2)?);
    assert_eq!(3, read_once(&[0x81], 8, 2)?);

    let mut buffer = BitBuffer::default();
    assert_eq!(
        buffer.write_choice_index(2, false, 2),
        Err(ErrorKind::InvalidChoiceIndex(2, 2).into())
    );
    Ok(())
}

#[test]
fn per_octet_string_roundtrip() -> Result<(), Error> {
    let bytes: &[u8] = &[0x2A, 0x2B, 0x96, 0xFF];
    let mut buffer = BitBuffer::default();
    buffer.write_octetstring(Some(1), Some(20), false, bytes)?;
    buffer.write_octetstring(None, None, true, bytes)?;
    buffer.write_octetstring(Some(4), Some(4), false, bytes)?;
    buffer.write_octetstring(Some(1), Some(2), true, bytes)?;
    assert_eq!(buffer.read_octetstring(Some(1), Some(20), false)?, bytes.to_vec());
    assert_eq!(buffer.read_octetstring(None, None, true)?, bytes.to_vec());
    assert_eq!(buffer.read_octetstring(Some(4), Some(4), false)?, bytes.to_vec());
    assert_eq!(buffer.read_octetstring(Some(1), Some(2), true)?, bytes.to_vec());
    assert_eq!(
        buffer.write_octetstring(Some(1), Some(2), false, bytes),
        Err(ErrorKind::SizeNotInRange(4, 1, 2).into())
    );
    Ok(())
}

#[test]
fn per_bit_string_roundtrip() -> Result<(), Error> {
    let bytes: &[u8] = &[0b1011_0110, 0b1110_0000];
    let mut buffer = BitBuffer::default();
    buffer.write_bitstring(None, None, false, bytes, 1, 10)?;
    buffer.write_bitstring(Some(10), Some(10), false, bytes, 0, 10)?;
    let (first, len) = buffer.read_bitstring(None, None, false)?;
    assert_eq!(len, 10);
    assert_eq!(first, vec![0b0110_1101, 0b1100_0000]);
    let (second, len) = buffer.read_bitstring(Some(10), Some(10), false)?;
    assert_eq!(len, 10);
    assert_eq!(second, vec![0b1011_0110, 0b1100_0000]);
    assert_eq!(
        buffer.write_bitstring(None, None, false, bytes, 10, 10),
        Err(ErrorKind::InsufficientDataInSourceBuffer.into())
    );
    Ok(())
}

#[test]
fn per_semi_constrained_whole_number() -> Result<(), Error> {
    let mut buffer = BitBuffer::default();
    buffer.write_semi_constrained_whole_number(-5, 250)?;
    assert_eq!(buffer.content(), &[0x01, 255]);
    assert_eq!(250, buffer.read_semi_constrained_whole_number(-5)?);
    assert_eq!(
        buffer.write_semi_constrained_whole_number(3, 2),
        Err(ErrorKind::ValueNotInRange(2, 3, i64::MAX).into())
    );
    Ok(())
}

fn check_unconstrained_whole_number(buffer: &mut BitBuffer, int: i64) -> Result<(), Error> {
    {
        let mut buffer2 = BitBuffer::from_bits(buffer.content().into(), buffer.bit_len());
        assert_eq!(int, buffer2.read_unconstrained_whole_number()?)
    }
    assert_eq!(int, buffer.read_unconstrained_whole_number()?);
    Ok(())
}

fn unconstrained(int: i64, expected: &[u8]) -> Result<(), Error> {
    let mut buffer = BitBuffer::default();
    buffer.write_unconstrained_whole_number(int)?;
    assert_eq!(buffer.content(), expected);
    check_unconstrained_whole_number(&mut buffer, int)
}

#[test]
fn bit_buffer_unconstrained_whole_number_neg_12() -> Result<(), Error> {
    const INT: i64 = -12;
    unconstrained(INT, &[0x00 | 1, INT as u8])
}

#[test]
fn bit_buffer_unconstrained_whole_number_0() -> Result<(), Error> {
    const INT: i64 = 0;
    unconstrained(INT, &[0x00 | 1, INT as u8])
}

#[test]
fn bit_buffer_unconstrained_whole_number_127() -> Result<(), Error> {
    const INT: i64 = 127;
    unconstrained(INT, &[0x00 | 1, INT as u8])
}

#[test]
fn bit_buffer_unconstrained_whole_number_128() -> Result<(), Error> {
    unconstrained(128, &[0x02, 0x00, 0x80])
}

#[test]
fn bit_buffer_unconstrained_whole_number_255() -> Result<(), Error> {
    unconstrained(255, &[0x02, 0x00, 0xFF])
}

#[test]
fn bit_buffer_unconstrained_whole_number_256() -> Result<(), Error> {
    const INT: i64 = 256;
    unconstrained(
        INT,
        &[
            0x00 | 2,
            ((INT & 0xFF_00) >> 8) as u8,
            ((INT & 0x00_ff) >> 0) as u8,
        ],
    )
}

#[test]
fn bit_buffer_unconstrained_whole_number_65535() -> Result<(), Error> {
    unconstrained(65_535, &[0x03, 0x00, 0xFF, 0xFF])
}

#[test]
fn bit_buffer_unconstrained_whole_number_65536() -> Result<(), Error> {
    unconstrained(65_536, &[0x03, 0x01, 0x00, 0x00])
}

#[test]
fn bit_buffer_unconstrained_whole_number_16777215() -> Result<(), Error> {
    unconstrained(16_777_215, &[0x04, 0x00, 0xFF, 0xFF, 0xFF])
}

#[test]
fn bit_buffer_unconstrained_whole_number_16777216() -> Result<(), Error> {
    const INT: i64 = 16_777_216;
    unconstrained(
        INT,
        &[
            0x00 | 4,
            ((INT & 0xFF_00_00_00) >> 24) as u8,
            ((INT & 0x00_FF_00_00) >> 16) as u8,
            ((INT & 0x00_00_FF_00) >> 8) as u8,
            ((INT & 0x00_00_00_FF) >> 0) as u8,
        ],
    )
}

#[test]
fn bit_buffer_unconstrained_whole_number_4294967295() -> Result<(), Error> {
    unconstrained(4_294_967_295, &[0x05, 0x00, 0xFF, 0xFF, 0xFF, 0xFF])
}

#[test]
fn bit_buffer_unconstrained_whole_number_4294967296() -> Result<(), Error> {
    unconstrained(4_294_967_296, &[0x05, 0x01, 0x00, 0x00, 0x00, 0x00])
}

#[test]
fn bit_buffer_unconstrained_whole_number_i64_max() -> Result<(), Error> {
    const INT: i64 = i64::MAX;
    unconstrained(
        INT,
        &[
            0x00 | 8,
            ((INT as u64 & 0xFF_00_00_00_00_00_00_00_u64) >> 56) as u8,
            ((INT as u64 & 0x00_FF_00_00_00_00_00_00_u64) >> 48) as u8,
            ((INT as u64 & 0x00_00_FF_00_00_00_00_00_u64) >> 40) as u8,
            ((INT as u64 & 0x00_00_00_FF_00_00_00_00_u64) >> 32) as u8,
            ((INT as u64 & 0x00_00_00_00_FF_00_00_00_u64) >> 24) as u8,
            ((INT as u64 & 0x00_00_00_00_00_FF_00_00_u64) >> 16) as u8,
            ((INT as u64 & 0x00_00_00_00_00_00_FF_00_u64) >> 8) as u8,
            ((INT as u64 & 0x00_00_00_00_00_00_00_FF_u64) >> 0) as u8,
        ],
    )
}

#[test]
fn bit_buffer_write_constrained_whole_number_detects_not_in_range_positive_only() {
    let mut buffer = BitBuffer::default();
    assert_eq!(
        buffer.write_constrained_whole_number(10, 127, 0),
        Err(ErrorKind::ValueNotInRange(0, 10, 127).into())
    );
    assert_eq!(
        buffer.write_constrained_whole_number(10, 127, 128),
        Err(ErrorKind::ValueNotInRange(128, 10, 127).into())
    );
}

#[test]
fn bit_buffer_write_constrained_whole_number_detects_not_in_range_negative() {
    let mut buffer = BitBuffer::default();
    assert_eq!(
        buffer.write_constrained_whole_number(-10, -1, -11),
        Err(ErrorKind::ValueNotInRange(-11, -10, -1).into())
    );
    assert_eq!(
        buffer.write_constrained_whole_number(-10, -1, 0),
        Err(ErrorKind::ValueNotInRange(0, -10, -1).into())
    );
}

#[test]
fn bit_buffer_write_constrained_whole_number_detects_not_in_range_with_negative() {
    let mut buffer = BitBuffer::default();
    assert_eq!(
        buffer.write_constrained_whole_number(-10, 1, -11),
        Err(ErrorKind::ValueNotInRange(-11, -10, 1).into())
    );
    assert_eq!(
        buffer.write_constrained_whole_number(-10, 1, 2),
        Err(ErrorKind::ValueNotInRange(2, -10, 1).into())
    );
}

fn check_constrained_whole_number(
    buffer: &mut BitBuffer,
    int: i64,
    range: (i64, i64),
) -> Result<(), Error> {
    {
        let mut buffer2 = BitBuffer::from_bits(buffer.content().into(), buffer.bit_len());
        assert_eq!(int, buffer2.read_constrained_whole_number(range.0, range.1)?);
    }
    assert_eq!(int, buffer.read_constrained_whole_number(range.0, range.1)?);
    Ok(())
}

#[test]
fn bit_buffer_constrained_whole_number_7bits() -> Result<(), Error> {
    const INT: i64 = 10;
    const RANGE: (i64, i64) = (0, 127);
    let mut buffer = BitBuffer::default();
    buffer.write_constrained_whole_number(RANGE.0, RANGE.1, INT)?;
    assert_eq!(buffer.content(), &[(INT as u8) << 1]);
    check_constrained_whole_number(&mut buffer, INT, RANGE)?;
    buffer.write_bit(true)?;
    assert_eq!(buffer.content(), &[(INT as u8) << 1 | 0b0000_0001]);
    Ok(())
}

#[test]
fn bit_buffer_constrained_whole_number_neg() -> Result<(), Error> {
    const INT: i64 = -10;
    const RANGE: (i64, i64) = (-128, 127);
    let mut buffer = BitBuffer::default();
    buffer.write_constrained_whole_number(RANGE.0, RANGE.1, INT)?;
    assert_eq!(buffer.content(), &[(INT - RANGE.0) as u8]);
    check_constrained_whole_number(&mut buffer, INT, RANGE)?;
    Ok(())
}

#[test]
fn bit_buffer_constrained_whole_number_neg_extended_range() -> Result<(), Error> {
    const INT: i64 = -10;
    const RANGE: (i64, i64) = (-128, 128);
    let mut buffer = BitBuffer::default();
    buffer.write_constrained_whole_number(RANGE.0, RANGE.1, INT)?;
    assert_eq!(
        buffer.content(),
        &[
            ((INT - RANGE.0) as u8) >> 1,
            (((INT - RANGE.0) as u8) << 7) | 0b0000_0000
        ]
    );
    buffer.write_bit(true)?;
    assert_eq!(
        buffer.content(),
        &[
            ((INT - RANGE.0) as u8) >> 1,
            ((INT - RANGE.0) as u8) << 7 | 0b0100_0000
        ]
    );
    check_constrained_whole_number(&mut buffer, INT, RANGE)?;
    Ok(())
}

#[test]
fn bit_buffer_write_choice_index_extensible() -> Result<(), Error> {
    fn write_once(index: u64, no_of_default_variants: u64) -> Result<(usize, Vec<u8>), Error> {
        let mut buffer = BitBuffer::default();
        buffer.write_choice_index(no_of_default_variants, true, index)?;
        let bits = buffer.bit_len();
        Ok((bits, buffer.into_bytes()))
    }
    assert_eq!((2, vec![0x00]), write_once(0, 2)?);
    assert_eq!((2, vec![0x40]), write_once(1, 2)?);
    assert_eq!((8, vec![0x80]), write_once(2, 2)?);
    assert_eq!((8, vec![0x81]), write_once(3, 2)?);
    Ok(())
}

#[test]
fn bit_buffer_read_choice_index_extensible() -> Result<(), Error> {
    fn read_once(data: &[u8], bits: usize, no_of_variants: u64) -> Result<u64, Error> {
        let mut buffer = BitBuffer::default();
        buffer.write_bits_with_len(data, bits)?;
        buffer.read_choice_index(no_of_variants, true)
    }
    assert_eq!(0, read_once(&[0x00], 2, 2)?);
    assert_eq!(1, read_once(&[0x40], 2, 2)?);
    assert_eq!(2, read_once(&[0x80], 8, 2)?);
    assert_eq!(3, read_once(&[0x81], 8, 2)?);
    Ok(())
}

#[test]
fn bits_read_a_slice() {
    let bytes = [0b1010_0000_u8, 0xFF];
    let mut bits = Bits::from_slice_with_len(&bytes[..], 3);
    assert_eq!(3, bits.len());
    assert_eq!(3, bits.remaining());
    assert!(bits.read_bit().unwrap());
    assert!(!bits.read_bit().unwrap());
    assert!(bits.read_bit().unwrap());
    assert_eq!(ErrorKind::EndOfStream, *bits.read_bit().unwrap_err().kind());
    assert_eq!(1, bits.set_pos(1));
    assert_eq!(3, bits.set_pos(100));
    assert_eq!(16, bits.set_len(100));
    let mut dst = [0_u8; 2];
    bits.set_pos(4);
    bits.read_bits_with_offset_len(&mut dst[..], 0, 12).unwrap();
    assert_eq!([0x0F, 0xF0], dst);
    assert_eq!(16, bits.pos());
    let mut buffer = BitBuffer::default();
    buffer.write_bit(true).unwrap();
    let mut from_buffer = Bits::from_buffer(&buffer);
    assert_eq!(1, from_buffer.len());
    assert!(from_buffer.read_bit().unwrap());
    assert_eq!(16, Bits::from_slice(&bytes[..]).len());
}
