use asn1rs::io::buffer::BitBuffer;
use asn1rs::io::per::unaligned::buffer::BitBuffer as PackedBitBuffer;
use asn1rs::io::uper::{Error as UperError, BYTE_LEN};

const SIZE_BITS: usize = 100 * BYTE_LEN;

/// A buffer of alternating bits, already read up to `pos`, a destination of zeros and a buffer
/// to write to that starts at `pos` as well.
fn bit_buffer(size: usize, pos: usize) -> (BitBuffer, Vec<u8>, BitBuffer) {
    let len = size + if pos > 0 { 1 } else { 0 };
    let mut bits = BitBuffer::from_bytes(vec![0b0101_0101_u8.wrapping_shl(pos as u32 % 2); len]);
    for _ in 0..pos {
        bits.read_bit().unwrap();
    }
    (
        bits,
        vec![0_u8; len],
        BitBuffer::from_bits_with_position(vec![0_u8; len], pos, pos),
    )
}

fn check_result(bits: &mut BitBuffer, offset: usize, len: usize) {
    for i in 0..offset {
        assert!(!bits.read_bit().unwrap(), "offset i={}, offset={}", i, offset);
    }
    for i in 0..len {
        assert_eq!(i % 2 == 1, bits.read_bit().unwrap(), "data i={}, offset={}", i, offset);
    }
}

/// Copies bit by bit, as a reader and writer without bulk operations would.
fn legacy_bit_buffer(size_bits: usize, offset: usize, pos: usize) -> (Vec<u8>, BitBuffer) {
    let (mut bits, mut dest, mut write) = bit_buffer(
        (size_bits + (BYTE_LEN - 1)) / BYTE_LEN + if offset > 0 { 1 } else { 0 },
        pos,
    );
    for bit in offset..offset + size_bits {
        let byte_pos = bit / BYTE_LEN;
        let bit_pos = BYTE_LEN - (bit % BYTE_LEN) - 1;
        if bits.read_bit().unwrap() {
            dest[byte_pos] |= 0x01 << bit_pos;
        } else {
            dest[byte_pos] &= !(0x01 << bit_pos);
        }
    }
    for bit in offset..offset + size_bits {
        let byte_pos = bit / BYTE_LEN;
        let bit_pos = BYTE_LEN - (bit % BYTE_LEN) - 1;
        write.write_bit((dest[byte_pos] >> bit_pos) & 0x01 == 0x01).unwrap();
    }
    (dest, write)
}

fn new_bit_buffer(size_bits: usize, offset: usize, pos: usize) -> (Vec<u8>, BitBuffer) {
    let (mut bits, mut dest, mut write) = bit_buffer(
        (size_bits + (BYTE_LEN - 1)) / BYTE_LEN + if offset > 0 { 1 } else { 0 },
        pos,
    );
    bits.read_bit_string(&mut dest[..], offset, size_bits).unwrap();
    write.write_bit_string(&dest[..], offset, size_bits).unwrap();
    (dest, write)
}

fn legacy_bit_buffer_with_check(size_bits: usize, offset: usize, pos: usize) {
    let (bits, mut written) = legacy_bit_buffer(size_bits, offset, pos);
    check_result(&mut BitBuffer::from_bytes(bits), offset, size_bits);
    check_result(&mut written, 0, size_bits);
}

fn new_bit_buffer_with_check(size_bits: usize, offset: usize, pos: usize) {
    let (bits, mut written) = new_bit_buffer(size_bits, offset, pos);
    check_result(&mut BitBuffer::from_bytes(bits), offset, size_bits);
    check_result(&mut written, 0, size_bits);
}

#[test]
fn test_legacy_bit_string_offset_0_to_7_pos_0_to_7() {
    for offset in 0..BYTE_LEN {
        for pos in 0..BYTE_LEN {
            legacy_bit_buffer_with_check(SIZE_BITS, offset, pos)
        }
    }
}

#[test]
fn test_new_bit_string_offset_0_to_7_pos_0_to_7() {
    for offset in 0..BYTE_LEN {
        for pos in 0..BYTE_LEN {
            new_bit_buffer_with_check(SIZE_BITS, offset, pos)
        }
    }
}

#[test]
fn buffer_bit_buffer_write_bit_keeps_correct_order() -> Result<(), UperError> {
    let mut buffer = BitBuffer::default();

    buffer.write_bit(true)?;
    buffer.write_bit(false)?;
    buffer.write_bit(false)?;
    buffer.write_bit(true)?;

    buffer.write_bit(true)?;
    buffer.write_bit(true)?;
    buffer.write_bit(true)?;
    buffer.write_bit(false)?;

    assert_eq!(buffer.content(), &[0b1001_1110]);

    buffer.write_bit(true)?;
    buffer.write_bit(false)?;
    buffer.write_bit(true)?;
    buffer.write_bit(true)?;

    buffer.write_bit(true)?;
    buffer.write_bit(true)?;
    buffer.write_bit(true)?;
    buffer.write_bit(false)?;

    assert_eq!(buffer.content(), &[0b1001_1110, 0b1011_1110]);

    buffer.write_bit(true)?;
    buffer.write_bit(false)?;
    buffer.write_bit(true)?;
    buffer.write_bit(false)?;

    assert_eq!(buffer.content(), &[0b1001_1110, 0b1011_1110, 0b1010_0000]);

    let mut buffer = BitBuffer::from_bits(buffer.content().into(), buffer.bit_len());
    assert!(buffer.read_bit()?);
    assert!(!buffer.read_bit()?);
    assert!(!buffer.read_bit()?);
    assert!(buffer.read_bit()?);

    assert!(buffer.read_bit()?);
    assert!(buffer.read_bit()?);
    assert!(buffer.read_bit()?);
    assert!(!buffer.read_bit()?);

    assert!(buffer.read_bit()?);
    assert!(!buffer.read_bit()?);
    assert!(buffer.read_bit()?);
    assert!(buffer.read_bit()?);

    assert!(buffer.read_bit()?);
    assert!(buffer.read_bit()?);
    assert!(buffer.read_bit()?);
    assert!(!buffer.read_bit()?);

    assert!(buffer.read_bit()?);
    assert!(!buffer.read_bit()?);
    assert!(buffer.read_bit()?);
    assert!(!buffer.read_bit()?);

    assert_eq!(buffer.read_bit(), Err(UperError::EndOfStream));

    Ok(())
}

fn check_int_max(buffer: &mut BitBuffer, int: i64) -> Result<(), UperError> {
    {
        let mut buffer2 = BitBuffer::from_bits(buffer.content().into(), buffer.bit_len());
        assert_eq!(int, buffer2.read_int_max_signed()?);
    }
    assert_eq!(int, buffer.read_int_max_signed()?);
    Ok(())
}

#[test]
fn bit_buffer_int_max_neg_12() -> Result<(), UperError> {
    const INT: i64 = -12;
    let mut buffer = BitBuffer::default();
    buffer.write_int_max_signed(INT)?;
    assert_eq!(buffer.content(), &[0x00 | 1, INT as u8]);
    check_int_max(&mut buffer, INT)?;
    Ok(())
}

#[test]
fn bit_buffer_int_max_0() -> Result<(), UperError> {
    const INT: i64 = 0;
    let mut buffer = BitBuffer::default();
    buffer.write_int_max_signed(INT)?;
    assert_eq!(buffer.content(), &[0x00 | 1, INT as u8]);
    check_int_max(&mut buffer, INT)?;
    Ok(())
}

#[test]
fn bit_buffer_int_max_127() -> Result<(), UperError> {
    const INT: i64 = 127;
    let mut buffer = BitBuffer::default();
    buffer.write_int_max_signed(INT)?;
    assert_eq!(buffer.content(), &[0x00 | 1, INT as u8]);
    check_int_max(&mut buffer, INT)?;
    Ok(())
}

#[test]
fn bit_buffer_int_max_128() -> Result<(), UperError> {
    const INT: i64 = 128;
    let mut buffer = BitBuffer::default();
    buffer.write_int_max_signed(INT)?;
    assert_eq!(buffer.content(), &[0x02, 0x00, 0x80]);
    check_int_max(&mut buffer, INT)?;
    Ok(())
}

#[test]
fn bit_buffer_int_max_255() -> Result<(), UperError> {
    const INT: i64 = 255;
    let mut buffer = BitBuffer::default();
    buffer.write_int_max_signed(INT)?;
    assert_eq!(buffer.content(), &[0x02, 0x00, 0xFF]);
    check_int_max(&mut buffer, INT)?;
    Ok(())
}

#[test]
fn bit_buffer_int_max_256() -> Result<(), UperError> {
    const INT: i64 = 256;
    let mut buffer = BitBuffer::default();
    buffer.write_int_max_signed(INT)?;
    assert_eq!(
        buffer.content(),
        &[
            0x00 | 2,
            ((INT & 0xFF_00) >> 8) as u8,
            ((INT & 0x00_ff) >> 0) as u8,
        ]
    );
    check_int_max(&mut buffer, INT)?;
    Ok(())
}

#[test]
fn bit_buffer_int_max_65535() -> Result<(), UperError> {
    const INT: i64 = 65_535;
    let mut buffer = BitBuffer::default();
    buffer.write_int_max_signed(INT)?;
    assert_eq!(buffer.content(), &[0x03, 0x00, 0xFF, 0xFF]);
    check_int_max(&mut buffer, INT)?;
    Ok(())
}

#[test]
fn bit_buffer_int_max_65536() -> Result<(), UperError> {
    const INT: i64 = 65_536;
    let mut buffer = BitBuffer::default();
    buffer.write_int_max_signed(INT)?;
    assert_eq!(buffer.content(), &[0x03, 0x01, 0x00, 0x00]);
    check_int_max(&mut buffer, INT)?;
    Ok(())
}

#[test]
fn bit_buffer_int_max_16777215() -> Result<(), UperError> {
    const INT: i64 = 16_777_215;
    let mut buffer = BitBuffer::default();
    buffer.write_int_max_signed(INT)?;
    assert_eq!(buffer.content(), &[0x04, 0x00, 0xFF, 0xFF, 0xFF]);
    check_int_max(&mut buffer, INT)?;
    Ok(())
}

#[test]
fn bit_buffer_int_max_16777216() -> Result<(), UperError> {
    const INT: i64 = 16_777_216;
    let mut buffer = BitBuffer::default();
    buffer.write_int_max_signed(INT)?;
    assert_eq!(
        buffer.content(),
        &[
            0x00 | 4,
            ((INT & 0xFF_00_00_00) >> 24) as u8,
            ((INT & 0x00_FF_00_00) >> 16) as u8,
            ((INT & 0x00_00_FF_00) >> 8) as u8,
            ((INT & 0x00_00_00_FF) >> 0) as u8,
        ]
    );
    check_int_max(&mut buffer, INT)?;
    Ok(())
}

#[test]
fn bit_buffer_int_max_4294967295() -> Result<(), UperError> {
    const INT: i64 = 4_294_967_295;
    let mut buffer = BitBuffer::default();
    buffer.write_int_max_signed(INT)?;
    assert_eq!(buffer.content(), &[0x05, 0x00, 0xFF, 0xFF, 0xFF, 0xFF]);
    check_int_max(&mut buffer, INT)?;
    Ok(())
}

#[test]
fn bit_buffer_int_max_4294967296() -> Result<(), UperError> {
    const INT: i64 = 4_294_967_296;
    let mut buffer = BitBuffer::default();
    buffer.write_int_max_signed(INT)?;
    assert_eq!(buffer.content(), &[0x05, 0x01, 0x00, 0x00, 0x00, 0x00]);
    check_int_max(&mut buffer, INT)?;
    Ok(())
}

#[test]
fn bit_buffer_int_max_i64_max() -> Result<(), UperError> {
    const INT: i64 = i64::MAX;
    let mut buffer = BitBuffer::default();
    buffer.write_int_max_signed(INT)?;
    assert_eq!(
        buffer.content(),
        &[
            0x00 | 8,
            ((INT as u64 & 0xFF_00_00_00_00_00_00_00_u64) >> 56) as u8,
            ((INT as u64 & 0x00_FF_00_00_00_00_00_00_u64) >> 48) as u8,
            ((INT as u64 & 0x00_00_FF_00_00_00_00_00_u64) >> 40) as u8,
            ((INT as u64 & 0x00_00_00_FF_00_00_00_00_u64) >> 32) as u8,
            ((INT as u64 & 0x00_00_00_00_FF_00_00_00_u64) >> 24) as u8,
            ((INT as u64 & 0x00_00_00_00_00_FF_00_00_u64) >> 16) as u8,
            ((INT as u64 & 0x00_00_00_00_00_00_FF_00_u64) >> 8) as u8,
            ((INT as u64 & 0x00_00_00_00_00_00_00_FF_u64) >> 0) as u8,
        ]
    );
    check_int_max(&mut buffer, INT)?;
    Ok(())
}

#[test]
fn test_int_normally_small_254() -> Result<(), UperError> {
    let mut buffer = BitBuffer::default();
    buffer.write_int_normally_small(254)?;
    assert_eq!(
        &[0b1_000_0000, 0b1__111_1111, 0b0_000_0000],
        &buffer.content()
    );
    Ok(())
}

#[test]
fn test_write_choice_index_extensible() -> Result<(), UperError> {
    fn write_once(index: u64, no_of_default_variants: u64) -> Result<(usize, Vec<u8>), UperError> {
        let mut buffer = BitBuffer::default();
        buffer.write_choice_index_extensible(index, no_of_default_variants)?;
        let bits = buffer.bit_len();
        Ok((bits, buffer.into_bytes()))
    }
    assert_eq!((2, vec![0x00]), write_once(0, 2)?);
    assert_eq!((2, vec![0x40]), write_once(1, 2)?);
    assert_eq!((8, vec![0x80]), write_once(2, 2)?);
    assert_eq!((8, vec![0x81]), write_once(3, 2)?);
    Ok(())
}

#[test]
fn test_read_choice_index_extensible() -> Result<(), UperError> {
    fn read_once(data: &[u8], bits: usize, no_of_variants: u64) -> Result<u64, UperError> {
        let mut buffer = BitBuffer::default();
        buffer.write_bit_string(data, 0, bits)?;
        buffer.read_choice_index_extensible(no_of_variants)
    }
    assert_eq!(0, read_once(&[0x00], 2, 2)?);
    assert_eq!(1, read_once(&[0x40], 2, 2)?);
    assert_eq!(2, read_once(&[0x80], 8, 2)?);
    assert_eq!(3, read_once(&[0x81], 8, 2)?);
    Ok(())
}

#[test]
fn legacy_int_normally_small_roundtrip() -> Result<(), UperError> {
    for value in [0_u64, 5, 60, 63, 64, 254, 1 << 40] {
        let mut buffer = BitBuffer::default();
        buffer.write_int_normally_small(value)?;
        assert_eq!(value, buffer.read_int_normally_small()?);
    }
    let mut buffer = BitBuffer::default();
    buffer.write_int_normally_small(5)?;
    assert_eq!(&[0b0000_101_0], &buffer.content());
    Ok(())
}

#[test]
fn legacy_int_and_length_determinant() -> Result<(), UperError> {
    let mut buffer = BitBuffer::default();
    assert_eq!(
        buffer.write_int(0, (10, 127)),
        Err(UperError::ValueNotInRange(0, 10, 127))
    );
    assert_eq!(
        buffer.write_int(2, (-10, 1)),
        Err(UperError::ValueNotInRange(2, -10, 1))
    );
    buffer.write_int(-10, (-128, 128))?;
    assert_eq!(buffer.content(), &[118 >> 1, 118 << 7]);
    assert_eq!(-10, buffer.read_int((-128, 128))?);

    let mut buffer = BitBuffer::default();
    buffer.write_length_determinant(128)?;
    assert_eq!(buffer.content(), &[0x80, 0x80]);
    assert_eq!(128, buffer.read_length_determinant()?);
    assert!(matches!(
        buffer.write_length_determinant(16384),
        Err(UperError::UnsupportedOperation(_))
    ));
    assert_eq!(buffer.read_bit(), Err(UperError::EndOfStream));

    let mut buffer = BitBuffer::from_bytes(vec![0xC0]);
    assert!(matches!(
        buffer.read_length_determinant(),
        Err(UperError::UnsupportedOperation(_))
    ));
    Ok(())
}

#[test]
fn legacy_int_max_unsigned() -> Result<(), UperError> {
    let mut buffer = BitBuffer::default();
    buffer.write_int_max(255)?;
    assert_eq!(buffer.content(), &[0x01, 0xFF]);
    assert_eq!(255, buffer.read_int_max()?);
    assert_eq!(
        buffer.write_int_max(u64::MAX),
        Err(UperError::ValueNotInRange(-1, 0, i64::MAX))
    );
    Ok(())
}

#[test]
fn legacy_read_bit_string_stops_at_write_position() {
    let mut buffer = BitBuffer::from_bits(vec![0xFF, 0xFF], 4);
    let mut dest = [0_u8; 2];
    assert_eq!(
        buffer.read_bit_string(&mut dest[..], 0, 8),
        Err(UperError::EndOfStream)
    );
    assert_eq!(dest, [0xF0, 0x00]);
    assert_eq!(
        buffer.read_bit_string(&mut dest[..], 10, 8),
        Err(UperError::InsufficientSpaceInDestinationBuffer)
    );
}

#[test]
fn bit_buffer_bit_string_till_end() -> Result<(), UperError> {
    let content = &[0xFF, 0x74, 0xA6, 0x0F];
    let mut buffer = BitBuffer::default();
    buffer.write_bit_string_till_end(content, 0)?;
    assert_eq!(buffer.content(), content);

    {
        let mut buffer2 = BitBuffer::from_bits(buffer.content().into(), buffer.bit_len());
        let mut content2 = vec![0_u8; content.len()];
        buffer2.read_bit_string_till_end(&mut content2[..], 0)?;
        assert_eq!(&content[..], &content2[..]);
    }

    let mut content2 = vec![0xFF_u8; content.len()];
    buffer.read_bit_string_till_end(&mut content2[..], 0)?;
    assert_eq!(&content[..], &content2[..]);

    Ok(())
}

#[test]
fn bit_buffer_bit_string_till_end_with_offset() -> Result<(), UperError> {
    let content = &[0b1111_1111, 0b0111_0100, 0b1010_0110, 0b0000_1111];
    let mut buffer = BitBuffer::default();
    buffer.write_bit_string_till_end(content, 7)?;
    assert_eq!(
        buffer.content(),
        &[0b1011_1010, 0b0101_0011, 0b0000_0111, 0b1000_0000]
    );

    {
        let mut buffer2 = BitBuffer::from_bits(buffer.content().into(), buffer.bit_len());
        let mut content2 = vec![0xFF_u8; content.len()];
        content2[0] = content[0] & 0b1111_1110;
        buffer2.read_bit_string_till_end(&mut content2[..], 7)?;
        assert_eq!(&content[..], &content2[..]);
    }

    let mut content2 = vec![0_u8; content.len()];
    content2[0] = content[0] & 0b1111_1110;
    buffer.read_bit_string_till_end(&mut content2[..], 7)?;
    assert_eq!(&content[..], &content2[..]);

    Ok(())
}

#[test]
fn bit_buffer_bit_string() -> Result<(), UperError> {
    let content = &[0b1111_1111, 0b0111_0100, 0b1010_0110, 0b0000_1111];
    let mut buffer = BitBuffer::default();
    buffer.write_bit_string(content, 7, 12)?;
    assert_eq!(buffer.content(), &[0b1011_1010, 0b0101_0000]);

    {
        let mut buffer2 = BitBuffer::from_bits(buffer.content().into(), buffer.bit_len());
        let mut content2 = vec![0_u8; content.len()];
        let content = &[
            content[0] & 0x01,
            content[1],
            content[2] & 0b1110_0000,
            0x00,
        ];
        buffer2.read_bit_string(&mut content2[..], 7, 12)?;
        assert_eq!(&content[..], &content2[..]);
    }

    let mut content2 = vec![0x00_u8; content.len()];
    let content = &[
        content[0] & 0x01,
        content[1],
        content[2] & 0b1110_0000,
        0x00,
    ];
    buffer.read_bit_string(&mut content2[..], 7, 12)?;
    assert_eq!(&content[..], &content2[..]);

    Ok(())
}

fn check_length_determinant(det: usize, expected: &[u8]) -> Result<(), UperError> {
    let mut buffer = BitBuffer::default();
    buffer.write_length_determinant(det)?;
    assert_eq!(buffer.content(), expected);
    {
        let mut buffer2 = BitBuffer::from_bits(buffer.content().into(), buffer.bit_len());
        assert_eq!(det, buffer2.read_length_determinant()?);
    }
    assert_eq!(det, buffer.read_length_determinant()?);
    check_packed_length_determinant(det as u64, expected);
    Ok(())
}

/// The same length determinant through the packed encoding's buffer.
fn check_packed_length_determinant(det: u64, expected: &[u8]) {
    let mut buffer = PackedBitBuffer::default();
    buffer.write_length_determinant(None, None, det).unwrap();
    assert_eq!(buffer.content(), expected);
    {
        let mut buffer2 = PackedBitBuffer::from_bits(buffer.content().into(), buffer.bit_len());
        assert_eq!(det, buffer2.read_length_determinant(None, None).unwrap());
    }
    assert_eq!(det, buffer.read_length_determinant(None, None).unwrap());
}

#[test]
fn buffer_bit_buffer_length_determinant_0() -> Result<(), UperError> {
    const DET: usize = 0;
    check_length_determinant(DET, &[0x00 | DET as u8])
}

#[test]
fn buffer_bit_buffer_length_determinant_1() -> Result<(), UperError> {
    const DET: usize = 1;
    check_length_determinant(DET, &[0x00 | DET as u8])
}

#[test]
fn buffer_bit_buffer_length_determinant_127() -> Result<(), UperError> {
    const DET: usize = 126;
    check_length_determinant(DET, &[0x00 | DET as u8])
}

#[test]
fn buffer_bit_buffer_length_determinant_128() -> Result<(), UperError> {
    const DET: usize = 128;
    check_length_determinant(DET, &[0x80 | 0x00, 0x00 | DET as u8])
}

#[test]
fn buffer_bit_buffer_length_determinant_16383() -> Result<(), UperError> {
    const DET: usize = 16383;
    check_length_determinant(DET, &[0x80 | (DET >> 8) as u8, 0x00 | (DET & 0xFF) as u8])
}

#[test]
fn bit_buffer_write_int_detects_not_in_range_positive_only() {
    let mut buffer = BitBuffer::default();
    assert_eq!(
        buffer.write_int(0, (10, 127)),
        Err(UperError::ValueNotInRange(0, 10, 127))
    );
    assert_eq!(
        buffer.write_int(128, (10, 127)),
        Err(UperError::ValueNotInRange(128, 10, 127))
    );
}

#[test]
fn bit_buffer_write_int_detects_not_in_range_negative() {
    let mut buffer = BitBuffer::default();
    assert_eq!(
        buffer.write_int(-11, (-10, -1)),
        Err(UperError::ValueNotInRange(-11, -10, -1))
    );
    assert_eq!(
        buffer.write_int(0, (-10, -1)),
        Err(UperError::ValueNotInRange(0, -10, -1))
    );
}

#[test]
fn bit_buffer_write_int_detects_not_in_range_with_negative() {
    let mut buffer = BitBuffer::default();
    assert_eq!(
        buffer.write_int(-11, (-10, 1)),
        Err(UperError::ValueNotInRange(-11, -10, 1))
    );
    assert_eq!(
        buffer.write_int(2, (-10, 1)),
        Err(UperError::ValueNotInRange(2, -10, 1))
    );
}

fn check_int(buffer: &mut BitBuffer, int: i64, range: (i64, i64)) -> Result<(), UperError> {
    {
        let mut buffer2 = BitBuffer::from_bits(buffer.content().into(), buffer.bit_len());
        assert_eq!(int, buffer2.read_int(range)?);
    }
    assert_eq!(int, buffer.read_int(range)?);
    Ok(())
}

#[test]
fn bit_buffer_int_7bits() -> Result<(), UperError> {
    const INT: i64 = 10;
    const RANGE: (i64, i64) = (0, 127);
    let mut buffer = BitBuffer::default();
    buffer.write_int(INT, RANGE)?;
    assert_eq!(buffer.content(), &[(INT as u8) << 1]);
    check_int(&mut buffer, INT, RANGE)?;
    buffer.write_bit(true)?;
    assert_eq!(buffer.content(), &[(INT as u8) << 1 | 0b0000_0001]);
    Ok(())
}

#[test]
fn bit_buffer_int_neg() -> Result<(), UperError> {
    const INT: i64 = -10;
    const RANGE: (i64, i64) = (-128, 127);
    let mut buffer = BitBuffer::default();
    buffer.write_int(INT, RANGE)?;
    assert_eq!(buffer.content(), &[(INT - RANGE.0) as u8]);
    check_int(&mut buffer, INT, RANGE)?;
    Ok(())
}

#[test]
fn bit_buffer_int_neg_extended_range() -> Result<(), UperError> {
    const INT: i64 = -10;
    const RANGE: (i64, i64) = (-128, 128);
    let mut buffer = BitBuffer::default();
    buffer.write_int(INT, RANGE)?;
    assert_eq!(
        buffer.content(),
        &[
            ((INT - RANGE.0) as u8) >> 1,
            (((INT - RANGE.0) as u8) << 7) | 0b0000_0000
        ]
    );
    buffer.write_bit(true)?;
    assert_eq!(
        buffer.content(),
        &[
            ((INT - RANGE.0) as u8) >> 1,
            ((INT - RANGE.0) as u8) << 7 | 0b0100_0000
        ]
    );
    check_int(&mut buffer, INT, RANGE)?;
    Ok(())
}

#[test]
fn test_int_normally_small_5() -> Result<(), UperError> {
    let mut buffer = BitBuffer::default();
    buffer.write_int_normally_small(5)?;
    assert_eq!(&[0b0000_101_0], &buffer.content());
    assert_eq!(5, buffer.read_int_normally_small()?);
    Ok(())
}

#[test]
fn test_int_normally_small_60() -> Result<(), UperError> {
    let mut buffer = BitBuffer::default();
    buffer.write_int_normally_small(60)?;
    assert_eq!(&[0b0111_100_0], &buffer.content());
    assert_eq!(60, buffer.read_int_normally_small()?);
    Ok(())
}

#[test]
fn uper_octet_string_roundtrip() -> Result<(), UperError> {
    let mut buffer = BitBuffer::default();
    buffer.write_octet_string(&[0x12, 0x34], None)?;
    buffer.write_octet_string(&[0xAB], Some((0, 3)))?;
    assert_eq!(buffer.content(), &[0x02, 0x12, 0x34, 0b0110_1010, 0b1100_0000]);
    assert_eq!(vec![0x12, 0x34], buffer.read_octet_string(None)?);
    assert_eq!(vec![0xAB], buffer.read_octet_string(Some((0, 3)))?);
    assert_eq!(Err(UperError::EndOfStream), buffer.read_octet_string(None));
    Ok(())
}

#[test]
fn uper_octet_string_length_out_of_range() {
    let mut buffer = BitBuffer::default();
    assert_eq!(
        Err(UperError::ValueNotInRange(3, 0, 2)),
        buffer.write_octet_string(&[1, 2, 3], Some((0, 2)))
    );
    assert_eq!(0, buffer.bit_len());
    assert!(matches!(
        buffer.write_octet_string(&vec![0_u8; 16384], None),
        Err(UperError::UnsupportedOperation(_))
    ));
}

#[test]
fn uper_octet_string_longer_than_what_was_written() {
    let mut buffer = BitBuffer::default();
    buffer.write_length_determinant(3).unwrap();
    buffer.write_bit_string(&[0xFF], 0, 8).unwrap();
    assert_eq!(Err(UperError::EndOfStream), buffer.read_octet_string(None));
}

#[test]
fn uper_utf8_string_roundtrip() -> Result<(), UperError> {
    let mut buffer = BitBuffer::default();
    buffer.write_bit(true)?;
    buffer.write_utf8_string("hällo")?;
    assert!(buffer.read_bit()?);
    assert_eq!("hällo", buffer.read_utf8_string()?);
    let mut invalid = BitBuffer::default();
    invalid.write_octet_string(&[0xFF, 0xFE], None)?;
    assert_eq!(Err(UperError::InvalidUtf8String), invalid.read_utf8_string());
    Ok(())
}

#[test]
fn uper_length_determinant_beyond_two_octets_is_refused_with_a_message() {
    let mut buffer = BitBuffer::default();
    assert_eq!(
        Err(UperError::UnsupportedOperation(
            "Writing length determinant for lengths > 16383 is unsupported, tried for length 16384"
                .to_string()
        )),
        buffer.write_length_determinant(16384)
    );
    assert_eq!(0, buffer.bit_len());
}
