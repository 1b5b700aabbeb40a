//! Bit level access to byte slices. Bits are numbered from the most significant bit of the
//! first byte onwards: bit `i` is bit `i % 8` (counted from the most significant one) of byte
//! `i / 8`.
use vstd::prelude::*;
use crate::io::per::err::{Error, ErrorKind};

verus! {

/// Number of bits in one octet.
pub const BYTE_LEN: usize = 8;

/// Whether bit `k` of `b` is set, where bit 0 is the most significant bit.
pub open spec fn byte_bit(b: u8, k: int) -> bool {
    b & (0x80u8 >> (k as u8)) != 0u8
}

/// Bit `i` of a byte sequence, counted from the most significant bit of the first byte.
pub open spec fn bit_of(bytes: Seq<u8>, i: int) -> bool {
    byte_bit(bytes[i / 8], i % 8)
}

/// All bits of a byte sequence, most significant bit of the first byte first.
pub open spec fn bits_view(bytes: Seq<u8>) -> Seq<bool> {
    Seq::new((bytes.len() * 8) as nat, |i: int| bit_of(bytes, i))
}

/// The bits of `dst` after `len` bits of `src` starting at `src_pos` were copied to `dst`
/// starting at `dst_pos`: copied bits equal their source, every other bit of `dst` is kept.
pub open spec fn copied_bits(
    src: Seq<u8>,
    src_pos: int,
    old_dst: Seq<u8>,
    new_dst: Seq<u8>,
    dst_pos: int,
    len: int,
) -> bool {
    &&& new_dst.len() == old_dst.len()
    &&& forall|i: int|
        0 <= i < new_dst.len() * 8 ==> #[trigger] bit_of(new_dst, i) == if dst_pos <= i < dst_pos
            + len {
            bit_of(src, src_pos + (i - dst_pos))
        } else {
            bit_of(old_dst, i)
        }
}

pub proof fn lemma_div_mod_8(i: int)
    requires
        0 <= i,
    ensures
        i == 8 * (i / 8) + i % 8,
        0 <= i % 8 < 8,
        0 <= i / 8,
{
}

/// Two positions with the same byte index and the same bit index are equal.
pub proof fn lemma_same_byte_bit(i: int, j: int)
    requires
        0 <= i,
        0 <= j,
    ensures
        (i / 8 == j / 8 && i % 8 == j % 8) <==> i == j,
        i / 8 == j / 8 ==> (i - j < 8 && j - i < 8),
{
}

pub proof fn lemma_byte_set(b: u8, k: u8, j: u8)
    requires
        k < 8,
        j < 8,
    ensures
        ((b | (0x80u8 >> k)) & (0x80u8 >> j) != 0u8) == (j == k || b & (0x80u8 >> j) != 0u8),
{
    assert(k < 8 && j < 8 ==> (((b | (0x80u8 >> k)) & (0x80u8 >> j) != 0u8) == (j == k || b & (
    0x80u8 >> j) != 0u8))) by (bit_vector);
}

pub proof fn lemma_byte_clear(b: u8, k: u8, j: u8)
    requires
        k < 8,
        j < 8,
    ensures
        ((b & !(0x80u8 >> k)) & (0x80u8 >> j) != 0u8) == (j != k && b & (0x80u8 >> j) != 0u8),
{
    assert(k < 8 && j < 8 ==> (((b & !(0x80u8 >> k)) & (0x80u8 >> j) != 0u8) == (j != k && b & (
    0x80u8 >> j) != 0u8))) by (bit_vector);
}

pub proof fn lemma_low_shift(k: u8)
    requires
        k < 8,
    ensures
        0x01u8 << ((7 - k) as u8) == 0x80u8 >> k,
{
    assert(k < 8 ==> 0x01u8 << ((7 - k) as u8) == 0x80u8 >> k) by (bit_vector);
}

/// Setting bit `k` of a byte changes only that bit.
pub proof fn lemma_byte_bit_set(b: u8, k: int, j: int)
    requires
        0 <= k < 8,
        0 <= j < 8,
    ensures
        byte_bit(b | (0x80u8 >> (k as u8)), j) == (j == k || byte_bit(b, j)),
{
    lemma_byte_set(b, k as u8, j as u8);
}

/// Clearing bit `k` of a byte changes only that bit.
pub proof fn lemma_byte_bit_clear(b: u8, k: int, j: int)
    requires
        0 <= k < 8,
        0 <= j < 8,
    ensures
        byte_bit(b & !(0x80u8 >> (k as u8)), j) == (j != k && byte_bit(b, j)),
{
    lemma_byte_clear(b, k as u8, j as u8);
}

/// Bytes with equal bits are equal.
pub proof fn lemma_byte_ext(a: u8, b: u8)
    requires
        forall|j: int| 0 <= j < 8 ==> byte_bit(a, j) == byte_bit(b, j),
    ensures
        a == b,
{
    assert(byte_bit(a, 0) == byte_bit(b, 0));
    assert(byte_bit(a, 1) == byte_bit(b, 1));
    assert(byte_bit(a, 2) == byte_bit(b, 2));
    assert(byte_bit(a, 3) == byte_bit(b, 3));
    assert(byte_bit(a, 4) == byte_bit(b, 4));
    assert(byte_bit(a, 5) == byte_bit(b, 5));
    assert(byte_bit(a, 6) == byte_bit(b, 6));
    assert(byte_bit(a, 7) == byte_bit(b, 7));
    assert((a & 0x80u8 != 0u8) == (b & 0x80u8 != 0u8) && (a & 0x40u8 != 0u8) == (b & 0x40u8 != 0u8)
        && (a & 0x20u8 != 0u8) == (b & 0x20u8 != 0u8) && (a & 0x10u8 != 0u8) == (b & 0x10u8
        != 0u8) && (a & 0x08u8 != 0u8) == (b & 0x08u8 != 0u8) && (a & 0x04u8 != 0u8) == (b
        & 0x04u8 != 0u8) && (a & 0x02u8 != 0u8) == (b & 0x02u8 != 0u8) && (a & 0x01u8 != 0u8)
        == (b & 0x01u8 != 0u8)) by {
        assert(0x80u8 >> 0u8 == 0x80u8) by (bit_vector);
        assert(0x80u8 >> 1u8 == 0x40u8) by (bit_vector);
        assert(0x80u8 >> 2u8 == 0x20u8) by (bit_vector);
        assert(0x80u8 >> 3u8 == 0x10u8) by (bit_vector);
        assert(0x80u8 >> 4u8 == 0x08u8) by (bit_vector);
        assert(0x80u8 >> 5u8 == 0x04u8) by (bit_vector);
        assert(0x80u8 >> 6u8 == 0x02u8) by (bit_vector);
        assert(0x80u8 >> 7u8 == 0x01u8) by (bit_vector);
    }
    assert(((a & 0x80u8 != 0u8) == (b & 0x80u8 != 0u8) && (a & 0x40u8 != 0u8) == (b & 0x40u8
        != 0u8) && (a & 0x20u8 != 0u8) == (b & 0x20u8 != 0u8) && (a & 0x10u8 != 0u8) == (b
        & 0x10u8 != 0u8) && (a & 0x08u8 != 0u8) == (b & 0x08u8 != 0u8) && (a & 0x04u8 != 0u8)
        == (b & 0x04u8 != 0u8) && (a & 0x02u8 != 0u8) == (b & 0x02u8 != 0u8) && (a & 0x01u8
        != 0u8) == (b & 0x01u8 != 0u8)) ==> a == b) by (bit_vector);
}

/// The bits of a sequence after one byte was replaced.
pub proof fn lemma_bit_of_update(s: Seq<u8>, idx: int, v: u8, i: int)
    requires
        0 <= idx < s.len(),
        0 <= i < s.len() * 8,
    ensures
        bit_of(s.update(idx, v), i) == if i / 8 == idx {
            byte_bit(v, i % 8)
        } else {
            bit_of(s, i)
        },
{
    lemma_div_mod_8(i);
}

/// Reads the bit at `*pos` and advances `*pos` by one.
/// Fails with `EndOfStream` when `*pos` lies beyond the end of `src`.
pub fn read_bit(src: &[u8], pos: &mut usize) -> (res: Result<bool, Error>)
    requires
        *old(pos) != src@.len() * 8,
        src@.len() * 8 <= usize::MAX,
    ensures
        *old(pos) > src@.len() * 8 ==> res == Err::<bool, Error>(
            Error { kind: ErrorKind::EndOfStream },
        ) && *final(pos) == *old(pos),
        *old(pos) < src@.len() * 8 ==> res == Ok::<bool, Error>(bit_of(src@, *old(pos) as int))
            && *final(pos) == *old(pos) + 1,
{
    if *pos > src.len() * BYTE_LEN {
        return Err(Error { kind: ErrorKind::EndOfStream });
    }
    let p = *pos;
    let bit = src[p / BYTE_LEN] & (0x80u8 >> ((p % BYTE_LEN) as u8)) != 0;
    *pos = p + 1;
    Ok(bit)
}

/// Writes `bit` at `*pos` and advances `*pos` by one.
/// Fails with `EndOfStream` when no bit is left at `*pos`.
pub fn write_bit(dst: &mut [u8], pos: &mut usize, bit: bool) -> (res: Result<(), Error>)
    requires
        old(dst)@.len() * 8 <= usize::MAX,
        *old(pos) < usize::MAX,
    ensures
        *old(pos) + 1 > old(dst)@.len() * 8 ==> res == Err::<(), Error>(
            Error { kind: ErrorKind::EndOfStream },
        ) && *final(pos) == *old(pos) && final(dst)@ == old(dst)@,
        *old(pos) + 1 <= old(dst)@.len() * 8 ==> res is Ok && *final(pos) == *old(pos) + 1
            && copied_bits(seq![if bit { 0x80u8 } else { 0u8 }], 0, old(dst)@, final(dst)@, *old(pos) as int, 1),
{
    let p = *pos;
    if p + 1 > dst.len() * BYTE_LEN {
        return Err(Error { kind: ErrorKind::EndOfStream });
    }
    let ghost d0 = dst@;
    let idx = p / BYTE_LEN;
    let k = (p % BYTE_LEN) as u8;
    if bit {
        dst[idx] = dst[idx] | (0x80u8 >> k);
    } else {
        dst[idx] = dst[idx] & !(0x80u8 >> k);
    }
    proof {
        let src = seq![if bit { 0x80u8 } else { 0u8 }];
        assert(byte_bit(src[0], 0)  == bit) by {
            assert(0x80u8 & (0x80u8 >> 0u8) != 0u8) by (bit_vector);
            assert(0u8 & (0x80u8 >> 0u8) == 0u8) by (bit_vector);
        }
        assert forall|i: int| 0 <= i < dst@.len() * 8 implies #[trigger] bit_of(dst@, i) == if p <= i
            < p + 1 {
            bit_of(src, 0 + (i - p))
        } else {
            bit_of(d0, i)
        } by {
            lemma_bit_of_update(d0, idx as int, dst@[idx as int], i);
            lemma_div_mod_8(i);
            lemma_same_byte_bit(i, p as int);
            if i / 8 == idx as int {
                if bit {
                    lemma_byte_bit_set(d0[idx as int], k as int, i % 8);
                } else {
                    lemma_byte_bit_clear(d0[idx as int], k as int, i % 8);
                }
            }
        }
        assert(dst@ == d0.update(idx as int, dst@[idx as int]));
    }
    *pos = p + 1;
    Ok(())
}


/// Copies `len` bits of `src`, starting at bit `src_bit_position`, into `dst`, starting at bit
/// `dst_bit_position`, one bit at a time. Every other bit of `dst` is kept.
pub fn bit_string_copy(
    src: &[u8],
    src_bit_position: usize,
    dst: &mut [u8],
    dst_bit_position: usize,
    len: usize,
) -> (res: Result<(), Error>)
    requires
        old(dst)@.len() * 8 <= usize::MAX,
        src@.len() * 8 <= usize::MAX,
        dst_bit_position + len <= usize::MAX,
        src_bit_position + len <= usize::MAX,
    ensures
        old(dst)@.len() * 8 < dst_bit_position + len ==> res == Err::<(), Error>(
            Error { kind: ErrorKind::InsufficientSpaceInDestinationBuffer },
        ) && final(dst)@ == old(dst)@,
        old(dst)@.len() * 8 >= dst_bit_position + len && src@.len() * 8 < src_bit_position + len
            ==> res == Err::<(), Error>(Error { kind: ErrorKind::InsufficientDataInSourceBuffer })
            && final(dst)@ == old(dst)@,
        old(dst)@.len() * 8 >= dst_bit_position + len && src@.len() * 8 >= src_bit_position + len
            ==> res is Ok && copied_bits(
            src@,
            src_bit_position as int,
            old(dst)@,
            final(dst)@,
            dst_bit_position as int,
            len as int,
        ),
{
    if dst.len() * BYTE_LEN < dst_bit_position + len {
        return Err(Error::insufficient_space_in_destination_buffer());
    }
    if src.len() * BYTE_LEN < src_bit_position + len {
        return Err(Error::insufficient_data_in_source_buffer());
    }
    let ghost d0 = dst@;
    let mut bit: usize = 0;
    while bit < len
        invariant
            0 <= bit <= len,
            dst@.len() == d0.len(),
            d0.len() * 8 >= dst_bit_position + len,
            src@.len() * 8 >= src_bit_position + len,
            dst_bit_position + len <= usize::MAX,
            src_bit_position + len <= usize::MAX,
            copied_bits(
                src@,
                src_bit_position as int,
                d0,
                dst@,
                dst_bit_position as int,
                bit as int,
            ),
        decreases len - bit,
    {
        let dst_pos = dst_bit_position + bit;
        let dst_byte_pos = dst_pos / BYTE_LEN;
        let dst_bit_pos = BYTE_LEN - dst_pos % BYTE_LEN - 1;  // flip

        let value = {
            let src_pos = src_bit_position + bit;
            let src_byte_pos = src_pos / BYTE_LEN;
            let src_bit_pos = BYTE_LEN - src_pos % BYTE_LEN - 1;  // flip
            proof {
                lemma_low_shift((src_pos % 8) as u8);
            }
            src[src_byte_pos] & (0x01u8 << (src_bit_pos as u8)) > 0
        };
        let ghost before = dst@;
        proof {
            lemma_low_shift((dst_pos % 8) as u8);
        }
        if value {
            dst[dst_byte_pos] = dst[dst_byte_pos] | (0x01u8 << (dst_bit_pos as u8));
        } else {
            dst[dst_byte_pos] = dst[dst_byte_pos] & !(0x01u8 << (dst_bit_pos as u8));
        }
        proof {
            let k = (dst_pos % 8) as int;
            assert(value == bit_of(src@, (src_bit_position + bit) as int));
            assert(dst@ == before.update(dst_byte_pos as int, dst@[dst_byte_pos as int]));
            assert forall|i: int| 0 <= i < dst@.len() * 8 implies #[trigger] bit_of(dst@, i) == if dst_bit_position
                <= i < dst_bit_position + bit + 1 {
                bit_of(src@, src_bit_position + (i - dst_bit_position))
            } else {
                bit_of(d0, i)
            } by {
                lemma_bit_of_update(before, dst_byte_pos as int, dst@[dst_byte_pos as int], i);
                lemma_div_mod_8(i);
                lemma_same_byte_bit(i, dst_pos as int);
                assert(bit_of(before, i) == if dst_bit_position <= i < dst_bit_position + bit {
                    bit_of(src@, src_bit_position + (i - dst_bit_position))
                } else {
                    bit_of(d0, i)
                });
                if i / 8 == dst_byte_pos as int {
                    if value {
                        lemma_byte_bit_set(before[dst_byte_pos as int], k, i % 8);
                    } else {
                        lemma_byte_bit_clear(before[dst_byte_pos as int], k, i % 8);
                    }
                }
            }
        }
        bit = bit + 1;
    }
    Ok(())
}


pub proof fn lemma_byte_shl(b: u8, off: u8, j: u8)
    requires
        0 < off < 8,
        j < 8,
    ensures
        ((b << ((8 - off) as u8)) & (0x80u8 >> j) != 0u8) == (j < off && b & (0x80u8 >> ((j + 8
            - off) as u8)) != 0u8),
{
    assert(0 < off < 8 && j < 8 ==> (((b << ((8 - off) as u8)) & (0x80u8 >> j) != 0u8) == (j < off
        && b & (0x80u8 >> ((j + 8 - off) as u8)) != 0u8))) by (bit_vector);
}

pub proof fn lemma_byte_keep_high(d: u8, h: u8, off: u8, j: u8)
    requires
        0 < off < 8,
        j < 8,
    ensures
        (((d & (0xFFu8 << ((8 - off) as u8))) | (h >> off)) & (0x80u8 >> j) != 0u8) == if j
            < off {
            d & (0x80u8 >> j) != 0u8
        } else {
            h & (0x80u8 >> ((j - off) as u8)) != 0u8
        },
{
    assert(0 < off < 8 && j < 8 ==> ((((d & (0xFFu8 << ((8 - off) as u8))) | (h >> off)) & (0x80u8
        >> j) != 0u8) == if j < off {
        d & (0x80u8 >> j) != 0u8
    } else {
        h & (0x80u8 >> ((j - off) as u8)) != 0u8
    })) by (bit_vector);
}

/// End (exclusive) of the bits behind a bulk copy that the fast path of
/// [`bit_string_copy_bulked`] clears: the rest of the last byte it writes as a whole. Zero when
/// the fast path clears nothing.
pub open spec fn bulk_cleared_end(src_pos: int, dst_pos: int, len: int) -> int {
    let till = (8 - src_pos % 8) % 8;
    let aligned_dst = dst_pos + till;
    if len > 16 && aligned_dst % 8 != 0 {
        (aligned_dst / 8 + (len - till) / 8 + 1) * 8
    } else {
        0
    }
}

/// The bits of `dst` after a bulk copy of `len` bits: copied bits equal their source, the bits
/// from the end of the copy up to [`bulk_cleared_end`] are cleared, every other bit is kept.
pub open spec fn bulk_copied_bits(
    src: Seq<u8>,
    src_pos: int,
    old_dst: Seq<u8>,
    new_dst: Seq<u8>,
    dst_pos: int,
    len: int,
) -> bool {
    &&& new_dst.len() == old_dst.len()
    &&& forall|i: int|
        0 <= i < new_dst.len() * 8 ==> #[trigger] bit_of(new_dst, i) == if dst_pos <= i < dst_pos
            + len {
            bit_of(src, src_pos + (i - dst_pos))
        } else if dst_pos + len <= i < bulk_cleared_end(src_pos, dst_pos, len) {
            false
        } else {
            bit_of(old_dst, i)
        }
}

/// Copies `byte_len` whole bytes from `src` at `src_byte_index` to `dst` at `dst_byte_index`.
fn copy_aligned_bytes(
    src: &[u8],
    src_byte_index: usize,
    dst: &mut [u8],
    dst_byte_index: usize,
    byte_len: usize,
)
    requires
        old(dst)@.len() * 8 <= usize::MAX,
        src@.len() * 8 <= usize::MAX,
        src_byte_index + byte_len <= src@.len(),
        dst_byte_index + byte_len <= old(dst)@.len(),
    ensures
        copied_bits(
            src@,
            8 * src_byte_index,
            old(dst)@,
            final(dst)@,
            8 * dst_byte_index,
            8 * byte_len,
        ),
{
    let ghost d1 = dst@;
    let mut index: usize = 0;
    while index < byte_len
        invariant
            0 <= index <= byte_len,
            dst@.len() == d1.len(),
            d1.len() * 8 <= usize::MAX,
            src@.len() * 8 <= usize::MAX,
            src_byte_index + byte_len <= src@.len(),
            dst_byte_index + byte_len <= d1.len(),
            copied_bits(src@, 8 * src_byte_index, d1, dst@, 8 * dst_byte_index, 8 * index),
        decreases byte_len - index,
    {
        let ghost before = dst@;
        dst[dst_byte_index + index] = src[src_byte_index + index];
        proof {
            assert(dst@ == before.update(
                (dst_byte_index + index) as int,
                src@[(src_byte_index + index) as int],
            ));
            assert forall|i: int| 0 <= i < dst@.len() * 8 implies #[trigger] bit_of(dst@, i) == if 8
                * dst_byte_index <= i < 8 * dst_byte_index + 8 * (index + 1) {
                bit_of(src@, 8 * src_byte_index + (i - 8 * dst_byte_index))
            } else {
                bit_of(d1, i)
            } by {
                lemma_bit_of_update(
                    before,
                    (dst_byte_index + index) as int,
                    src@[(src_byte_index + index) as int],
                    i,
                );
                lemma_div_mod_8(i);
                if 8 * dst_byte_index <= i {
                    lemma_div_mod_8(8 * src_byte_index + (i - 8 * dst_byte_index));
                }
            }
        }
        index = index + 1;
    }
}

/// The bits of `dst` while whole source bytes are written to a destination that starts `off`
/// bits into byte `dbi`: `8 * n` bits are copied and the rest of the last byte written is clear.
spec fn shifted_bits(
    src: Seq<u8>,
    sbi: int,
    d1: Seq<u8>,
    dst: Seq<u8>,
    dbi: int,
    off: int,
    n: int,
) -> bool {
    &&& dst.len() == d1.len()
    &&& forall|i: int|
        0 <= i < dst.len() * 8 ==> #[trigger] bit_of(dst, i) == if 8 * dbi + off <= i < 8 * dbi
            + off + 8 * n {
            bit_of(src, 8 * sbi + (i - (8 * dbi + off)))
        } else if n > 0 && 8 * dbi + off + 8 * n <= i < (dbi + n + 1) * 8 {
            false
        } else {
            bit_of(d1, i)
        }
}

proof fn lemma_shift_step(
    src: Seq<u8>,
    sbi: int,
    d1: Seq<u8>,
    before: Seq<u8>,
    dbi: int,
    off: u8,
    index: int,
    old_left: u8,
    byte: u8,
)
    requires
        0 < off < 8,
        0 <= sbi,
        0 <= dbi,
        0 <= index,
        sbi + index < src.len(),
        dbi + index + 1 < before.len(),
        shifted_bits(src, sbi, d1, before, dbi, off as int, index),
        old_left == before[dbi + index],
        byte == src[sbi + index],
    ensures
        shifted_bits(
            src,
            sbi,
            d1,
            before.update(dbi + index, (old_left & (0xFFu8 << ((8 - off) as u8))) | (byte >> off)).update(
                dbi + index + 1,
                byte << ((8 - off) as u8),
            ),
            dbi,
            off as int,
            index + 1,
        ),
{
    let mid = before.update(dbi + index, (old_left & (0xFFu8 << ((8 - off) as u8))) | (byte >> off));
    let dst = mid.update(dbi + index + 1, byte << ((8 - off) as u8));
    let start = 8 * dbi + off;
    assert forall|i: int| 0 <= i < dst.len() * 8 implies #[trigger] bit_of(dst, i) == if start <= i
        < start + 8 * (index + 1) {
        bit_of(src, 8 * sbi + (i - start))
    } else if index + 1 > 0 && start + 8 * (index + 1) <= i < (dbi + index + 2) * 8 {
        false
    } else {
        bit_of(d1, i)
    } by {
        lemma_bit_of_update(mid, dbi + index + 1, byte << ((8 - off) as u8), i);
        lemma_bit_of_update(before, dbi + index, mid[dbi + index], i);
        lemma_div_mod_8(i);
        let j = i % 8;
        assert(bit_of(before, i) == if start <= i < start + 8 * index {
            bit_of(src, 8 * sbi + (i - start))
        } else if index > 0 && start + 8 * index <= i < (dbi + index + 1) * 8 {
            false
        } else {
            bit_of(d1, i)
        });
        if i / 8 == dbi + index {
            lemma_byte_keep_high(old_left, byte, off, j as u8);
            if j >= off {
                let sp = 8 * sbi + (i - start);
                lemma_div_mod_8(sp);
                assert(sp / 8 == sbi + index);
                assert(sp % 8 == j - off);
            }
        } else if i / 8 == dbi + index + 1 {
            lemma_byte_shl(byte, off, j as u8);
            if j < off {
                let sp = 8 * sbi + (i - start);
                lemma_div_mod_8(sp);
                assert(sp / 8 == sbi + index);
                assert(sp % 8 == j + 8 - off);
            }
        }
    }
}

/// Writes `byte_len` whole bytes of `src` from byte `src_byte_index` on to `dst`, starting
/// `off` bits into byte `dst_byte_index`; the rest of the last byte written is cleared.
fn copy_shifted_bytes(
    src: &[u8],
    src_byte_index: usize,
    dst: &mut [u8],
    dst_byte_index: usize,
    off: u8,
    byte_len: usize,
)
    requires
        0 < off < 8,
        old(dst)@.len() * 8 <= usize::MAX,
        src@.len() * 8 <= usize::MAX,
        src_byte_index + byte_len <= src@.len(),
        dst_byte_index + byte_len < old(dst)@.len(),
    ensures
        shifted_bits(src@, src_byte_index as int, old(dst)@, final(dst)@, dst_byte_index as int, off as int, byte_len as int),
{
    let ghost d1 = dst@;
    let mut index: usize = 0;
    while index < byte_len
        invariant
            0 <= index <= byte_len,
            0 < off < 8,
            d1.len() * 8 <= usize::MAX,
            src@.len() * 8 <= usize::MAX,
            src_byte_index + byte_len <= src@.len(),
            dst_byte_index + byte_len < d1.len(),
            shifted_bits(src@, src_byte_index as int, d1, dst@, dst_byte_index as int, off as int, index as int),
        decreases byte_len - index,
    {
        let ghost before = dst@;
        let byte = src[index + src_byte_index];
        let half_left = byte >> off;
        let half_right = byte << (8 - off);
        let left_index = index + dst_byte_index;
        let old_left = dst[left_index];
        // do not destroy current values on the further left side
        dst[left_index] = (old_left & (0xFFu8 << (8 - off))) | half_left;
        dst[left_index + 1] = half_right;
        proof {
            lemma_shift_step(src@, src_byte_index as int, d1, before, dst_byte_index as int, off, index as int, old_left, byte);
        }
        index = index + 1;
    }
}

/// Copies `len` bits like [`bit_string_copy`], but moves whole bytes once the source position is
/// aligned to a byte. When the destination is then not aligned, the rest of the last byte written
/// as a whole is cleared (see [`bulk_cleared_end`]).
#[verifier::spinoff_prover]
#[verifier::rlimit(40)]
pub fn bit_string_copy_bulked(
    src: &[u8],
    src_bit_position: usize,
    dst: &mut [u8],
    dst_bit_position: usize,
    len: usize,
) -> (res: Result<(), Error>)
    requires
        old(dst)@.len() * 8 <= usize::MAX,
        src@.len() * 8 <= usize::MAX,
        dst_bit_position + len <= usize::MAX,
        src_bit_position + len <= usize::MAX,
    ensures
        old(dst)@.len() * 8 < dst_bit_position + len ==> res == Err::<(), Error>(
            Error { kind: ErrorKind::InsufficientSpaceInDestinationBuffer },
        ) && final(dst)@ == old(dst)@,
        old(dst)@.len() * 8 >= dst_bit_position + len && src@.len() * 8 < src_bit_position + len
            ==> res == Err::<(), Error>(Error { kind: ErrorKind::InsufficientDataInSourceBuffer })
            && final(dst)@ == old(dst)@,
        old(dst)@.len() * 8 >= dst_bit_position + len && src@.len() * 8 >= src_bit_position + len
            ==> res is Ok && bulk_copied_bits(
            src@,
            src_bit_position as int,
            old(dst)@,
            final(dst)@,
            dst_bit_position as int,
            len as int,
        ),
{
    // chosen by real world tests
    if len <= BYTE_LEN * 2 {
        return bit_string_copy(src, src_bit_position, dst, dst_bit_position, len);
    }
    if dst.len() * BYTE_LEN < dst_bit_position + len {
        return Err(Error::insufficient_space_in_destination_buffer());
    }
    if src.len() * BYTE_LEN < src_bit_position + len {
        return Err(Error::insufficient_data_in_source_buffer());
    }
    let ghost d0 = dst@;
    let bits_till_full_byte_src = (BYTE_LEN - (src_bit_position % BYTE_LEN)) % BYTE_LEN;

    // align read_position to a full byte
    if bits_till_full_byte_src != 0 {
        let prefix_len = if bits_till_full_byte_src < len {
            bits_till_full_byte_src
        } else {
            len
        };
        let r = bit_string_copy(src, src_bit_position, dst, dst_bit_position, prefix_len);
        if r.is_err() {
            return r;
        }
        if len <= bits_till_full_byte_src {
            return Ok(());
        }
    }
    let ghost d1 = dst@;
    let src_bit_position2 = src_bit_position + bits_till_full_byte_src;
    let dst_bit_position2 = dst_bit_position + bits_till_full_byte_src;

    let len2 = len - bits_till_full_byte_src;

    let dst_byte_index = dst_bit_position2 / BYTE_LEN;
    let dst_byte_offset = dst_bit_position2 % BYTE_LEN;

    let src_byte_index = src_bit_position2 / BYTE_LEN;
    let len_in_bytes = len2 / BYTE_LEN;
    proof {
        lemma_div_mod_8(src_bit_position as int);
        lemma_div_mod_8(src_bit_position2 as int);
        lemma_div_mod_8(dst_bit_position2 as int);
        lemma_div_mod_8(len2 as int);
    }
    let ghost clear_end: int = if dst_byte_offset == 0 {
        0
    } else {
        (dst_byte_index + len_in_bytes + 1) * 8
    };
    if dst_byte_offset == 0 {
        // both align
        copy_aligned_bytes(src, src_byte_index, dst, dst_byte_index, len_in_bytes);
    } else {
        copy_shifted_bytes(src, src_byte_index, dst, dst_byte_index, dst_byte_offset as u8, len_in_bytes);
    }
    let ghost d2 = dst@;
    proof {
        assert(clear_end == bulk_cleared_end(src_bit_position as int, dst_bit_position as int, len as int));
        assert forall|i: int| 0 <= i < d2.len() * 8 implies #[trigger] bit_of(d2, i) == if dst_bit_position
            <= i < dst_bit_position2 + 8 * len_in_bytes {
            bit_of(src@, src_bit_position + (i - dst_bit_position))
        } else if dst_bit_position2 + 8 * len_in_bytes <= i < clear_end {
            false
        } else {
            bit_of(d0, i)
        } by {
            assert(bit_of(d1, i) == if dst_bit_position <= i < dst_bit_position + bits_till_full_byte_src {
                bit_of(src@, src_bit_position + (i - dst_bit_position))
            } else {
                bit_of(d0, i)
            });
        }
    }

    if len2 % BYTE_LEN == 0 {
        Ok(())
    } else {
        // copy the remaining
        let r = bit_string_copy(
            src,
            src_bit_position2 + (len_in_bytes * BYTE_LEN),
            dst,
            dst_bit_position2 + (len_in_bytes * BYTE_LEN),
            len2 % BYTE_LEN,
        );
        proof {
            assert forall|i: int| 0 <= i < dst@.len() * 8 implies #[trigger] bit_of(dst@, i) == if dst_bit_position
                <= i < dst_bit_position + len {
                bit_of(src@, src_bit_position + (i - dst_bit_position))
            } else if dst_bit_position + len <= i < clear_end {
                false
            } else {
                bit_of(d0, i)
            } by {
                assert(bit_of(d2, i) == bit_of(d2, i));
            }
        }
        r
    }
}

} // verus!
