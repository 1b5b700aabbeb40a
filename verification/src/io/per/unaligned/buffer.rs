//! A growable bit buffer with separate read and write positions, and a read-only bit view.
use vstd::prelude::*;
use crate::io::per::err::{Error, ErrorKind};
use crate::io::per::packed::numbers::{bits_value, uint_bits, two_pow, lemma_bits_value_push};
use crate::io::per::unaligned::slice::{bit_of, bit_string_copy_bulked, bits_view, bulk_copied_bits, lemma_div_mod_8, read_bit, write_bit, BYTE_LEN};

verus! {

/// A sequence of `n` zero bytes.
pub open spec fn zeros(n: nat) -> Seq<u8> {
    Seq::new(n, |i: int| 0u8)
}

/// The number of bytes [`BitBuffer::ensure_can_write_additional_bits`] appends to a buffer of
/// `byte_len` bytes written up to bit `write_position` so that `bit_len` more bits fit.
pub open spec fn grow_len(byte_len: nat, write_position: nat, bit_len: nat) -> nat {
    if write_position + bit_len >= byte_len * 8 {
        ((write_position + bit_len + 7) / 8 - byte_len) as nat
    } else {
        0
    }
}

/// A buffer of as many bytes as the written bits fill, all behind them clear, grows to as many
/// bytes as the written bits fill when [`grow_len`] bytes are appended for more bits.
pub proof fn lemma_grow_tight(byte_len: nat, write_position: nat, bit_len: nat)
    requires
        byte_len == (write_position + 7) / 8,
    ensures
        byte_len + grow_len(byte_len, write_position, bit_len) == (write_position + bit_len + 7) / 8,
{
}

/// A growable byte buffer that is written and read bit by bit.
#[derive(Debug)]
pub struct BitBuffer {
    pub(crate) buffer: Vec<u8>,
    pub(crate) write_position: usize,
    pub(crate) read_position: usize,
}

impl BitBuffer {
    /// The bytes of the buffer.
    pub closed spec fn bytes(&self) -> Seq<u8> {
        self.buffer@
    }

    /// The number of bits written so far; writing continues there.
    pub closed spec fn write_pos(&self) -> nat {
        self.write_position as nat
    }

    /// The bit position reading continues at.
    pub closed spec fn read_pos(&self) -> nat {
        self.read_position as nat
    }

    /// All bits of the buffer.
    pub open spec fn bits(&self) -> Seq<bool> {
        bits_view(self.bytes())
    }

    /// The bits written so far.
    pub open spec fn written(&self) -> Seq<bool> {
        self.bits().take(self.write_pos() as int)
    }

    /// Every bit behind the write position is clear.
    pub open spec fn tail_clear(&self) -> bool {
        forall|i: int|
            self.write_pos() <= i < self.bytes().len() * 8 ==> !#[trigger] bit_of(self.bytes(), i)
    }

    /// The buffer holds as many bytes as the written bits fill, and every bit behind them is
    /// clear: its bytes are the written bits, padded with clear bits to a whole byte.
    pub open spec fn tight(&self) -> bool {
        &&& self.bytes().len() == (self.write_pos() + 7) / 8
        &&& self.tail_clear()
    }

    /// Both positions lie within the buffer and its bit count fits in a `usize`.
    pub open spec fn wf(&self) -> bool {
        &&& self.bytes().len() * 8 <= usize::MAX
        &&& self.write_pos() <= self.bytes().len() * 8
        &&& self.read_pos() <= self.bytes().len() * 8
    }

    pub(crate) proof fn lemma_accessors(&self)
        ensures
            self.bytes() == self.buffer@,
            self.write_pos() == self.write_position,
            self.read_pos() == self.read_position,
    {
    }

    /// An empty buffer; `capacity` bytes are reserved.
    pub fn with_capacity(capacity: usize) -> (b: Self)
        ensures
            b.tight(),
            b.bytes() == Seq::<u8>::empty(),
            b.write_pos() == 0,
            b.read_pos() == 0,
            b.wf(),
    {
        BitBuffer { buffer: Vec::with_capacity(capacity), write_position: 0, read_position: 0 }
    }

    /// A buffer holding `buffer`, all of whose bits count as written.
    pub fn from_bytes(buffer: Vec<u8>) -> (b: Self)
        requires
            buffer@.len() * 8 <= usize::MAX,
        ensures
            b.tight(),
            b.bytes() == buffer@,
            b.write_pos() == buffer@.len() * 8,
            b.read_pos() == 0,
            b.wf(),
    {
        let bits = buffer.len() * BYTE_LEN;
        Self::from_bits(buffer, bits)
    }

    /// A buffer holding `buffer`, of which the first `bit_length` bits count as written.
    pub fn from_bits(buffer: Vec<u8>, bit_length: usize) -> (b: Self)
        requires
            buffer@.len() * 8 <= usize::MAX,
            bit_length <= buffer@.len() * 8,
        ensures
            b.bytes() == buffer@,
            b.write_pos() == bit_length,
            b.read_pos() == 0,
            b.wf(),
    {
        BitBuffer { buffer, write_position: bit_length, read_position: 0 }
    }

    /// A buffer holding `buffer` with the given write and read positions.
    pub fn from_bits_with_position(
        buffer: Vec<u8>,
        write_position: usize,
        read_position: usize,
    ) -> (b: Self)
        requires
            buffer@.len() * 8 <= usize::MAX,
            write_position <= buffer@.len() * 8,
            read_position <= buffer@.len() * 8,
        ensures
            b.bytes() == buffer@,
            b.write_pos() == write_position,
            b.read_pos() == read_position,
            b.wf(),
    {
        BitBuffer { buffer, write_position, read_position }
    }

    /// Removes all bytes and resets both positions.
    pub fn clear(&mut self)
        ensures
            final(self).tight(),
            final(self).bytes() == Seq::<u8>::empty(),
            final(self).write_pos() == 0,
            final(self).read_pos() == 0,
            final(self).wf(),
    {
        self.buffer.clear();
        self.write_position = 0;
        self.read_position = 0;
    }

    /// Restarts reading at the first bit.
    pub fn reset_read_position(&mut self)
        ensures
            final(self).bytes() == old(self).bytes(),
            final(self).write_pos() == old(self).write_pos(),
            final(self).read_pos() == 0,
    {
        self.read_position = 0;
    }

    /// The bytes of the buffer.
    pub fn content(&self) -> (c: &[u8])
        ensures
            c@ == self.bytes(),
    {
        self.buffer.as_slice()
    }

    /// The number of bits written.
    pub fn bit_len(&self) -> (n: usize)
        ensures
            n == self.write_pos(),
    {
        self.write_position
    }

    /// The number of bytes held.
    pub fn byte_len(&self) -> (n: usize)
        ensures
            n == self.bytes().len(),
    {
        self.buffer.len()
    }

    /// The bytes of the buffer, consuming it.
    pub fn into_bytes(self) -> (v: Vec<u8>)
        ensures
            v@ == self.bytes(),
    {
        self.buffer
    }

    /// Appends zero bytes so that `bit_len` more bits fit behind the write position.
    pub fn ensure_can_write_additional_bits(&mut self, bit_len: usize)
        requires
            old(self).wf(),
            old(self).write_pos() + bit_len + 8 <= usize::MAX,
        ensures
            final(self).bytes() == old(self).bytes() + zeros(
                grow_len(old(self).bytes().len(), old(self).write_pos(), bit_len as nat),
            ),
            final(self).write_pos() == old(self).write_pos(),
            final(self).read_pos() == old(self).read_pos(),
            final(self).bytes().len() * 8 >= old(self).write_pos() + bit_len,
            final(self).wf(),
    {
        if self.write_position + bit_len >= self.buffer.len() * BYTE_LEN {
            let required_len = ((self.write_position + bit_len) + 7) / BYTE_LEN;
            let ghost b0 = self.buffer@;
            while self.buffer.len() < required_len
                invariant
                    self.write_position == old(self).write_position,
                    self.read_position == old(self).read_position,
                    b0.len() <= self.buffer@.len() <= required_len,
                    required_len * 8 <= self.write_position + bit_len + 8,
                    self.buffer@ == b0 + zeros((self.buffer@.len() - b0.len()) as nat),
                decreases required_len - self.buffer@.len(),
            {
                self.buffer.push(0u8);
                assert(self.buffer@ == b0 + zeros((self.buffer@.len() - b0.len()) as nat));
            }
        }
    }

    /// Reads the next bit; fails with `EndOfStream` once the write position is reached.
    pub fn read_bit(&mut self) -> (res: Result<bool, Error>)
        requires
            old(self).wf(),
        ensures
            final(self).bytes() == old(self).bytes(),
            final(self).write_pos() == old(self).write_pos(),
            final(self).wf(),
            old(self).read_pos() < old(self).write_pos() ==> res == Ok::<bool, Error>(
                bit_of(old(self).bytes(), old(self).read_pos() as int),
            ) && final(self).read_pos() == old(self).read_pos() + 1,
            old(self).read_pos() >= old(self).write_pos() ==> res == Err::<bool, Error>(
                Error { kind: ErrorKind::EndOfStream },
            ) && final(self).read_pos() == old(self).read_pos(),
    {
        if self.read_position < self.write_position {
            read_bit(self.buffer.as_slice(), &mut self.read_position)
        } else {
            Err(Error { kind: ErrorKind::EndOfStream })
        }
    }

    /// Reads `dst_bit_len` bits from the read position into `dst`, starting at bit
    /// `dst_bit_offset` of `dst`; reading may go beyond the write position, up to the end of the
    /// buffer.
    pub fn read_bits_with_offset_len(
        &mut self,
        dst: &mut [u8],
        dst_bit_offset: usize,
        dst_bit_len: usize,
    ) -> (res: Result<(), Error>)
        requires
            old(self).wf(),
            old(dst)@.len() * 8 <= usize::MAX,
            dst_bit_offset + dst_bit_len + 8 <= usize::MAX,
            old(self).read_pos() + dst_bit_len + 8 <= usize::MAX,
        ensures
            final(self).bytes() == old(self).bytes(),
            final(self).write_pos() == old(self).write_pos(),
            final(self).wf(),
            old(dst)@.len() * 8 < dst_bit_offset + dst_bit_len ==> res == Err::<(), Error>(
                Error { kind: ErrorKind::InsufficientSpaceInDestinationBuffer },
            ) && final(dst)@ == old(dst)@ && final(self).read_pos() == old(self).read_pos(),
            old(dst)@.len() * 8 >= dst_bit_offset + dst_bit_len && old(self).bytes().len() * 8
                < old(self).read_pos() + dst_bit_len ==> res == Err::<(), Error>(
                Error { kind: ErrorKind::InsufficientDataInSourceBuffer },
            ) && final(dst)@ == old(dst)@ && final(self).read_pos() == old(self).read_pos(),
            old(dst)@.len() * 8 >= dst_bit_offset + dst_bit_len && old(self).bytes().len() * 8
                >= old(self).read_pos() + dst_bit_len ==> res is Ok && bulk_copied_bits(
                old(self).bytes(),
                old(self).read_pos() as int,
                old(dst)@,
                final(dst)@,
                dst_bit_offset as int,
                dst_bit_len as int,
            ) && final(self).read_pos() == old(self).read_pos() + dst_bit_len,
    {
        let r = bit_string_copy_bulked(
            self.buffer.as_slice(),
            self.read_position,
            dst,
            dst_bit_offset,
            dst_bit_len,
        );
        if r.is_ok() {
            self.read_position = self.read_position + dst_bit_len;
        }
        r
    }

    /// Reads bits into all of `dst`.
    pub fn read_bits(&mut self, dst: &mut [u8]) -> (res: Result<(), Error>)
        requires
            old(self).wf(),
            old(dst)@.len() * 8 + 8 <= usize::MAX,
            old(self).read_pos() + old(dst)@.len() * 8 + 8 <= usize::MAX,
        ensures
            final(self).bytes() == old(self).bytes(),
            final(self).write_pos() == old(self).write_pos(),
            final(self).wf(),
            old(self).bytes().len() * 8 < old(self).read_pos() + old(dst)@.len() * 8 ==> res
                == Err::<(), Error>(Error { kind: ErrorKind::InsufficientDataInSourceBuffer })
                && final(dst)@ == old(dst)@ && final(self).read_pos() == old(self).read_pos(),
            old(self).bytes().len() * 8 >= old(self).read_pos() + old(dst)@.len() * 8 ==> res is Ok
                && bulk_copied_bits(
                old(self).bytes(),
                old(self).read_pos() as int,
                old(dst)@,
                final(dst)@,
                0,
                (old(dst)@.len() * 8) as int,
            ) && final(self).read_pos() == old(self).read_pos() + old(dst)@.len() * 8,
    {
        let n = dst.len() * BYTE_LEN;
        self.read_bits_with_offset_len(dst, 0, n)
    }

    /// Reads bits into `dst` from bit `dst_bit_offset` of `dst` to its end.
    pub fn read_bits_with_offset(&mut self, dst: &mut [u8], dst_bit_offset: usize) -> (res:
        Result<(), Error>)
        requires
            old(self).wf(),
            dst_bit_offset <= old(dst)@.len() * 8,
            old(dst)@.len() * 8 + 8 <= usize::MAX,
            old(self).read_pos() + old(dst)@.len() * 8 + 8 <= usize::MAX,
        ensures
            final(self).bytes() == old(self).bytes(),
            final(self).write_pos() == old(self).write_pos(),
            final(self).wf(),
            old(self).bytes().len() * 8 < old(self).read_pos() + (old(dst)@.len() * 8
                - dst_bit_offset) ==> res == Err::<(), Error>(
                Error { kind: ErrorKind::InsufficientDataInSourceBuffer },
            ) && final(dst)@ == old(dst)@ && final(self).read_pos() == old(self).read_pos(),
            old(self).bytes().len() * 8 >= old(self).read_pos() + (old(dst)@.len() * 8
                - dst_bit_offset) ==> res is Ok && bulk_copied_bits(
                old(self).bytes(),
                old(self).read_pos() as int,
                old(dst)@,
                final(dst)@,
                dst_bit_offset as int,
                old(dst)@.len() * 8 - dst_bit_offset,
            ) && final(self).read_pos() == old(self).read_pos() + (old(dst)@.len() * 8
                - dst_bit_offset),
    {
        let n = dst.len() * BYTE_LEN - dst_bit_offset;
        self.read_bits_with_offset_len(dst, dst_bit_offset, n)
    }

    /// Reads `dst_bit_len` bits into `dst` from its first bit on.
    pub fn read_bits_with_len(&mut self, dst: &mut [u8], dst_bit_len: usize) -> (res: Result<
        (),
        Error,
    >)
        requires
            old(self).wf(),
            old(dst)@.len() * 8 <= usize::MAX,
            dst_bit_len + 8 <= usize::MAX,
            old(self).read_pos() + dst_bit_len + 8 <= usize::MAX,
        ensures
            final(self).bytes() == old(self).bytes(),
            final(self).write_pos() == old(self).write_pos(),
            final(self).wf(),
            old(dst)@.len() * 8 < dst_bit_len ==> res == Err::<(), Error>(
                Error { kind: ErrorKind::InsufficientSpaceInDestinationBuffer },
            ) && final(dst)@ == old(dst)@ && final(self).read_pos() == old(self).read_pos(),
            old(dst)@.len() * 8 >= dst_bit_len && old(self).bytes().len() * 8 < old(self).read_pos()
                + dst_bit_len ==> res == Err::<(), Error>(
                Error { kind: ErrorKind::InsufficientDataInSourceBuffer },
            ) && final(dst)@ == old(dst)@ && final(self).read_pos() == old(self).read_pos(),
            old(dst)@.len() * 8 >= dst_bit_len && old(self).bytes().len() * 8 >= old(self).read_pos()
                + dst_bit_len ==> res is Ok && bulk_copied_bits(
                old(self).bytes(),
                old(self).read_pos() as int,
                old(dst)@,
                final(dst)@,
                0,
                dst_bit_len as int,
            ) && final(self).read_pos() == old(self).read_pos() + dst_bit_len,
    {
        self.read_bits_with_offset_len(dst, 0, dst_bit_len)
    }

    /// Writes one bit at the write position, growing the buffer as needed.
    pub fn write_bit(&mut self, bit: bool) -> (res: Result<(), Error>)
        requires
            old(self).wf(),
            old(self).write_pos() + 16 <= usize::MAX,
        ensures
            res is Ok,
            final(self).wf(),
            final(self).write_pos() == old(self).write_pos() + 1,
            final(self).read_pos() == old(self).read_pos(),
            final(self).bytes().len() == old(self).bytes().len() + grow_len(
                old(self).bytes().len(),
                old(self).write_pos(),
                1,
            ),
            forall|i: int|
                0 <= i < final(self).bytes().len() * 8 ==> #[trigger] bit_of(final(self).bytes(), i)
                    == if i == old(self).write_pos() {
                    bit
                } else if i < old(self).bytes().len() * 8 {
                    bit_of(old(self).bytes(), i)
                } else {
                    false
                },
            final(self).written() == old(self).written().push(bit),
            (old(self).tail_clear() ==> final(self).tail_clear()) && (old(self).tight() ==> final(self).tight()),
    {
        let ghost b0 = self.buffer@;
        self.ensure_can_write_additional_bits(1);
        let ghost b1 = self.buffer@;
        let r = write_bit(self.buffer.as_mut_slice(), &mut self.write_position, bit);
        proof {
            assert(0x80u8 & (0x80u8 >> 0u8) != 0u8) by (bit_vector);
            assert(0u8 & (0x80u8 >> 0u8) == 0u8) by (bit_vector);
            assert forall|i: int| 0 <= i < self.buffer@.len() * 8 implies #[trigger] bit_of(self.buffer@, i)
                == if i == b0.len() * 0 + self.write_position - 1 {
                bit
            } else if i < b0.len() * 8 {
                bit_of(b0, i)
            } else {
                false
            } by {
                lemma_div_mod_8(i);
                if i >= b0.len() * 8 {
                    assert(i / 8 >= b0.len());
                    assert(b1[i / 8] == 0u8);
                    assert(0u8 & (0x80u8 >> ((i % 8) as u8)) == 0u8) by (bit_vector);
                } else {
                    assert(b1[i / 8] == b0[i / 8]);
                }
            }
            assert(self.written() =~= old(self).written().push(bit));
        }
        r
    }

    /// Writes `src_bit_len` bits of `src`, starting at bit `src_bit_offset` of `src`, at the write
    /// position, growing the buffer as needed.
    pub fn write_bits_with_offset_len(
        &mut self,
        src: &[u8],
        src_bit_offset: usize,
        src_bit_len: usize,
    ) -> (res: Result<(), Error>)
        requires
            old(self).wf(),
            src@.len() * 8 <= usize::MAX,
            old(self).write_pos() + src_bit_len + 16 <= usize::MAX,
            src_bit_offset + src_bit_len + 8 <= usize::MAX,
        ensures
            final(self).wf(),
            final(self).read_pos() == old(self).read_pos(),
            final(self).bytes().len() == old(self).bytes().len() + grow_len(
                old(self).bytes().len(),
                old(self).write_pos(),
                src_bit_len as nat,
            ),
            src@.len() * 8 < src_bit_offset + src_bit_len ==> res == Err::<(), Error>(
                Error { kind: ErrorKind::InsufficientDataInSourceBuffer },
            ) && final(self).write_pos() == old(self).write_pos() && final(self).bytes()
                == old(self).bytes() + zeros(
                grow_len(old(self).bytes().len(), old(self).write_pos(), src_bit_len as nat),
            ),
            src@.len() * 8 >= src_bit_offset + src_bit_len ==> res is Ok && final(self).write_pos()
                == old(self).write_pos() + src_bit_len && bulk_copied_bits(
                src@,
                src_bit_offset as int,
                old(self).bytes() + zeros(
                    grow_len(old(self).bytes().len(), old(self).write_pos(), src_bit_len as nat),
                ),
                final(self).bytes(),
                old(self).write_pos() as int,
                src_bit_len as int,
            ) && final(self).written() == old(self).written() + bits_view(src@).subrange(
                src_bit_offset as int,
                src_bit_offset + src_bit_len,
            ),
            (old(self).tail_clear() ==> final(self).tail_clear()) && (old(self).tight() && res is Ok ==> final(self).tight()),
    {
        let ghost b0 = self.buffer@;
        self.ensure_can_write_additional_bits(src_bit_len);
        let ghost b1 = self.buffer@;
        let r = bit_string_copy_bulked(
            src,
            src_bit_offset,
            self.buffer.as_mut_slice(),
            self.write_position,
            src_bit_len,
        );
        if r.is_ok() {
            self.write_position = self.write_position + src_bit_len;
            proof {
                let wp0 = old(self).write_pos() as int;
                assert forall|i: int| 0 <= i < b1.len() * 8 implies bit_of(b1, i) == if i < b0.len() * 8 {
                    bit_of(b0, i)
                } else {
                    false
                } by {
                    lemma_div_mod_8(i);
                    if i >= b0.len() * 8 {
                        assert(i / 8 >= b0.len());
                        assert(b1[i / 8] == 0u8);
                        assert(0u8 & (0x80u8 >> ((i % 8) as u8)) == 0u8) by (bit_vector);
                    } else {
                        assert(b1[i / 8] == b0[i / 8]);
                    }
                }
                assert(self.written() =~= old(self).written() + bits_view(src@).subrange(
                    src_bit_offset as int,
                    src_bit_offset + src_bit_len,
                ));
                if old(self).tail_clear() {
                    assert forall|i: int| self.write_pos() <= i < self.bytes().len() * 8 implies !#[trigger] bit_of(self.bytes(), i) by {
                        assert(bit_of(self.buffer@, i) == bit_of(self.buffer@, i));
                    }
                }
                if old(self).tight() {
                    lemma_grow_tight(b0.len(), old(self).write_pos(), src_bit_len as nat);
                }
            }
        } else {
            proof {
                if old(self).tail_clear() {
                    assert forall|i: int| self.write_pos() <= i < self.bytes().len() * 8 implies !#[trigger] bit_of(self.bytes(), i) by {
                        lemma_div_mod_8(i);
                        if i >= b0.len() * 8 {
                            assert(i / 8 >= b0.len());
                            assert(b1[i / 8] == 0u8);
                            assert(0u8 & (0x80u8 >> ((i % 8) as u8)) == 0u8) by (bit_vector);
                        } else {
                            assert(b1[i / 8] == b0[i / 8]);
                            assert(bit_of(b0, i) == bit_of(old(self).bytes(), i));
                        }
                    }
                }
            }
        }
        r
    }

    /// Writes all bits of `src`.
    pub fn write_bits(&mut self, src: &[u8]) -> (res: Result<(), Error>)
        requires
            old(self).wf(),
            src@.len() * 8 + 8 <= usize::MAX,
            old(self).write_pos() + src@.len() * 8 + 16 <= usize::MAX,
        ensures
            res is Ok,
            final(self).wf(),
            final(self).read_pos() == old(self).read_pos(),
            final(self).write_pos() == old(self).write_pos() + src@.len() * 8,
            bulk_copied_bits(
                src@,
                0,
                old(self).bytes() + zeros(
                    grow_len(old(self).bytes().len(), old(self).write_pos(), src@.len() * 8),
                ),
                final(self).bytes(),
                old(self).write_pos() as int,
                (src@.len() * 8) as int,
            ),
            final(self).written() == old(self).written() + bits_view(src@),
            (old(self).tail_clear() ==> final(self).tail_clear()) && (old(self).tight() ==> final(self).tight()),
    {
        let r = self.write_bits_with_offset(src, 0);
        assert(bits_view(src@).subrange(0, (src@.len() * 8) as int) =~= bits_view(src@));
        r
    }

    /// Writes the bits of `src` from bit `src_bit_offset` to its end.
    pub fn write_bits_with_offset(&mut self, src: &[u8], src_bit_offset: usize) -> (res: Result<
        (),
        Error,
    >)
        requires
            old(self).wf(),
            src_bit_offset <= src@.len() * 8,
            src@.len() * 8 + 8 <= usize::MAX,
            old(self).write_pos() + src@.len() * 8 + 16 <= usize::MAX,
        ensures
            res is Ok,
            final(self).wf(),
            final(self).read_pos() == old(self).read_pos(),
            final(self).write_pos() == old(self).write_pos() + (src@.len() * 8 - src_bit_offset),
            bulk_copied_bits(
                src@,
                src_bit_offset as int,
                old(self).bytes() + zeros(
                    grow_len(
                        old(self).bytes().len(),
                        old(self).write_pos(),
                        (src@.len() * 8 - src_bit_offset) as nat,
                    ),
                ),
                final(self).bytes(),
                old(self).write_pos() as int,
                src@.len() * 8 - src_bit_offset,
            ),
            final(self).written() == old(self).written() + bits_view(src@).subrange(
                src_bit_offset as int,
                (src@.len() * 8) as int,
            ),
            (old(self).tail_clear() ==> final(self).tail_clear()) && (old(self).tight() ==> final(self).tight()),
    {
        let n = src.len() * BYTE_LEN - src_bit_offset;
        self.write_bits_with_offset_len(src, src_bit_offset, n)
    }

    /// Writes the first `bit_len` bits of `src`.
    pub fn write_bits_with_len(&mut self, src: &[u8], bit_len: usize) -> (res: Result<(), Error>)
        requires
            old(self).wf(),
            src@.len() * 8 <= usize::MAX,
            bit_len + 8 <= usize::MAX,
            old(self).write_pos() + bit_len + 16 <= usize::MAX,
        ensures
            final(self).wf(),
            final(self).read_pos() == old(self).read_pos(),
            src@.len() * 8 < bit_len ==> res == Err::<(), Error>(
                Error { kind: ErrorKind::InsufficientDataInSourceBuffer },
            ) && final(self).write_pos() == old(self).write_pos(),
            src@.len() * 8 >= bit_len ==> res is Ok && final(self).write_pos() == old(self).write_pos()
                + bit_len && bulk_copied_bits(
                src@,
                0,
                old(self).bytes() + zeros(
                    grow_len(old(self).bytes().len(), old(self).write_pos(), bit_len as nat),
                ),
                final(self).bytes(),
                old(self).write_pos() as int,
                bit_len as int,
            ) && final(self).written() == old(self).written() + bits_view(src@).subrange(0, bit_len as int)
                && ((old(self).tail_clear() ==> final(self).tail_clear()) && (old(self).tight() ==> final(self).tight())),
    {
        self.write_bits_with_offset_len(src, 0, bit_len)
    }

    /// Reads the next `n` bits (at most 64) as a big-endian unsigned number; fails with
    /// `InsufficientDataInSourceBuffer` when the buffer ends before.
    pub fn read_uint(&mut self, n: usize) -> (res: Result<u64, Error>)
        requires
            old(self).wf(),
            n <= 64,
        ensures
            final(self).bytes() == old(self).bytes(),
            final(self).write_pos() == old(self).write_pos(),
            final(self).wf(),
            old(self).read_pos() + n <= old(self).bytes().len() * 8 ==> res == Ok::<u64, Error>(
                bits_value(old(self).bits().subrange(old(self).read_pos() as int, old(self).read_pos() + n)) as u64,
            ) && final(self).read_pos() == old(self).read_pos() + n,
            old(self).read_pos() + n > old(self).bytes().len() * 8 ==> res == Err::<u64, Error>(
                Error { kind: ErrorKind::InsufficientDataInSourceBuffer },
            ) && final(self).read_pos() == old(self).read_pos(),
    {
        if n > self.buffer.len() * BYTE_LEN - self.read_position {
            return Err(Error::insufficient_data_in_source_buffer());
        }
        let ghost start = self.read_position as int;
        let mut value: u64 = 0;
        let mut k: usize = 0;
        while k < n
            invariant
                0 <= k <= n,
                n <= 64,
                self.wf(),
                self.buffer@ == old(self).buffer@,
                self.write_position == old(self).write_position,
                0 <= start,
                start + n <= self.buffer@.len() * 8,
                self.read_position == start + k,
                value == bits_value(self.bits().subrange(start, start + k)),
                value < two_pow(k as nat),
            decreases n - k,
        {
            let ghost before = self.bits().subrange(start, start + k);
            let r = read_bit(self.buffer.as_slice(), &mut self.read_position);
            let bit = match r {
                Ok(b) => b,
                Err(_) => false,
            };
            proof {
                assert(bit == bit_of(self.buffer@, start + k));
                assert(self.bits().len() == self.buffer@.len() * 8);
                assert(self.bits()[start + k] == bit);
                assert(self.bits().subrange(start, start + k) == before);
                assert(self.bits().subrange(start, start + k + 1) =~= before.push(bit));
                lemma_bits_value_push(before, bit);
                crate::io::per::packed::numbers::lemma_two_pow_mono((k + 1) as nat, 64);
                crate::io::per::packed::numbers::lemma_two_pow_64();
            }
            value = value * 2 + if bit {
                1
            } else {
                0
            };
            k = k + 1;
        }
        Ok(value)
    }

    /// Writes the `n` (at most 64) low bits of `value`, most significant first.
    pub fn write_uint(&mut self, value: u64, n: usize) -> (res: Result<(), Error>)
        requires
            old(self).wf(),
            n <= 64,
            value < two_pow(n as nat),
            old(self).write_pos() + n + 16 <= usize::MAX,
        ensures
            res is Ok,
            final(self).wf(),
            final(self).read_pos() == old(self).read_pos(),
            final(self).write_pos() == old(self).write_pos() + n,
            final(self).written() == old(self).written() + uint_bits(value as nat, n as nat),
            (old(self).tail_clear() ==> final(self).tail_clear()) && (old(self).tight() ==> final(self).tight()),
        decreases n,
    {
        if n == 0 {
            assert(uint_bits(value as nat, 0) =~= Seq::<bool>::empty());
            assert(old(self).written() + uint_bits(value as nat, n as nat) =~= old(self).written());
            return Ok(());
        }
        let r = self.write_uint(value / 2, n - 1);
        let r2 = self.write_bit(value % 2 == 1);
        assert(self.written() =~= old(self).written() + uint_bits(value as nat, n as nat));
        Ok(())
    }
}

impl BitBuffer {
    /// Moves the write position to `position` for the call of `f`, and back afterwards; the
    /// result is what `f` returns.
    pub fn with_write_position_at<T, F: Fn(&mut Self) -> T>(&mut self, position: usize, f: F) -> (result: T)
        requires
            position <= old(self).bytes().len() * 8,
            forall|b: &mut Self| #[trigger] f.requires((b,)),
        ensures
            final(self).write_pos() == old(self).write_pos(),
            exists|b: &mut Self|
                #![trigger f.ensures((b,), result)]
                b.bytes() == old(self).bytes() && b.write_pos() == position && b.read_pos() == old(
                    self,
                ).read_pos() && f.ensures((b,), result) && final(b).bytes() == final(self).bytes()
                    && final(b).read_pos() == final(self).read_pos(),
    {
        let before = self.write_position;
        self.write_position = position;
        let result = f(self);
        self.write_position = before;
        result
    }

    /// Moves the read position to `position`, at most the write position, for the call of `f`,
    /// and back afterwards; the result is what `f` returns.
    pub fn with_read_position_at<T, F: Fn(&mut Self) -> T>(&mut self, position: usize, f: F) -> (result: T)
        requires
            position <= old(self).write_pos(),
            forall|b: &mut Self| #[trigger] f.requires((b,)),
        ensures
            final(self).read_pos() == old(self).read_pos(),
            exists|b: &mut Self|
                #![trigger f.ensures((b,), result)]
                b.bytes() == old(self).bytes() && b.read_pos() == position && b.write_pos() == old(
                    self,
                ).write_pos() && f.ensures((b,), result) && final(b).bytes() == final(self).bytes()
                    && final(b).write_pos() == final(self).write_pos(),
    {
        let before = self.read_position;
        self.read_position = position;
        let result = f(self);
        self.read_position = before;
        result
    }

    /// Moves the write position to `max_read_len` bits behind the read position for the call
    /// of `f`, and back afterwards; the result is what `f` returns.
    pub fn with_max_read<T, F: Fn(&mut Self) -> T>(&mut self, max_read_len: usize, f: F) -> (result: T)
        requires
            old(self).read_pos() + max_read_len <= usize::MAX,
            forall|b: &mut Self| #[trigger] f.requires((b,)),
        ensures
            final(self).write_pos() == old(self).write_pos(),
            exists|b: &mut Self|
                #![trigger f.ensures((b,), result)]
                b.bytes() == old(self).bytes() && b.write_pos() == old(self).read_pos() + max_read_len
                    && b.read_pos() == old(self).read_pos() && f.ensures((b,), result) && final(b).bytes()
                    == final(self).bytes() && final(b).read_pos() == final(self).read_pos(),
    {
        let before = self.write_position;
        self.write_position = self.read_position + max_read_len;
        let result = f(self);
        self.write_position = before;
        result
    }
}

impl Default for BitBuffer {
    fn default() -> (b: Self)
        ensures
            b.bytes() == Seq::<u8>::empty(),
            b.write_pos() == 0,
            b.read_pos() == 0,
            b.wf(),
    {
        BitBuffer { buffer: Vec::new(), write_position: 0, read_position: 0 }
    }
}

} // verus!
