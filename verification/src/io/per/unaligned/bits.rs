//! A bit reader over a byte slice, which holds how many of its bits count.
use vstd::prelude::*;

use crate::io::per::err::{Error, ErrorKind};
use crate::io::per::unaligned::buffer::BitBuffer;
use crate::io::per::unaligned::slice::{bit_of, bit_string_copy_bulked, bulk_copied_bits, read_bit};

verus! {

/// Bits of a byte slice read one after another: the position of the next one and the number
/// of bits that count.
pub struct Bits<'a> {
    slice: &'a [u8],
    pos: usize,
    len: usize,
}

impl<'a> Bits<'a> {
    /// The bytes read from.
    pub closed spec fn bytes(&self) -> Seq<u8> {
        self.slice@
    }

    /// The position of the next bit.
    pub closed spec fn pos_spec(&self) -> nat {
        self.pos as nat
    }

    /// The number of bits that count.
    pub closed spec fn len_spec(&self) -> nat {
        self.len as nat
    }

    /// The position and the length lie within the bytes, whose bit count fits in a `usize`.
    pub open spec fn wf(&self) -> bool {
        &&& self.bytes().len() * 8 <= usize::MAX
        &&& self.len_spec() <= self.bytes().len() * 8
        &&& self.pos_spec() <= self.bytes().len() * 8
    }

    /// All bits of `slice`.
    pub fn from_slice(slice: &'a [u8]) -> (b: Self)
        requires
            slice@.len() * 8 <= usize::MAX,
        ensures
            b.bytes() == slice@,
            b.pos_spec() == 0,
            b.len_spec() == slice@.len() * 8,
            b.wf(),
    {
        Bits { slice, pos: 0, len: slice.len() * 8 }
    }

    /// The first `len` bits of `slice`.
    pub fn from_slice_with_len(slice: &'a [u8], len: usize) -> (b: Self)
        requires
            slice@.len() * 8 <= usize::MAX,
            len <= slice@.len() * 8,
        ensures
            b.bytes() == slice@,
            b.pos_spec() == 0,
            b.len_spec() == len,
            b.wf(),
    {
        Bits { slice, pos: 0, len }
    }

    /// The bits written to `buffer`.
    pub fn from_buffer(buffer: &'a BitBuffer) -> (b: Self)
        requires
            buffer.wf(),
        ensures
            b.bytes() == buffer.bytes(),
            b.pos_spec() == 0,
            b.len_spec() == buffer.write_pos(),
            b.wf(),
    {
        Bits { slice: buffer.content(), pos: 0, len: buffer.bit_len() }
    }

    /// Reads the next bit; fails with `EndOfStream` once the length is reached.
    pub fn read_bit(&mut self) -> (res: Result<bool, Error>)
        requires
            old(self).wf(),
        ensures
            final(self).wf(),
            final(self).bytes() == old(self).bytes(),
            final(self).len_spec() == old(self).len_spec(),
            old(self).pos_spec() < old(self).len_spec() ==> res == Ok::<bool, Error>(
                bit_of(old(self).bytes(), old(self).pos_spec() as int),
            ) && final(self).pos_spec() == old(self).pos_spec() + 1,
            old(self).pos_spec() >= old(self).len_spec() ==> res == Err::<bool, Error>(
                Error { kind: ErrorKind::EndOfStream },
            ) && final(self).pos_spec() == old(self).pos_spec(),
    {
        if self.pos < self.len {
            let mut pos = self.pos;
            let r = read_bit(self.slice, &mut pos);
            self.pos = pos;
            r
        } else {
            Err(Error { kind: ErrorKind::EndOfStream })
        }
    }

    /// Copies the next `dst_bit_len` bits into `dst` from its bit `dst_bit_offset` on, as
    /// [`bit_string_copy_bulked`] copies them, and moves past them; the length does not bound
    /// this read, the end of the bytes does.
    pub fn read_bits_with_offset_len(
        &mut self,
        dst: &mut [u8],
        dst_bit_offset: usize,
        dst_bit_len: usize,
    ) -> (res: Result<(), Error>)
        requires
            old(self).wf(),
            old(dst)@.len() * 8 <= usize::MAX,
            dst_bit_offset + dst_bit_len + 8 <= usize::MAX,
            old(self).pos_spec() + dst_bit_len + 8 <= usize::MAX,
        ensures
            final(self).wf(),
            final(self).bytes() == old(self).bytes(),
            final(self).len_spec() == old(self).len_spec(),
            old(dst)@.len() * 8 < dst_bit_offset + dst_bit_len ==> res == Err::<(), Error>(
                Error { kind: ErrorKind::InsufficientSpaceInDestinationBuffer },
            ) && final(dst)@ == old(dst)@ && final(self).pos_spec() == old(self).pos_spec(),
            old(dst)@.len() * 8 >= dst_bit_offset + dst_bit_len && old(self).bytes().len() * 8
                < old(self).pos_spec() + dst_bit_len ==> res == Err::<(), Error>(
                Error { kind: ErrorKind::InsufficientDataInSourceBuffer },
            ) && final(dst)@ == old(dst)@ && final(self).pos_spec() == old(self).pos_spec(),
            old(dst)@.len() * 8 >= dst_bit_offset + dst_bit_len && old(self).bytes().len() * 8
                >= old(self).pos_spec() + dst_bit_len ==> res is Ok && bulk_copied_bits(
                old(self).bytes(),
                old(self).pos_spec() as int,
                old(dst)@,
                final(dst)@,
                dst_bit_offset as int,
                dst_bit_len as int,
            ) && final(self).pos_spec() == old(self).pos_spec() + dst_bit_len,
    {
        match bit_string_copy_bulked(self.slice, self.pos, dst, dst_bit_offset, dst_bit_len) {
            Ok(()) => {
                self.pos = self.pos + dst_bit_len;
                Ok(())
            },
            Err(e) => Err(e),
        }
    }

    /// The position of the next bit.
    pub fn pos(&self) -> (n: usize)
        ensures
            n == self.pos_spec(),
    {
        self.pos
    }

    /// Moves to `position`, at most to the length, and gives the new position.
    pub fn set_pos(&mut self, position: usize) -> (n: usize)
        requires
            old(self).wf(),
        ensures
            final(self).wf(),
            n == if position < old(self).len_spec() {
                position as nat
            } else {
                old(self).len_spec()
            },
            final(self).pos_spec() == n,
            final(self).bytes() == old(self).bytes(),
            final(self).len_spec() == old(self).len_spec(),
    {
        let pos = if position < self.len {
            position
        } else {
            self.len
        };
        self.pos = pos;
        pos
    }

    /// The number of bits that count.
    pub fn len(&self) -> (n: usize)
        ensures
            n == self.len_spec(),
    {
        self.len
    }

    /// Lets `len` bits count, at most those of the bytes, and gives the new length.
    pub fn set_len(&mut self, len: usize) -> (n: usize)
        requires
            old(self).wf(),
        ensures
            final(self).wf(),
            n == if len < old(self).bytes().len() * 8 {
                len as nat
            } else {
                old(self).bytes().len() * 8
            },
            final(self).len_spec() == n,
            final(self).bytes() == old(self).bytes(),
            final(self).pos_spec() == old(self).pos_spec(),
    {
        let max = self.slice.len() * 8;
        let len = if len < max {
            len
        } else {
            max
        };
        self.len = len;
        len
    }

    /// The number of bits that count and were not read yet.
    pub fn remaining(&self) -> (n: usize)
        requires
            self.pos_spec() <= self.len_spec(),
        ensures
            n == self.len_spec() - self.pos_spec(),
    {
        self.len - self.pos
    }
}

} // verus!
