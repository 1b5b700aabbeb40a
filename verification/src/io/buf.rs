//! A growable byte buffer with separate read and write positions.
use vstd::prelude::*;

verus! {

/// A sequence of `n` zero bytes.
pub open spec fn zero_bytes(n: nat) -> Seq<u8> {
    Seq::new(n, |i: int| 0u8)
}

/// A growable byte buffer that is written and read octet by octet.
#[derive(Debug)]
pub struct OctetBuffer {
    pub(crate) buffer: Vec<u8>,
    pub(crate) write_position: usize,
    pub(crate) read_position: usize,
}

impl OctetBuffer {
    /// The bytes of the buffer.
    pub closed spec fn bytes(&self) -> Seq<u8> {
        self.buffer@
    }

    /// The position writing continues at.
    pub closed spec fn write_pos(&self) -> nat {
        self.write_position as nat
    }

    /// The position reading continues at.
    pub closed spec fn read_pos(&self) -> nat {
        self.read_position as nat
    }

    pub(crate) proof fn lemma_accessors(&self)
        ensures
            self.bytes() == self.buffer@,
            self.write_pos() == self.write_position,
            self.read_pos() == self.read_position,
    {
    }

    /// Inside the crate, the bytes are those of the vector.
    pub(crate) broadcast proof fn lemma_bytes(&self)
        ensures
            #[trigger] self.bytes() == self.buffer@,
    {
    }

    /// Inside the crate, the write position is that of the field.
    pub(crate) broadcast proof fn lemma_write_pos(&self)
        ensures
            #[trigger] self.write_pos() == self.write_position,
    {
    }

    /// Inside the crate, the read position is that of the field.
    pub(crate) broadcast proof fn lemma_read_pos(&self)
        ensures
            #[trigger] self.read_pos() == self.read_position,
    {
    }

    /// An empty buffer; `capacity` bytes are reserved.
    pub fn with_capacity(capacity: usize) -> (b: Self)
        ensures
            b.bytes() == Seq::<u8>::empty(),
            b.write_pos() == 0,
            b.read_pos() == 0,
    {
        OctetBuffer { buffer: Vec::with_capacity(capacity), write_position: 0, read_position: 0 }
    }

    /// A buffer holding `buffer`, with both positions at its start.
    pub fn from_bytes(buffer: Vec<u8>) -> (b: Self)
        ensures
            b.bytes() == buffer@,
            b.write_pos() == 0,
            b.read_pos() == 0,
    {
        OctetBuffer { buffer, write_position: 0, read_position: 0 }
    }

    /// Removes all bytes and resets both positions.
    pub fn clear(&mut self)
        ensures
            final(self).bytes() == Seq::<u8>::empty(),
            final(self).write_pos() == 0,
            final(self).read_pos() == 0,
    {
        self.buffer.clear();
        self.write_position = 0;
        self.read_position = 0;
    }

    /// Restarts reading at the first byte.
    pub fn reset_read_position(&mut self)
        ensures
            final(self).bytes() == old(self).bytes(),
            final(self).write_pos() == old(self).write_pos(),
            final(self).read_pos() == 0,
    {
        self.read_position = 0;
    }

    /// The bytes of the buffer.
    pub fn content(&self) -> (c: &[u8])
        ensures
            c@ == self.bytes(),
    {
        self.buffer.as_slice()
    }

    /// The number of bytes held.
    pub fn byte_len(&self) -> (n: usize)
        ensures
            n == self.bytes().len(),
    {
        self.buffer.len()
    }

    /// The bytes of the buffer, consuming it.
    pub fn into_bytes(self) -> (v: Vec<u8>)
        ensures
            v@ == self.bytes(),
    {
        self.buffer
    }

    /// Appends zero bytes so that `byte_len` more bytes fit behind the write position: the
    /// buffer then holds more than `write_position + byte_len` bytes only if it did before.
    pub fn ensure_can_write_additional_bytese(&mut self, byte_len: usize)
        requires
            old(self).write_pos() + byte_len <= usize::MAX,
        ensures
            final(self).bytes() == old(self).bytes() + zero_bytes(
                if old(self).write_pos() + byte_len >= old(self).bytes().len() {
                    (old(self).write_pos() + byte_len - old(self).bytes().len()) as nat
                } else {
                    0
                },
            ),
            final(self).write_pos() == old(self).write_pos(),
            final(self).read_pos() == old(self).read_pos(),
    {
        if self.write_position + byte_len >= self.buffer.len() {
            let required_len = self.write_position + byte_len;
            let ghost b0 = self.buffer@;
            while self.buffer.len() < required_len
                invariant
                    self.write_position == old(self).write_position,
                    self.read_position == old(self).read_position,
                    b0 == old(self).buffer@,
                    b0.len() <= self.buffer@.len() <= required_len,
                    required_len == self.write_position + byte_len,
                    self.buffer@ == b0 + zero_bytes((self.buffer@.len() - b0.len()) as nat),
                decreases required_len - self.buffer@.len(),
            {
                self.buffer.push(0u8);
                assert(self.buffer@ =~= b0 + zero_bytes((self.buffer@.len() - b0.len()) as nat));
            }
        } else {
            assert(self.buffer@ =~= old(self).buffer@ + zero_bytes(0));
        }
    }
}

impl OctetBuffer {
    /// Moves the write position to `position`, at most the buffer's length, for the call of
    /// `f`, and back afterwards; the result is what `f` returns.
    pub fn with_write_position_at<T, F: Fn(&mut Self) -> T>(&mut self, position: usize, f: F) -> (result: T)
        requires
            position <= old(self).bytes().len(),
            forall|b: &mut Self| #[trigger] f.requires((b,)),
        ensures
            final(self).write_pos() == old(self).write_pos(),
            exists|b: &mut Self|
                #![trigger f.ensures((b,), result)]
                b.bytes() == old(self).bytes() && b.write_pos() == position && b.read_pos() == old(
                    self,
                ).read_pos() && f.ensures((b,), result) && final(b).bytes() == final(self).bytes()
                    && final(b).read_pos() == final(self).read_pos(),
    {
        let before = self.write_position;
        self.write_position = position;
        let result = f(self);
        self.write_position = before;
        result
    }

    /// Moves the read position to `position`, at most the write position, for the call of `f`,
    /// and back afterwards; the result is what `f` returns.
    pub fn with_read_position_at<T, F: Fn(&mut Self) -> T>(&mut self, position: usize, f: F) -> (result: T)
        requires
            position <= old(self).write_pos(),
            forall|b: &mut Self| #[trigger] f.requires((b,)),
        ensures
            final(self).read_pos() == old(self).read_pos(),
            exists|b: &mut Self|
                #![trigger f.ensures((b,), result)]
                b.bytes() == old(self).bytes() && b.read_pos() == position && b.write_pos() == old(
                    self,
                ).write_pos() && f.ensures((b,), result) && final(b).bytes() == final(self).bytes()
                    && final(b).write_pos() == final(self).write_pos(),
    {
        let before = self.read_position;
        self.read_position = position;
        let result = f(self);
        self.read_position = before;
        result
    }

    /// Moves the write position to `max_read_len` bits behind the read position for the call
    /// of `f`, and back afterwards; the result is what `f` returns.
    pub fn with_max_read<T, F: Fn(&mut Self) -> T>(&mut self, max_read_len: usize, f: F) -> (result: T)
        requires
            old(self).read_pos() + max_read_len <= usize::MAX,
            forall|b: &mut Self| #[trigger] f.requires((b,)),
        ensures
            final(self).write_pos() == old(self).write_pos(),
            exists|b: &mut Self|
                #![trigger f.ensures((b,), result)]
                b.bytes() == old(self).bytes() && b.write_pos() == old(self).read_pos() + max_read_len
                    && b.read_pos() == old(self).read_pos() && f.ensures((b,), result) && final(b).bytes()
                    == final(self).bytes() && final(b).read_pos() == final(self).read_pos(),
    {
        let before = self.write_position;
        self.write_position = self.read_position + max_read_len;
        let result = f(self);
        self.write_position = before;
        result
    }
}

impl Default for OctetBuffer {
    fn default() -> (b: Self)
        ensures
            b.bytes() == Seq::<u8>::empty(),
            b.write_pos() == 0,
            b.read_pos() == 0,
    {
        OctetBuffer { buffer: Vec::new(), write_position: 0, read_position: 0 }
    }
}

} // verus!
