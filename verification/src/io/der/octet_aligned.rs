//! Reading identifiers, lengths and values from an [`OctetBuffer`].
use vstd::prelude::*;
use crate::io::buf::OctetBuffer;
use crate::io::der::{be_value, lemma_octet_pow_8, octet_pow, DistinguishedWrite};
use crate::io::per::err::{Error, ErrorKind};
use crate::model::Tag;

verus! {

broadcast use {OctetBuffer::lemma_bytes, OctetBuffer::lemma_write_pos, OctetBuffer::lemma_read_pos};

/// Whether a value is primitive or constructed.
#[derive(Debug)]
pub enum PC {
    Primitive,
    Constructed,
}

impl From<bool> for PC {
    fn from(v: bool) -> (pc: Self) {
        if v {
            PC::Constructed
        } else {
            PC::Primitive
        }
    }
}

impl vstd::std_specs::convert::FromSpecImpl<bool> for PC {
    open spec fn obeys_from_spec() -> bool {
        true
    }

    open spec fn from_spec(v: bool) -> PC {
        if v {
            PC::Constructed
        } else {
            PC::Primitive
        }
    }
}

/// The length of a value: indefinite, a number of octets, or the reserved form.
#[derive(Debug)]
pub enum Length {
    Indefinite,
    Definite(usize),
    Reserved,
}

/// The tag of an identifier octet: its class in the two most significant bits, its number in
/// the five least significant ones.
pub open spec fn identifier_tag(octet: u8) -> Tag {
    let number = (octet % 32) as usize;
    let class = octet / 64;
    if class == 0 {
        Tag::Universal(number)
    } else if class == 1 {
        Tag::Application(number)
    } else if class == 2 {
        Tag::ContextSpecific(number)
    } else {
        Tag::Private(number)
    }
}

/// The length announced at `p` in `b` (X.690 8.1.3): a clear most significant bit gives it
/// directly, `0x80` stands for the indefinite form, `0xFF` for the reserved one; otherwise the
/// low bits count the big-endian octets that follow.
pub open spec fn der_length(b: Seq<u8>, p: nat) -> (Result<Length, ErrorKind>, nat) {
    if p >= b.len() {
        (Err(ErrorKind::EndOfStream), p)
    } else {
        let octet = b[p as int];
        let n = (octet % 128) as nat;
        if octet < 128 {
            (Ok(Length::Definite(n as usize)), p + 1)
        } else if n == 0 {
            (Ok(Length::Indefinite), p + 1)
        } else if n == 127 {
            (Ok(Length::Reserved), p + 1)
        } else if p + 1 + n > b.len() {
            (Err(ErrorKind::EndOfStream), p + 1)
        } else {
            (
                Ok(Length::Definite(be_value(b.subrange(p as int + 1, p as int + 1 + n)) as usize)),
                p + 1 + n,
            )
        }
    }
}

impl OctetBuffer {
    /// Reads the octet at the read position; fails with `EndOfStream` at the end of the
    /// buffer.
    pub fn read_octet(&mut self) -> (res: Result<u8, Error>)
        ensures
            final(self).bytes() == old(self).bytes(),
            final(self).write_pos() == old(self).write_pos(),
            old(self).read_pos() >= old(self).bytes().len() ==> res == Err::<u8, Error>(
                Error { kind: ErrorKind::EndOfStream },
            ) && final(self).read_pos() == old(self).read_pos(),
            old(self).read_pos() < old(self).bytes().len() ==> res == Ok::<u8, Error>(
                old(self).bytes()[old(self).read_pos() as int],
            ) && final(self).read_pos() == old(self).read_pos() + 1,
    {
        proof {
            self.lemma_accessors();
        }
        if self.read_position >= self.buffer.len() {
            return Err(Error { kind: ErrorKind::EndOfStream });
        }
        let octet = self.buffer[self.read_position];
        self.read_position = self.read_position + 1;
        Ok(octet)
    }

    /// Reads `dst_len` octets, as many as `dst` holds; fails with `EndOfStream` when the buffer
    /// ends before.
    pub fn read_octets_with_len(&mut self, dst: &mut [u8], dst_len: usize) -> (res: Result<(), Error>)
        requires
            old(dst)@.len() == dst_len,
            old(self).read_pos() + dst_len <= usize::MAX,
        ensures
            final(self).bytes() == old(self).bytes(),
            final(self).write_pos() == old(self).write_pos(),
            old(self).read_pos() + dst_len > old(self).bytes().len() ==> res == Err::<(), Error>(
                Error { kind: ErrorKind::EndOfStream },
            ) && final(self).read_pos() == old(self).read_pos() && final(dst)@ == old(dst)@,
            old(self).read_pos() + dst_len <= old(self).bytes().len() ==> res is Ok && final(dst)@
                == old(self).bytes().subrange(
                old(self).read_pos() as int,
                old(self).read_pos() + dst_len,
            ) && final(self).read_pos() == old(self).read_pos() + dst_len,
    {
        proof {
            self.lemma_accessors();
        }
        if self.read_position + dst_len > self.buffer.len() {
            return Err(Error { kind: ErrorKind::EndOfStream });
        }
        let start = self.read_position;
        let mut i: usize = 0;
        while i < dst_len
            invariant
                0 <= i <= dst_len,
                dst@.len() == dst_len,
                start + dst_len <= self.buffer@.len(),
                start + dst_len <= usize::MAX,
                forall|j: int| 0 <= j < i ==> dst@[j] == self.buffer@[start + j],
            decreases dst_len - i,
        {
            dst[i] = self.buffer[start + i];
            i = i + 1;
        }
        self.read_position = start + dst_len;
        assert(dst@ =~= self.buffer@.subrange(start as int, start + dst_len));
        Ok(())
    }

    /// Reads as many octets as `dst` holds.
    pub fn read_octets(&mut self, dst: &mut [u8]) -> (res: Result<(), Error>)
        requires
            old(self).read_pos() + old(dst)@.len() <= usize::MAX,
        ensures
            final(self).bytes() == old(self).bytes(),
            final(self).write_pos() == old(self).write_pos(),
            old(self).read_pos() + old(dst)@.len() > old(self).bytes().len() ==> res == Err::<
                (),
                Error,
            >(Error { kind: ErrorKind::EndOfStream }) && final(self).read_pos() == old(self).read_pos()
                && final(dst)@ == old(dst)@,
            old(self).read_pos() + old(dst)@.len() <= old(self).bytes().len() ==> res is Ok
                && final(dst)@ == old(self).bytes().subrange(
                old(self).read_pos() as int,
                (old(self).read_pos() + old(dst)@.len()) as int,
            ) && final(self).read_pos() == old(self).read_pos() + old(dst)@.len(),
    {
        let dst_len = dst.len();
        self.read_octets_with_len(dst, dst_len)
    }

    /// Reads an identifier octet (X.690 8.1.2): the tag and whether the value is constructed.
    pub fn read_identifier(&mut self) -> (res: Result<(Tag, PC), Error>)
        ensures
            final(self).bytes() == old(self).bytes(),
            final(self).write_pos() == old(self).write_pos(),
            old(self).read_pos() >= old(self).bytes().len() ==> res == Err::<(Tag, PC), Error>(
                Error { kind: ErrorKind::EndOfStream },
            ) && final(self).read_pos() == old(self).read_pos(),
            old(self).read_pos() < old(self).bytes().len() ==> ({
                let octet = old(self).bytes()[old(self).read_pos() as int];
                &&& res is Ok
                &&& res->Ok_0.0 == identifier_tag(octet)
                &&& res->Ok_0.1 == if (octet / 32) % 2 == 1 {
                    PC::Constructed
                } else {
                    PC::Primitive
                }
                &&& final(self).read_pos() == old(self).read_pos() + 1
            }),
    {
        let octet = match self.read_octet() {
            Ok(o) => o,
            Err(e) => return Err(e),
        };
        let class_bits = (octet / 64) % 4;
        let pc = PC::from((octet / 32) % 2 == 1);
        let tag_number = (octet % 32) as usize;
        let tag = if class_bits == 0 {
            Tag::Universal(tag_number)
        } else if class_bits == 1 {
            Tag::Application(tag_number)
        } else if class_bits == 2 {
            Tag::ContextSpecific(tag_number)
        } else {
            Tag::Private(tag_number)
        };
        Ok((tag, pc))
    }

    /// Reads a length (X.690 8.1.3) as [`der_length`] describes it.
    pub fn read_length(&mut self) -> (res: Result<Length, Error>)
        requires
            old(self).read_pos() < old(self).bytes().len() ==> ({
                let octet = old(self).bytes()[old(self).read_pos() as int];
                octet >= 128 ==> octet % 128 <= 8 || octet % 128 == 127
            }),
            old(self).read_pos() + 1 + 8 <= usize::MAX,
            fits_usize(old(self).bytes(), old(self).read_pos()),
        ensures
            final(self).bytes() == old(self).bytes(),
            final(self).write_pos() == old(self).write_pos(),
            ({
                let (r, q) = der_length(old(self).bytes(), old(self).read_pos());
                &&& final(self).read_pos() == q
                &&& match r {
                    Ok(l) => res == Ok::<Length, Error>(l),
                    Err(k) => res == Err::<Length, Error>(Error { kind: k }),
                }
            }),
    {
        let octet = match self.read_octet() {
            Ok(o) => o,
            Err(e) => return Err(e),
        };
        let length_number = (octet % 128) as usize;
        if octet < 128 {
            return Ok(Length::Definite(length_number));
        }
        if length_number == 0 {
            Ok(Length::Indefinite)
        } else if length_number == 127 {
            Ok(Length::Reserved)
        } else {
            proof {
                self.lemma_accessors();
            }
            let start = self.read_position;
            if start + length_number > self.buffer.len() {
                return Err(Error { kind: ErrorKind::EndOfStream });
            }
            let mut value: u64 = 0;
            let mut i: usize = 0;
            proof {
                lemma_octet_pow_8();
            }
            while i < length_number
                invariant
                    0 <= i <= length_number <= 8,
                    start + length_number <= self.buffer@.len(),
                    start + length_number <= usize::MAX,
                    value == be_value(self.buffer@.subrange(start as int, start + i)),
                    value < octet_pow(i as nat),
                    octet_pow(8) == 0x1_0000_0000_0000_0000,
                decreases length_number - i,
            {
                let ghost before = self.buffer@.subrange(start as int, start + i);
                proof {
                    assert(self.buffer@.subrange(start as int, start + i + 1).drop_last() =~= before);
                    crate::io::der::lemma_octet_pow_mono((i + 1) as nat, 8);
                }
                value = value * 256 + self.buffer[start + i] as u64;
                i = i + 1;
            }
            self.read_position = start + length_number;
            Ok(Length::Definite(value as usize))
        }
    }

    /// Reads `length` (at most eight) octets as a big-endian number, taken as the `i64` of the
    /// same bits.
    pub fn read_i64_number(&mut self, length: usize) -> (res: Result<i64, Error>)
        requires
            length <= 8,
            old(self).read_pos() + length <= usize::MAX,
        ensures
            final(self).bytes() == old(self).bytes(),
            final(self).write_pos() == old(self).write_pos(),
            old(self).read_pos() + length > old(self).bytes().len() ==> res == Err::<i64, Error>(
                Error { kind: ErrorKind::EndOfStream },
            ) && final(self).read_pos() == old(self).read_pos(),
            old(self).read_pos() + length <= old(self).bytes().len() ==> ({
                let v = be_value(
                    old(self).bytes().subrange(old(self).read_pos() as int, old(self).read_pos() + length),
                );
                &&& res is Ok
                &&& res->Ok_0 == if v >= 0x8000_0000_0000_0000 {
                    v - 0x1_0000_0000_0000_0000
                } else {
                    v as int
                }
                &&& final(self).read_pos() == old(self).read_pos() + length
            }),
    {
        proof {
            self.lemma_accessors();
            lemma_octet_pow_8();
        }
        let start = self.read_position;
        if start + length > self.buffer.len() {
            return Err(Error { kind: ErrorKind::EndOfStream });
        }
        let mut value: u64 = 0;
        let mut i: usize = 0;
        while i < length
            invariant
                0 <= i <= length <= 8,
                start + length <= self.buffer@.len(),
                start + length <= usize::MAX,
                value == be_value(self.buffer@.subrange(start as int, start + i)),
                value < octet_pow(i as nat),
                octet_pow(8) == 0x1_0000_0000_0000_0000,
            decreases length - i,
        {
            let ghost before = self.buffer@.subrange(start as int, start + i);
            proof {
                assert(self.buffer@.subrange(start as int, start + i + 1).drop_last() =~= before);
                crate::io::der::lemma_octet_pow_mono((i + 1) as nat, 8);
            }
            value = value * 256 + self.buffer[start + i] as u64;
            i = i + 1;
        }
        self.read_position = start + length;
        if value >= 0x8000_0000_0000_0000 {
            Ok(-((u64::MAX - value) as i64) - 1)
        } else {
            Ok(value as i64)
        }
    }

    /// Reads `length` octets into a new vector.
    pub fn read_octet_string(&mut self, length: usize) -> (res: Result<Vec<u8>, Error>)
        requires
            old(self).read_pos() + length <= usize::MAX,
        ensures
            final(self).bytes() == old(self).bytes(),
            final(self).write_pos() == old(self).write_pos(),
            old(self).read_pos() + length > old(self).bytes().len() ==> res == Err::<Vec<u8>, Error>(
                Error { kind: ErrorKind::EndOfStream },
            ) && final(self).read_pos() == old(self).read_pos(),
            old(self).read_pos() + length <= old(self).bytes().len() ==> res is Ok && res->Ok_0@
                == old(self).bytes().subrange(old(self).read_pos() as int, old(self).read_pos() + length)
                && final(self).read_pos() == old(self).read_pos() + length,
    {
        let mut buffer: Vec<u8> = Vec::with_capacity(length);
        let mut i: usize = 0;
        while i < length
            invariant
                buffer@.len() == i,
                i <= length,
            decreases length - i,
        {
            buffer.push(0u8);
            i = i + 1;
        }
        match self.read_octets(buffer.as_mut_slice()) {
            Ok(()) => Ok(buffer),
            Err(e) => Err(e),
        }
    }
}

/// A length in the long form names a value that fits in a `usize`.
pub open spec fn fits_usize(b: Seq<u8>, p: nat) -> bool {
    p < b.len() && b[p as int] >= 128 && 1 <= b[p as int] % 128 <= 8 && p + 1 + b[p as int]
        % 128 <= b.len() ==> be_value(b.subrange(p as int + 1, p as int + 1 + b[p as int] % 128)) <= usize::MAX
}

impl DistinguishedWrite for OctetBuffer {
}

} // verus!
