//! The first bit buffer of the UNALIGNED packed encoding rules, with its reader and writer
//! steps. Reading goes bit by bit and stops at the write position with `EndOfStream`.
use vstd::prelude::*;
use crate::io::per::err::ErrorKind;
use crate::io::per::packed::numbers::{bit_count, bits_value, lemma_bit_count, lemma_two_pow_64, two_pow};
use crate::io::per::packed::{bits_needed, twos_value};
use crate::io::per::packed::write::{
    enc_length_unbounded, enc_non_negative, enc_normally_small, enc_unconstrained,
};
use crate::io::per::packed::strings::enc_choice_index;
use crate::io::per::unaligned::buffer::BitBuffer as PackedBuffer;
use crate::io::per::unaligned::slice::{bit_of, bits_view, byte_bit, copied_bits, lemma_byte_ext, write_bit};
use crate::model::rust::{dec_text, push_all, push_dec};
use crate::io::uper::{is_error_of_kind, Error, UPER_LENGTH_DET_L1, UPER_LENGTH_DET_L2};

verus! {

/// Reading `n` bits one by one from the bits `s` written so far, at `p`; at the end of them
/// reading stops with `EndOfStream`, having consumed what was there.
pub open spec fn lbits(s: Seq<bool>, p: nat, n: nat) -> (Result<Seq<bool>, ErrorKind>, nat) {
    if n == 0 {
        (Ok(Seq::empty()), p)
    } else if p + n <= s.len() {
        (Ok(s.subrange(p as int, (p + n) as int)), p + n)
    } else {
        (Err(ErrorKind::EndOfStream), if p < s.len() { s.len() } else { p })
    }
}

/// Reading `n` bits as a big-endian unsigned number.
pub open spec fn luint(s: Seq<bool>, p: nat, n: nat) -> (Result<int, ErrorKind>, nat) {
    let (r, q) = lbits(s, p, n);
    match r {
        Ok(bits) => (Ok(bits_value(bits) as int), q),
        Err(e) => (Err(e), q),
    }
}

/// Reading a whole number between `lower` and `upper`: its offset from `lower` in as many bits
/// as `upper - lower` needs.
pub open spec fn lint(s: Seq<bool>, p: nat, lower: int, upper: int) -> (Result<int, ErrorKind>, nat) {
    let (r, q) = luint(s, p, bit_count((upper - lower) as nat));
    match r {
        Ok(v) => (Ok(lower + v), q),
        Err(e) => (Err(e), q),
    }
}

/// Reading a length determinant: `0` and seven bits, or `10` and fourteen bits; a leading `11`
/// is not supported.
pub open spec fn llength(s: Seq<bool>, p: nat) -> (Result<int, ErrorKind>, nat) {
    if p >= s.len() {
        (Err(ErrorKind::EndOfStream), p)
    } else if !s[p as int] {
        lint(s, p + 1, 0, 127)
    } else if p + 1 >= s.len() {
        (Err(ErrorKind::EndOfStream), p + 1)
    } else if !s[p as int + 1] {
        lint(s, p + 2, 0, 16383)
    } else {
        (Err(ErrorKind::UnsupportedOperation), p + 2)
    }
}

/// Reading an unsigned number as a length determinant counting its octets (at most eight),
/// followed by the octets.
pub open spec fn lint_max_unsigned(s: Seq<bool>, p: nat) -> (Result<int, ErrorKind>, nat) {
    let (r, q) = llength(s, p);
    match r {
        Err(e) => (Err(e), q),
        Ok(len) => if len > 8 {
            (Err(ErrorKind::UnsupportedOperation), q)
        } else {
            luint(s, q, (8 * len) as nat)
        },
    }
}

/// Reading a signed number as a length determinant counting its octets (one to eight),
/// followed by the octets of its two's complement.
pub open spec fn lint_max_signed(s: Seq<bool>, p: nat) -> (Result<int, ErrorKind>, nat) {
    let (r, q) = llength(s, p);
    match r {
        Err(e) => (Err(e), q),
        Ok(len) => if len > 8 {
            (Err(ErrorKind::UnsupportedOperation), q)
        } else {
            let (r2, q2) = lbits(s, q, (8 * len) as nat);
            match r2 {
                Ok(bits) => (Ok(twos_value(bits)), q2),
                Err(e) => (Err(e), q2),
            }
        },
    }
}

/// Reading a normally small number: `0` and six bits, or `1` and an unsigned number as
/// [`lint_max_unsigned`] reads it.
pub open spec fn lnormally_small(s: Seq<bool>, p: nat) -> (Result<int, ErrorKind>, nat) {
    if p >= s.len() {
        (Err(ErrorKind::EndOfStream), p)
    } else if !s[p as int] {
        luint(s, p + 1, 6)
    } else {
        lint_max_unsigned(s, p + 1)
    }
}

/// Reading the index of an extensible choice with `variants` root variants: a set first bit
/// is followed by the distance from the last root variant as a normally small number, a clear
/// one by the index among the root variants.
pub open spec fn lchoice_index(s: Seq<bool>, p: nat, variants: int) -> (Result<int, ErrorKind>, nat) {
    if p >= s.len() {
        (Err(ErrorKind::EndOfStream), p)
    } else if s[p as int] {
        let (r, q) = lnormally_small(s, p + 1);
        match r {
            Ok(v) => (Ok(v + variants), q),
            Err(e) => (Err(e), q),
        }
    } else {
        lint(s, p + 1, 0, variants - 1)
    }
}

/// `res` is the `u64` form of the outcome `r` of a reading step.
pub open spec fn same_u64(res: Result<u64, Error>, r: Result<int, ErrorKind>) -> bool {
    match r {
        Ok(v) => res is Ok && res->Ok_0 == v,
        Err(k) => res is Err && is_error_of_kind(res->Err_0, k),
    }
}

/// `res` is the `i64` form of the outcome `r` of a reading step.
pub open spec fn same_i64(res: Result<i64, Error>, r: Result<int, ErrorKind>) -> bool {
    match r {
        Ok(v) => res is Ok && res->Ok_0 == v,
        Err(k) => res is Err && is_error_of_kind(res->Err_0, k),
    }
}

/// The value of an outcome lies within `lo..=hi` when there is one.
pub open spec fn fits(r: Result<int, ErrorKind>, lo: int, hi: int) -> bool {
    match r {
        Ok(v) => lo <= v <= hi,
        Err(_) => true,
    }
}

/// A growable byte buffer that is written and read bit by bit.
#[derive(Debug)]
pub struct BitBuffer {
    pub(crate) inner: PackedBuffer,
}

impl BitBuffer {
    /// The bytes of the buffer.
    pub closed spec fn bytes(&self) -> Seq<u8> {
        self.inner.bytes()
    }

    /// The number of bits written so far.
    pub closed spec fn write_pos(&self) -> nat {
        self.inner.write_pos()
    }

    /// The bit position reading continues at.
    pub closed spec fn read_pos(&self) -> nat {
        self.inner.read_pos()
    }

    /// The bits written so far.
    pub open spec fn written(&self) -> Seq<bool> {
        bits_view(self.bytes()).take(self.write_pos() as int)
    }

    /// The buffer holds as many bytes as the written bits fill, and every bit behind them is
    /// clear: its bytes are the written bits padded with clear bits to a whole byte (see
    /// [`lemma_tight_bytes`]). Writes keep a buffer so.
    pub open spec fn tight(&self) -> bool {
        &&& self.bytes().len() == (self.write_pos() + 7) / 8
        &&& forall|i: int| self.write_pos() <= i < self.bytes().len() * 8 ==> !#[trigger] bit_of(self.bytes(), i)
    }

    /// Both positions lie within the buffer and its bit count fits in a `usize`.
    pub open spec fn wf(&self) -> bool {
        &&& self.bytes().len() * 8 <= usize::MAX
        &&& self.write_pos() <= self.bytes().len() * 8
        &&& self.read_pos() <= self.bytes().len() * 8
    }

    /// An empty buffer; `capacity` bytes are reserved.
    pub fn with_capacity(capacity: usize) -> (b: Self)
        ensures
            b.tight(),
            b.bytes() == Seq::<u8>::empty(),
            b.write_pos() == 0,
            b.read_pos() == 0,
            b.wf(),
    {
        BitBuffer { inner: PackedBuffer::with_capacity(capacity) }
    }

    /// A buffer holding `buffer`, all of whose bits count as written.
    pub fn from_bytes(buffer: Vec<u8>) -> (b: Self)
        requires
            buffer@.len() * 8 <= usize::MAX,
        ensures
            b.tight(),
            b.bytes() == buffer@,
            b.write_pos() == buffer@.len() * 8,
            b.read_pos() == 0,
            b.wf(),
    {
        BitBuffer { inner: PackedBuffer::from_bytes(buffer) }
    }

    /// A buffer holding `buffer`, of which the first `bit_length` bits count as written.
    pub fn from_bits(buffer: Vec<u8>, bit_length: usize) -> (b: Self)
        requires
            buffer@.len() * 8 <= usize::MAX,
            bit_length <= buffer@.len() * 8,
        ensures
            b.bytes() == buffer@,
            b.write_pos() == bit_length,
            b.read_pos() == 0,
            b.wf(),
    {
        BitBuffer { inner: PackedBuffer::from_bits(buffer, bit_length) }
    }

    /// A buffer holding `buffer` with the given write and read positions.
    pub fn from_bits_with_position(
        buffer: Vec<u8>,
        write_position: usize,
        read_position: usize,
    ) -> (b: Self)
        requires
            buffer@.len() * 8 <= usize::MAX,
            write_position <= buffer@.len() * 8,
            read_position <= buffer@.len() * 8,
        ensures
            b.bytes() == buffer@,
            b.write_pos() == write_position,
            b.read_pos() == read_position,
            b.wf(),
    {
        BitBuffer {
            inner: PackedBuffer::from_bits_with_position(buffer, write_position, read_position),
        }
    }

    /// Removes all bytes and resets both positions.
    pub fn clear(&mut self)
        ensures
            final(self).tight(),
            final(self).bytes() == Seq::<u8>::empty(),
            final(self).write_pos() == 0,
            final(self).read_pos() == 0,
            final(self).wf(),
    {
        self.inner.clear()
    }

    /// Restarts reading at the first bit.
    pub fn reset_read_position(&mut self)
        ensures
            final(self).bytes() == old(self).bytes(),
            final(self).write_pos() == old(self).write_pos(),
            final(self).read_pos() == 0,
    {
        self.inner.reset_read_position()
    }

    /// The bytes of the buffer.
    pub fn content(&self) -> (c: &[u8])
        ensures
            c@ == self.bytes(),
    {
        self.inner.content()
    }

    /// The number of bits written.
    pub fn bit_len(&self) -> (n: usize)
        ensures
            n == self.write_pos(),
    {
        self.inner.bit_len()
    }

    /// The number of bytes held.
    pub fn byte_len(&self) -> (n: usize)
        ensures
            n == self.bytes().len(),
    {
        self.inner.byte_len()
    }

    /// The number of written bits not read yet.
    pub(crate) fn unread_bits(&self) -> (n: usize)
        requires
            self.wf(),
        ensures
            n == if self.read_pos() < self.write_pos() {
                self.write_pos() - self.read_pos()
            } else {
                0
            },
    {
        proof {
            self.inner.lemma_accessors();
        }
        if self.inner.read_position < self.inner.write_position {
            self.inner.write_position - self.inner.read_position
        } else {
            0
        }
    }

    /// The bytes of the buffer, consuming it.
    pub fn into_bytes(self) -> (v: Vec<u8>)
        ensures
            v@ == self.bytes(),
    {
        self.inner.into_bytes()
    }
}

impl BitBuffer {
    /// Reads the next bit; fails with `EndOfStream` once the write position is reached.
    pub fn read_bit(&mut self) -> (res: Result<bool, Error>)
        requires
            old(self).wf(),
        ensures
            final(self).bytes() == old(self).bytes(),
            final(self).write_pos() == old(self).write_pos(),
            final(self).wf(),
            old(self).read_pos() < old(self).write_pos() ==> res == Ok::<bool, Error>(
                old(self).written()[old(self).read_pos() as int],
            ) && final(self).read_pos() == old(self).read_pos() + 1,
            old(self).read_pos() >= old(self).write_pos() ==> res == Err::<bool, Error>(
                Error::EndOfStream,
            ) && final(self).read_pos() == old(self).read_pos(),
    {
        match self.inner.read_bit() {
            Ok(bit) => Ok(bit),
            Err(_) => Err(Error::EndOfStream),
        }
    }

    /// Reads the next `n` bits (at most 64) one by one as a big-endian unsigned number.
    fn read_uint_bits(&mut self, n: usize) -> (res: Result<u64, Error>)
        requires
            old(self).wf(),
            n <= 64,
        ensures
            final(self).bytes() == old(self).bytes(),
            final(self).write_pos() == old(self).write_pos(),
            final(self).wf(),
            ({
                let (r, q) = luint(old(self).written(), old(self).read_pos(), n as nat);
                final(self).read_pos() == q && same_u64(res, r)
            }),
    {
        let ghost s = old(self).written();
        let ghost p = old(self).read_pos();
        proof {
            self.inner.lemma_accessors();
        }
        if n == 0 {
            assert(bits_value(Seq::<bool>::empty()) == 0);
            return Ok(0);
        }
        if self.inner.read_position >= self.inner.write_position {
            return Err(Error::EndOfStream);
        }
        assert(s.len() == old(self).write_pos());
        let mut value: u64 = 0;
        let mut k: usize = 0;
        while k < n
            invariant
                0 <= k <= n <= 64,
                self.wf(),
                self.bytes() == old(self).bytes(),
                self.write_pos() == old(self).write_pos(),
                s == self.written(),
                s == old(self).written(),
                p == old(self).read_pos(),
                self.read_pos() == p + k,
                p + k <= s.len(),
                p < s.len(),
                s.len() == self.write_pos(),
                n > 0,
                value == bits_value(s.subrange(p as int, p + k)),
                value < two_pow(k as nat),
            decreases n - k,
        {
            let bit = match self.read_bit() {
                Ok(bit) => bit,
                Err(e) => {
                    assert(p + k == s.len());
                    return Err(e);
                },
            };
            proof {
                assert(s.subrange(p as int, p + k + 1) =~= s.subrange(p as int, p + k).push(bit));
                crate::io::per::packed::numbers::lemma_bits_value_push(s.subrange(p as int, p + k), bit);
                crate::io::per::packed::numbers::lemma_two_pow_mono((k + 1) as nat, 64);
                lemma_two_pow_64();
            }
            value = value * 2 + if bit {
                1
            } else {
                0
            };
            k = k + 1;
        }
        Ok(value)
    }
}

/// The message of the error refusing a length determinant for `length` beyond `limit`.
pub open spec fn length_message(limit: nat, length: nat) -> Seq<char> {
    "Writing length determinant for lengths > "@ + dec_text(limit)
        + " is unsupported, tried for length "@ + dec_text(length)
}

/// The message of the error refusing a length determinant for `length` beyond `limit`.
fn unsupported_length_message(limit: u64, length: usize) -> (s: String)
    ensures
        s@ == length_message(limit as nat, length as nat),
{
    let mut s = String::from_str("Writing length determinant for lengths > ");
    push_dec(&mut s, limit);
    push_all(&mut s, " is unsupported, tried for length ");
    push_dec(&mut s, length as u64);
    s
}

impl BitBuffer {
    /// Reads a whole number between the two bounds of `range`: the offset from the lower bound
    /// in as many bits as the distance of the bounds needs.
    pub fn read_int(&mut self, range: (i64, i64)) -> (res: Result<i64, Error>)
        requires
            old(self).wf(),
            range.0 <= range.1,
            range.1 - range.0 <= i64::MAX,
            fits(
                lint(old(self).written(), old(self).read_pos(), range.0 as int, range.1 as int).0,
                i64::MIN as int,
                i64::MAX as int,
            ),
        ensures
            final(self).bytes() == old(self).bytes(),
            final(self).write_pos() == old(self).write_pos(),
            final(self).wf(),
            ({
                let (r, q) = lint(old(self).written(), old(self).read_pos(), range.0 as int, range.1 as int);
                final(self).read_pos() == q && same_i64(res, r)
            }),
    {
        let (lower, upper) = range;
        let distance = (upper - lower) as u64;
        let n = bits_needed(distance);
        proof {
            lemma_two_pow_64();
            crate::io::per::packed::numbers::lemma_bit_count_le(distance as nat, 63);
            lemma_bit_count(distance as nat);
        }
        let v = match self.read_uint_bits(n) {
            Ok(v) => v,
            Err(e) => return Err(e),
        };
        proof {
            crate::io::per::packed::numbers::lemma_bits_value_bound(
                old(self).written().subrange(old(self).read_pos() as int, old(self).read_pos() + n),
            );
            crate::io::per::packed::numbers::lemma_two_pow_mono(n as nat, 63);
        }
        Ok(lower + v as i64)
    }

    /// Reads a length determinant of one or two octets; a longer one is refused with
    /// `UnsupportedOperation`.
    pub fn read_length_determinant(&mut self) -> (res: Result<usize, Error>)
        requires
            old(self).wf(),
        ensures
            final(self).bytes() == old(self).bytes(),
            final(self).write_pos() == old(self).write_pos(),
            final(self).wf(),
            ({
                let (r, q) = llength(old(self).written(), old(self).read_pos());
                &&& final(self).read_pos() == q
                &&& match r {
                    Ok(v) => res is Ok && res->Ok_0 == v,
                    Err(k) => res is Err && is_error_of_kind(res->Err_0, k),
                }
            }),
    {
        proof {
            assert(bit_count(127) == 7) by {
                reveal_with_fuel(bit_count, 8);
            }
            assert(bit_count(16383) == 14) by {
                reveal_with_fuel(bit_count, 15);
            }
            assert(two_pow(14) == 16384) by {
                reveal_with_fuel(two_pow, 15);
            }
            let s = old(self).written();
            let p = old(self).read_pos();
            if p + 1 + 7 <= s.len() {
                crate::io::per::packed::numbers::lemma_bits_value_bound(s.subrange(p as int + 1, p as int + 1 + 7));
            }
            if p + 2 + 14 <= s.len() {
                crate::io::per::packed::numbers::lemma_bits_value_bound(s.subrange(p as int + 2, p as int + 2 + 14));
            }
            lemma_two_pow_64();
        }
        let first = match self.read_bit() {
            Ok(bit) => bit,
            Err(e) => return Err(e),
        };
        if !first {
            // at most UPER_LENGTH_DET_L1
            match self.read_int((0, UPER_LENGTH_DET_L1)) {
                Ok(v) => Ok(v as usize),
                Err(e) => Err(e),
            }
        } else {
            let second = match self.read_bit() {
                Ok(bit) => bit,
                Err(e) => return Err(e),
            };
            if !second {
                // at most UPER_LENGTH_DET_L2
                match self.read_int((0, UPER_LENGTH_DET_L2)) {
                    Ok(v) => Ok(v as usize),
                    Err(e) => Err(e),
                }
            } else {
                Err(
                    Error::UnsupportedOperation(
                        String::from_str("Cannot read length determinant for other than i8 and i16"),
                    ),
                )
            }
        }
    }
}

impl BitBuffer {
    /// Reads an unsigned number: a length determinant counting its octets, then the octets;
    /// more than eight octets are refused with `UnsupportedOperation`.
    pub fn read_int_max_unsigned(&mut self) -> (res: Result<u64, Error>)
        requires
            old(self).wf(),
        ensures
            final(self).bytes() == old(self).bytes(),
            final(self).write_pos() == old(self).write_pos(),
            final(self).wf(),
            ({
                let (r, q) = lint_max_unsigned(old(self).written(), old(self).read_pos());
                final(self).read_pos() == q && same_u64(res, r)
            }),
    {
        let len_in_bytes = match self.read_length_determinant() {
            Ok(len) => len,
            Err(e) => return Err(e),
        };
        if len_in_bytes > 8 {
            Err(
                Error::UnsupportedOperation(
                    String::from_str("Reading bigger data types than 64bit is not supported"),
                ),
            )
        } else {
            self.read_uint_bits(len_in_bytes * 8)
        }
    }

    /// Reads an unsigned number as [`BitBuffer::read_int_max_unsigned`] does.
    pub fn read_int_max(&mut self) -> (res: Result<u64, Error>)
        requires
            old(self).wf(),
        ensures
            final(self).bytes() == old(self).bytes(),
            final(self).write_pos() == old(self).write_pos(),
            final(self).wf(),
            ({
                let (r, q) = lint_max_unsigned(old(self).written(), old(self).read_pos());
                final(self).read_pos() == q && same_u64(res, r)
            }),
    {
        self.read_int_max_unsigned()
    }

    /// Reads a signed number: a length determinant counting its octets (one at least), then
    /// the octets of its two's complement; more than eight octets are refused with
    /// `UnsupportedOperation`.
    pub fn read_int_max_signed(&mut self) -> (res: Result<i64, Error>)
        requires
            old(self).wf(),
            llength(old(self).written(), old(self).read_pos()).0 != Ok::<int, ErrorKind>(0),
        ensures
            final(self).bytes() == old(self).bytes(),
            final(self).write_pos() == old(self).write_pos(),
            final(self).wf(),
            ({
                let (r, q) = lint_max_signed(old(self).written(), old(self).read_pos());
                final(self).read_pos() == q && same_i64(res, r)
            }),
    {
        let ghost s = old(self).written();
        let len_in_bytes = match self.read_length_determinant() {
            Ok(len) => len,
            Err(e) => return Err(e),
        };
        if len_in_bytes > 8 {
            return Err(
                Error::UnsupportedOperation(
                    String::from_str("Reading bigger data types than 64bit is not supported"),
                ),
            );
        }
        let n = len_in_bytes * 8;
        let ghost q = self.read_pos();
        let v = match self.read_uint_bits(n) {
            Ok(v) => v,
            Err(e) => return Err(e),
        };
        let ghost bits = s.subrange(q as int, q + n);
        proof {
            crate::io::per::packed::lemma_top_bit(bits);
            crate::io::per::packed::numbers::lemma_bits_value_bound(bits);
            lemma_two_pow_64();
            crate::io::per::packed::numbers::lemma_two_pow_mono(n as nat, 64);
            crate::io::per::packed::numbers::lemma_two_pow_mono((n - 1) as nat, 63);
            assert(two_pow(n as nat) == 2 * two_pow((n - 1) as nat));
        }
        let half = crate::io::per::packed::pow2_u64((n - 1) as u64);
        if v >= half {
            // negative: the value minus 2^n
            let complement = (half - 1) - (v - half);
            Ok(-(complement as i64) - 1)
        } else {
            Ok(v as i64)
        }
    }

    /// Reads a normally small number: `0` and six bits, or `1` and an unsigned number as
    /// [`BitBuffer::read_int_max_unsigned`] reads it.
    pub fn read_int_normally_small(&mut self) -> (res: Result<u64, Error>)
        requires
            old(self).wf(),
        ensures
            final(self).bytes() == old(self).bytes(),
            final(self).write_pos() == old(self).write_pos(),
            final(self).wf(),
            ({
                let (r, q) = lnormally_small(old(self).written(), old(self).read_pos());
                final(self).read_pos() == q && same_u64(res, r)
            }),
    {
        let large = match self.read_bit() {
            Ok(bit) => bit,
            Err(e) => return Err(e),
        };
        if !large {
            // six bits of the number
            self.read_uint_bits(6)
        } else {
            // a length determinant and the number
            self.read_int_max_unsigned()
        }
    }

    /// Reads the index of an extensible choice with `no_of_default_variants` root variants.
    pub fn read_choice_index_extensible(&mut self, no_of_default_variants: u64) -> (res: Result<
        u64,
        Error,
    >)
        requires
            old(self).wf(),
            1 <= no_of_default_variants <= i64::MAX,
            fits(
                lchoice_index(old(self).written(), old(self).read_pos(), no_of_default_variants as int).0,
                0,
                u64::MAX as int,
            ),
        ensures
            final(self).bytes() == old(self).bytes(),
            final(self).write_pos() == old(self).write_pos(),
            final(self).wf(),
            ({
                let (r, q) = lchoice_index(old(self).written(), old(self).read_pos(), no_of_default_variants as int);
                final(self).read_pos() == q && same_u64(res, r)
            }),
    {
        let ghost s = old(self).written();
        let ghost p = old(self).read_pos();
        let extended = match self.read_bit() {
            Ok(bit) => bit,
            Err(e) => return Err(e),
        };
        if extended {
            match self.read_int_normally_small() {
                Ok(v) => Ok(v + no_of_default_variants),
                Err(e) => Err(e),
            }
        } else {
            proof {
                let upper = no_of_default_variants - 1;
                lemma_two_pow_64();
                crate::io::per::packed::numbers::lemma_bit_count_le(upper as nat, 63);
                if p + 1 + bit_count(upper as nat) <= s.len() {
                    crate::io::per::packed::numbers::lemma_bits_value_bound(
                        s.subrange(p as int + 1, p as int + 1 + bit_count(upper as nat)),
                    );
                    crate::io::per::packed::numbers::lemma_two_pow_mono(bit_count(upper as nat), 63);
                }
            }
            match self.read_int((0, no_of_default_variants as i64 - 1)) {
                Ok(v) => Ok(v as u64),
                Err(e) => Err(e),
            }
        }
    }
}

impl BitBuffer {
    /// Reads `bit_length` bits one by one into `buffer`, from its bit `bit_offset` on. A
    /// destination too small is refused with `InsufficientSpaceInDestinationBuffer`; at the
    /// write position reading stops with `EndOfStream`, the bits read before staying copied.
    pub fn read_bit_string(&mut self, buffer: &mut [u8], bit_offset: usize, bit_length: usize) -> (res:
        Result<(), Error>)
        requires
            old(self).wf(),
            old(buffer)@.len() * 8 <= usize::MAX,
            bit_offset + bit_length <= usize::MAX,
        ensures
            final(self).bytes() == old(self).bytes(),
            final(self).write_pos() == old(self).write_pos(),
            final(self).wf(),
            old(buffer)@.len() * 8 < bit_offset + bit_length ==> res == Err::<(), Error>(
                Error::InsufficientSpaceInDestinationBuffer,
            ) && final(buffer)@ == old(buffer)@ && final(self).read_pos() == old(self).read_pos(),
            old(buffer)@.len() * 8 >= bit_offset + bit_length && (bit_length == 0 || old(self).read_pos()
                + bit_length <= old(self).write_pos()) ==> res is Ok && copied_bits(
                old(self).bytes(),
                old(self).read_pos() as int,
                old(buffer)@,
                final(buffer)@,
                bit_offset as int,
                bit_length as int,
            ) && final(self).read_pos() == old(self).read_pos() + bit_length,
            old(buffer)@.len() * 8 >= bit_offset + bit_length && bit_length > 0 && old(self).read_pos()
                + bit_length > old(self).write_pos() ==> res == Err::<(), Error>(Error::EndOfStream)
                && copied_bits(
                old(self).bytes(),
                old(self).read_pos() as int,
                old(buffer)@,
                final(buffer)@,
                bit_offset as int,
                if old(self).read_pos() < old(self).write_pos() {
                    old(self).write_pos() - old(self).read_pos()
                } else {
                    0
                },
            ) && final(self).read_pos() == if old(self).read_pos() < old(self).write_pos() {
                old(self).write_pos()
            } else {
                old(self).read_pos()
            },
    {
        if buffer.len() * 8 < bit_offset || buffer.len() * 8 < bit_offset + bit_length {
            return Err(Error::InsufficientSpaceInDestinationBuffer);
        }
        let ghost p = old(self).read_pos();
        let ghost d0 = old(buffer)@;
        let mut i: usize = 0;
        proof {
            assert(0x80u8 & (0x80u8 >> 0u8) != 0u8) by (bit_vector);
            assert(0u8 & (0x80u8 >> 0u8) == 0u8) by (bit_vector);
        }
        while i < bit_length
            invariant
                0 <= i <= bit_length,
                bit_offset + bit_length <= buffer@.len() * 8,
                buffer@.len() * 8 <= usize::MAX,
                buffer@.len() == d0.len(),
                d0 == old(buffer)@,
                p == old(self).read_pos(),
                self.wf(),
                self.bytes() == old(self).bytes(),
                self.write_pos() == old(self).write_pos(),
                self.read_pos() == p + i,
                i == 0 || p + i <= self.write_pos(),
                copied_bits(self.bytes(), p as int, d0, buffer@, bit_offset as int, i as int),
            decreases bit_length - i,
        {
            let ghost before = buffer@;
            let ghost written = self.written();
            let bit = match self.read_bit() {
                Ok(bit) => bit,
                Err(e) => return Err(e),
            };
            let mut pos = bit_offset + i;
            let r = write_bit(buffer, &mut pos, bit);
            proof {
                assert(0x80u8 & (0x80u8 >> 0u8) != 0u8) by (bit_vector);
                assert(0u8 & (0x80u8 >> 0u8) == 0u8) by (bit_vector);
                assert(written[p + i] == bit_of(self.bytes(), p + i));
                assert(bit == bit_of(self.bytes(), p + i));
                assert forall|j: int| 0 <= j < buffer@.len() * 8 implies #[trigger] bit_of(buffer@, j)
                    == if bit_offset <= j < bit_offset + i + 1 {
                    bit_of(self.bytes(), p + (j - bit_offset))
                } else {
                    bit_of(d0, j)
                } by {
                    assert(bit_of(buffer@, j) == if j == bit_offset + i {
                        bit_of(seq![if bit { 0x80u8 } else { 0u8 }], 0)
                    } else {
                        bit_of(before, j)
                    });
                }
            }
            i = i + 1;
        }
        Ok(())
    }

    /// Reads bits into `buffer` from its bit `bit_offset` to its end.
    pub fn read_bit_string_till_end(&mut self, buffer: &mut [u8], bit_offset: usize) -> (res:
        Result<(), Error>)
        requires
            old(self).wf(),
            old(buffer)@.len() * 8 <= usize::MAX,
            bit_offset <= old(buffer)@.len() * 8,
        ensures
            final(self).bytes() == old(self).bytes(),
            final(self).write_pos() == old(self).write_pos(),
            final(self).wf(),
            old(buffer)@.len() * 8 == bit_offset || old(self).read_pos() + (old(buffer)@.len() * 8
                - bit_offset) <= old(self).write_pos() ==> res is Ok && copied_bits(
                old(self).bytes(),
                old(self).read_pos() as int,
                old(buffer)@,
                final(buffer)@,
                bit_offset as int,
                old(buffer)@.len() * 8 - bit_offset,
            ) && final(self).read_pos() == old(self).read_pos() + (old(buffer)@.len() * 8
                - bit_offset),
            old(buffer)@.len() * 8 > bit_offset && old(self).read_pos() + (old(buffer)@.len() * 8
                - bit_offset) > old(self).write_pos() ==> res == Err::<(), Error>(Error::EndOfStream),
    {
        let len = buffer.len() * 8 - bit_offset;
        self.read_bit_string(buffer, bit_offset, len)
    }
}

impl BitBuffer {
    /// Writes one bit at the write position, growing the buffer as needed.
    pub fn write_bit(&mut self, bit: bool) -> (res: Result<(), Error>)
        requires
            old(self).wf(),
            old(self).write_pos() + 16 <= usize::MAX,
        ensures
            old(self).tight() ==> final(self).tight(),
            res is Ok,
            final(self).wf(),
            final(self).write_pos() == old(self).write_pos() + 1,
            final(self).read_pos() == old(self).read_pos(),
            final(self).written() == old(self).written().push(bit),
    {
        let r = self.inner.write_bit(bit);
        Ok(())
    }

    /// Writes `bit_length` bits of `buffer` from its bit `bit_offset` on, growing the buffer as
    /// needed; a source too short is refused with `InsufficientDataInSourceBuffer`.
    pub fn write_bit_string(&mut self, buffer: &[u8], bit_offset: usize, bit_length: usize) -> (res:
        Result<(), Error>)
        requires
            old(self).wf(),
            buffer@.len() * 8 <= usize::MAX,
            old(self).write_pos() + bit_length + 16 <= usize::MAX,
            bit_offset + bit_length + 8 <= usize::MAX,
        ensures
            old(self).tight() && res is Ok ==> final(self).tight(),
            final(self).wf(),
            final(self).read_pos() == old(self).read_pos(),
            buffer@.len() * 8 < bit_offset + bit_length ==> res == Err::<(), Error>(
                Error::InsufficientDataInSourceBuffer,
            ) && final(self).written() == old(self).written(),
            buffer@.len() * 8 >= bit_offset + bit_length ==> res is Ok && final(self).written()
                == old(self).written() + bits_view(buffer@).subrange(
                bit_offset as int,
                bit_offset + bit_length,
            ),
    {
        match self.inner.write_bits_with_offset_len(buffer, bit_offset, bit_length) {
            Ok(()) => Ok(()),
            Err(_) => Err(Error::InsufficientDataInSourceBuffer),
        }
    }

    /// Writes the bits of `buffer` from its bit `bit_offset` to its end.
    pub fn write_bit_string_till_end(&mut self, buffer: &[u8], bit_offset: usize) -> (res: Result<
        (),
        Error,
    >)
        requires
            old(self).wf(),
            buffer@.len() * 8 + 8 <= usize::MAX,
            bit_offset <= buffer@.len() * 8,
            old(self).write_pos() + buffer@.len() * 8 + 16 <= usize::MAX,
        ensures
            old(self).tight() && res is Ok ==> final(self).tight(),
            res is Ok,
            final(self).wf(),
            final(self).read_pos() == old(self).read_pos(),
            final(self).written() == old(self).written() + bits_view(buffer@).subrange(
                bit_offset as int,
                (buffer@.len() * 8) as int,
            ),
    {
        let len = buffer.len() * 8 - bit_offset;
        self.write_bit_string(buffer, bit_offset, len)
    }

    /// Writes a whole number between the two bounds of `range`: its offset from the lower bound
    /// in as many bits as the distance of the bounds needs. A value outside the bounds is
    /// refused with `ValueNotInRange`.
    pub fn write_int(&mut self, value: i64, range: (i64, i64)) -> (res: Result<(), Error>)
        requires
            old(self).wf(),
            old(self).write_pos() + 128 <= usize::MAX,
            range.1 - range.0 <= i64::MAX,
        ensures
            old(self).tight() ==> final(self).tight(),
            final(self).wf(),
            final(self).read_pos() == old(self).read_pos(),
            value < range.0 || value > range.1 ==> res == Err::<(), Error>(
                Error::ValueNotInRange(value, range.0, range.1),
            ) && final(self).written() == old(self).written(),
            range.0 <= value <= range.1 ==> res is Ok && final(self).written() == old(self).written()
                + crate::io::per::packed::write::enc_bounded(value as int, range.0 as int, range.1 as int),
    {
        let (lower, upper) = range;
        if value > upper || value < lower {
            return Err(Error::ValueNotInRange(value, lower, upper));
        }
        let offset = (value - lower) as u64;
        let n = bits_needed((upper - lower) as u64);
        proof {
            lemma_two_pow_64();
            lemma_bit_count((upper - lower) as nat);
            crate::io::per::packed::numbers::lemma_bit_count_le((upper - lower) as nat, 64);
            crate::io::per::packed::numbers::lemma_two_pow_mono(bit_count((upper - lower) as nat), 64);
        }
        let r = self.inner.write_uint(offset, n);
        Ok(())
    }

    /// Writes a length determinant of one or two octets: `0` and seven bits up to 127, `10` and
    /// fourteen bits up to 16383; a longer length is refused with `UnsupportedOperation`.
    pub fn write_length_determinant(&mut self, length: usize) -> (res: Result<(), Error>)
        requires
            old(self).wf(),
            old(self).write_pos() + 256 <= usize::MAX,
        ensures
            old(self).tight() ==> final(self).tight(),
            final(self).wf(),
            final(self).read_pos() == old(self).read_pos(),
            length <= 16383 ==> res is Ok && final(self).written() == old(self).written()
                + enc_length_unbounded(length as nat),
            length > 16383 ==> (res matches Err(Error::UnsupportedOperation(m)) && m@ == length_message(
                16383,
                length as nat,
            )) && final(self).written() == old(self).written(),
    {
        if length <= UPER_LENGTH_DET_L1 as usize {
            let r = self.write_bit(false);
            let r2 = self.write_int(length as i64, (0, UPER_LENGTH_DET_L1));
            proof {
                assert(bit_count(127) == 7) by {
                    reveal_with_fuel(bit_count, 8);
                }
            }
            assert(self.written() =~= old(self).written() + enc_length_unbounded(length as nat));
            Ok(())
        } else if length <= UPER_LENGTH_DET_L2 as usize {
            let r = self.write_bit(true);
            let r2 = self.write_bit(false);
            let r3 = self.write_int(length as i64, (0, UPER_LENGTH_DET_L2));
            proof {
                assert(bit_count(16383) == 14) by {
                    reveal_with_fuel(bit_count, 15);
                }
            }
            assert(self.written() =~= old(self).written() + enc_length_unbounded(length as nat));
            Ok(())
        } else {
            Err(Error::UnsupportedOperation(unsupported_length_message(UPER_LENGTH_DET_L2 as u64, length)))
        }
    }

    /// Writes an unsigned number as the fewest octets holding it (one at least), preceded by
    /// their count.
    pub fn write_int_max_unsigned(&mut self, value: u64) -> (res: Result<(), Error>)
        requires
            old(self).wf(),
            old(self).write_pos() + 512 <= usize::MAX,
        ensures
            old(self).tight() ==> final(self).tight(),
            res is Ok,
            final(self).wf(),
            final(self).read_pos() == old(self).read_pos(),
            final(self).written() == old(self).written() + enc_non_negative(value as nat, None, None),
    {
        let r = self.inner.write_non_negative_binary_integer(None, None, value);
        Ok(())
    }

    /// Writes an unsigned number up to `i64::MAX` as [`BitBuffer::write_int_max_unsigned`]
    /// does; a larger one is refused with `ValueNotInRange`.
    pub fn write_int_max(&mut self, value: u64) -> (res: Result<(), Error>)
        requires
            old(self).wf(),
            old(self).write_pos() + 512 <= usize::MAX,
        ensures
            old(self).tight() ==> final(self).tight(),
            final(self).wf(),
            final(self).read_pos() == old(self).read_pos(),
            value > i64::MAX ==> res == Err::<(), Error>(
                Error::ValueNotInRange((value - 0x1_0000_0000_0000_0000) as i64, 0, i64::MAX),
            ) && final(self).written() == old(self).written(),
            value <= i64::MAX ==> res is Ok && final(self).written() == old(self).written()
                + enc_non_negative(value as nat, None, None),
    {
        if value > 0x7FFF_FFFF_FFFF_FFFF {
            let wrapped = -((u64::MAX - value) as i64) - 1;
            return Err(Error::ValueNotInRange(wrapped, 0, 0x7FFF_FFFF_FFFF_FFFF));
        }
        self.write_int_max_unsigned(value)
    }

    /// Writes a signed number as the fewest octets holding its two's complement, preceded by
    /// their count.
    pub fn write_int_max_signed(&mut self, value: i64) -> (res: Result<(), Error>)
        requires
            old(self).wf(),
            old(self).write_pos() + 512 <= usize::MAX,
        ensures
            old(self).tight() ==> final(self).tight(),
            res is Ok,
            final(self).wf(),
            final(self).read_pos() == old(self).read_pos(),
            final(self).written() == old(self).written() + enc_unconstrained(value as int),
    {
        let r = self.inner.write_unconstrained_whole_number(value);
        Ok(())
    }

    /// Writes a normally small number: up to 63 as `0` and six bits, above as `1` and the
    /// number as [`BitBuffer::write_int_max_unsigned`] writes it.
    pub fn write_int_normally_small(&mut self, value: u64) -> (res: Result<(), Error>)
        requires
            old(self).wf(),
            old(self).write_pos() + 512 <= usize::MAX,
        ensures
            old(self).tight() ==> final(self).tight(),
            res is Ok,
            final(self).wf(),
            final(self).read_pos() == old(self).read_pos(),
            final(self).written() == old(self).written() + enc_normally_small(value as nat),
    {
        let r = self.inner.write_normally_small_non_negative_whole_number(value);
        Ok(())
    }

    /// Writes the index of an extensible choice with `no_of_default_variants` root variants:
    /// a first bit tells whether the index lies beyond the root; then the index among the root
    /// variants, or the distance beyond them as a normally small number.
    pub fn write_choice_index_extensible(&mut self, index: u64, no_of_default_variants: u64) -> (res:
        Result<(), Error>)
        requires
            old(self).wf(),
            old(self).write_pos() + 1024 <= usize::MAX,
            no_of_default_variants <= i64::MAX,
        ensures
            old(self).tight() ==> final(self).tight(),
            res is Ok,
            final(self).wf(),
            final(self).read_pos() == old(self).read_pos(),
            final(self).written() == old(self).written() + enc_choice_index(
                index as nat,
                no_of_default_variants as nat,
                true,
            ),
    {
        let r = self.inner.write_choice_index(no_of_default_variants, true, index);
        Ok(())
    }
}

impl BitBuffer {
    /// Moves the write position to `position` for the call of `f`, and back afterwards; the
    /// result is what `f` returns.
    pub fn with_write_position_at<T, F: Fn(&mut Self) -> T>(&mut self, position: usize, f: F) -> (result: T)
        requires
            position <= old(self).bytes().len() * 8,
            forall|b: &mut Self| #[trigger] f.requires((b,)),
        ensures
            final(self).write_pos() == old(self).write_pos(),
            exists|b: &mut Self|
                #![trigger f.ensures((b,), result)]
                b.bytes() == old(self).bytes() && b.write_pos() == position && b.read_pos() == old(
                    self,
                ).read_pos() && f.ensures((b,), result) && final(b).bytes() == final(self).bytes()
                    && final(b).read_pos() == final(self).read_pos(),
    {
        proof {
            self.inner.lemma_accessors();
        }
        let before = self.inner.write_position;
        self.inner.write_position = position;
        proof {
            self.inner.lemma_accessors();
        }
        let result = f(self);
        proof {
            self.inner.lemma_accessors();
        }
        self.inner.write_position = before;
        proof {
            self.inner.lemma_accessors();
        }
        result
    }

    /// Moves the read position to `position`, at most the write position, for the call of `f`,
    /// and back afterwards; the result is what `f` returns.
    pub fn with_read_position_at<T, F: Fn(&mut Self) -> T>(&mut self, position: usize, f: F) -> (result: T)
        requires
            position <= old(self).write_pos(),
            forall|b: &mut Self| #[trigger] f.requires((b,)),
        ensures
            final(self).read_pos() == old(self).read_pos(),
            exists|b: &mut Self|
                #![trigger f.ensures((b,), result)]
                b.bytes() == old(self).bytes() && b.read_pos() == position && b.write_pos() == old(
                    self,
                ).write_pos() && f.ensures((b,), result) && final(b).bytes() == final(self).bytes()
                    && final(b).write_pos() == final(self).write_pos(),
    {
        proof {
            self.inner.lemma_accessors();
        }
        let before = self.inner.read_position;
        self.inner.read_position = position;
        proof {
            self.inner.lemma_accessors();
        }
        let result = f(self);
        proof {
            self.inner.lemma_accessors();
        }
        self.inner.read_position = before;
        proof {
            self.inner.lemma_accessors();
        }
        result
    }
}

impl Default for BitBuffer {
    fn default() -> (b: Self)
        ensures
            b.tight(),
            b.bytes() == Seq::<u8>::empty(),
            b.write_pos() == 0,
            b.read_pos() == 0,
            b.wf(),
    {
        BitBuffer { inner: PackedBuffer::with_capacity(0) }
    }
}

/// The bytes of `bits` padded with clear bits to a whole byte.
pub open spec fn padded_bytes(bits: Seq<bool>) -> Seq<u8> {
    choose|b: Seq<u8>|
        b.len() == (bits.len() + 7) / 8 && forall|i: int|
            0 <= i < b.len() * 8 ==> #[trigger] bit_of(b, i) == (i < bits.len() && bits[i])
}

/// The bytes of a buffer that [`BitBuffer::tight`] holds of are its written bits, padded with
/// clear bits to a whole byte.
pub proof fn lemma_tight_bytes(b: &BitBuffer)
    requires
        b.wf(),
        b.tight(),
    ensures
        b.bytes() == padded_bytes(b.written()),
{
    let bits = b.written();
    let bytes = b.bytes();
    assert(bytes.len() == (bits.len() + 7) / 8);
    assert forall|i: int| 0 <= i < bytes.len() * 8 implies #[trigger] bit_of(bytes, i) == (i < bits.len()
        && bits[i]) by {
        if i < bits.len() {
            assert(bits[i] == bits_view(bytes)[i]);
        }
    }
    let c = padded_bytes(bits);
    assert(c.len() == bytes.len());
    assert forall|k: int| 0 <= k < bytes.len() implies c[k] == bytes[k] by {
        assert forall|j: int| 0 <= j < 8 implies byte_bit(c[k], j) == byte_bit(bytes[k], j) by {
            let i = 8 * k + j;
            assert(i / 8 == k && i % 8 == j);
            assert(bit_of(c, i) == bit_of(bytes, i));
        }
        lemma_byte_ext(c[k], bytes[k]);
    }
    assert(c =~= bytes);
}

/// Bits standing in the written bits `s` from `p` on.
pub open spec fn written_at(s: Seq<bool>, p: nat, e: Seq<bool>) -> bool {
    p + e.len() <= s.len() && s.subrange(p as int, p as int + e.len()) == e
}

/// A number written in `n` bits is read back from them.
pub proof fn lemma_luint_roundtrip(s: Seq<bool>, p: nat, v: nat, n: nat)
    requires
        v < two_pow(n),
        written_at(s, p, crate::io::per::packed::numbers::uint_bits(v, n)),
    ensures
        luint(s, p, n) == (Ok::<int, ErrorKind>(v as int), p + n),
{
    crate::io::per::packed::numbers::lemma_uint_bits_value(v, n);
    if n == 0 {
        assert(bits_value(Seq::<bool>::empty()) == 0);
    }
}

/// A whole number between two bounds, written with [`BitBuffer::write_int`], is read back by
/// [`BitBuffer::read_int`].
pub proof fn lemma_int_roundtrip(s: Seq<bool>, p: nat, v: int, lower: int, upper: int)
    requires
        lower <= v <= upper,
        written_at(s, p, crate::io::per::packed::write::enc_bounded(v, lower, upper)),
    ensures
        lint(s, p, lower, upper) == (
            Ok::<int, ErrorKind>(v),
            p + crate::io::per::packed::write::enc_bounded(v, lower, upper).len(),
        ),
{
    let n = bit_count((upper - lower) as nat);
    lemma_bit_count((upper - lower) as nat);
    crate::io::per::packed::numbers::lemma_uint_bits_value((v - lower) as nat, n);
    lemma_luint_roundtrip(s, p, (v - lower) as nat, n);
}

/// Written bits stand there piece by piece.
pub proof fn lemma_written_at_split(s: Seq<bool>, p: nat, e1: Seq<bool>, e2: Seq<bool>)
    requires
        written_at(s, p, e1 + e2),
    ensures
        written_at(s, p, e1),
        written_at(s, p + e1.len(), e2),
{
    crate::io::per::packed::laws::lemma_holds_at_split(s, s.len(), p, e1, e2);
}

/// A length determinant below 16K, written with [`BitBuffer::write_length_determinant`], is
/// read back by [`BitBuffer::read_length_determinant`].
pub proof fn lemma_length_determinant_roundtrip(s: Seq<bool>, p: nat, len: nat)
    requires
        len <= 16383,
        written_at(s, p, enc_length_unbounded(len)),
    ensures
        llength(s, p) == (Ok::<int, ErrorKind>(len as int), p + enc_length_unbounded(len).len()),
{
    lemma_two_pow_64();
    assert(bit_count(127) == 7) by {
        reveal_with_fuel(bit_count, 8);
    }
    assert(bit_count(16383) == 14) by {
        reveal_with_fuel(bit_count, 15);
    }
    assert(two_pow(14) == 16384) by {
        reveal_with_fuel(two_pow, 15);
    }
    if len <= 127 {
        lemma_written_at_split(s, p, seq![false], crate::io::per::packed::numbers::uint_bits(len, 7));
        assert(s[p as int] == s.subrange(p as int, p as int + 1)[0]);
        lemma_int_roundtrip(s, p + 1, len as int, 0, 127);
    } else {
        lemma_written_at_split(s, p, seq![true, false], crate::io::per::packed::numbers::uint_bits(len, 14));
        assert(s[p as int] == s.subrange(p as int, p as int + 2)[0]);
        assert(s[p as int + 1] == s.subrange(p as int, p as int + 2)[1]);
        crate::io::per::packed::numbers::lemma_uint_bits_value(len, 14);
        lemma_int_roundtrip(s, p + 2, len as int, 0, 16383);
    }
}

/// An unsigned number written with [`BitBuffer::write_int_max_unsigned`] is read back by
/// [`BitBuffer::read_int_max_unsigned`].
pub proof fn lemma_int_max_unsigned_roundtrip(s: Seq<bool>, p: nat, v: nat)
    requires
        v <= u64::MAX,
        written_at(s, p, enc_non_negative(v, None, None)),
    ensures
        lint_max_unsigned(s, p) == (
            Ok::<int, ErrorKind>(v as int),
            p + enc_non_negative(v, None, None).len(),
        ),
{
    lemma_two_pow_64();
    crate::io::per::packed::write::lemma_octets_needed(v);
    let k = crate::io::per::packed::write::octets_needed(v);
    lemma_written_at_split(s, p, enc_length_unbounded(k), crate::io::per::packed::numbers::uint_bits(v, 8 * k));
    lemma_length_determinant_roundtrip(s, p, k);
    crate::io::per::packed::numbers::lemma_uint_bits_value(v, 8 * k);
    lemma_luint_roundtrip(s, p + enc_length_unbounded(k).len(), v, 8 * k);
}

/// A signed number written with [`BitBuffer::write_int_max_signed`] is read back by
/// [`BitBuffer::read_int_max_signed`].
pub proof fn lemma_int_max_signed_roundtrip(s: Seq<bool>, p: nat, v: int)
    requires
        i64::MIN <= v <= i64::MAX,
        written_at(s, p, enc_unconstrained(v)),
    ensures
        lint_max_signed(s, p) == (Ok::<int, ErrorKind>(v), p + enc_unconstrained(v).len()),
        llength(s, p).0 != Ok::<int, ErrorKind>(0),
{
    lemma_two_pow_64();
    crate::io::per::packed::write::lemma_signed_octets_from(v, 1);
    let k = crate::io::per::packed::write::signed_octets(v);
    let u = crate::io::per::packed::write::twos_unsigned(v, 8 * k);
    let bits = crate::io::per::packed::numbers::uint_bits(u, 8 * k);
    lemma_written_at_split(s, p, enc_length_unbounded(k), bits);
    lemma_length_determinant_roundtrip(s, p, k);
    let q = p + enc_length_unbounded(k).len();
    assert(two_pow(8 * k) == 2 * two_pow((8 * k - 1) as nat));
    crate::io::per::packed::numbers::lemma_uint_bits_value(u, 8 * k);
    crate::io::per::packed::lemma_top_bit(bits);
    assert(s.subrange(q as int, q as int + 8 * k) == bits);
}

/// A normally small number written with [`BitBuffer::write_int_normally_small`] is read back
/// by [`BitBuffer::read_int_normally_small`].
pub proof fn lemma_int_normally_small_roundtrip(s: Seq<bool>, p: nat, v: nat)
    requires
        v <= u64::MAX,
        written_at(s, p, enc_normally_small(v)),
    ensures
        lnormally_small(s, p) == (Ok::<int, ErrorKind>(v as int), p + enc_normally_small(v).len()),
{
    lemma_two_pow_64();
    if v <= 63 {
        lemma_written_at_split(s, p, seq![false], crate::io::per::packed::numbers::uint_bits(v, 6));
        assert(s[p as int] == s.subrange(p as int, p as int + 1)[0]);
        crate::io::per::packed::numbers::lemma_uint_bits_value(v, 6);
        lemma_luint_roundtrip(s, p + 1, v, 6);
    } else {
        lemma_written_at_split(s, p, seq![true], enc_non_negative(v, None, None));
        assert(s[p as int] == s.subrange(p as int, p as int + 1)[0]);
        lemma_int_max_unsigned_roundtrip(s, p + 1, v);
    }
}

/// The index of an extensible choice written with
/// [`BitBuffer::write_choice_index_extensible`] is read back by
/// [`BitBuffer::read_choice_index_extensible`].
pub proof fn lemma_choice_index_extensible_roundtrip(s: Seq<bool>, p: nat, index: nat, variants: nat)
    requires
        1 <= variants <= i64::MAX,
        index <= u64::MAX,
        written_at(s, p, enc_choice_index(index, variants, true)),
    ensures
        lchoice_index(s, p, variants as int) == (
            Ok::<int, ErrorKind>(index as int),
            p + enc_choice_index(index, variants, true).len(),
        ),
{
    let body = if index < variants {
        crate::io::per::packed::write::enc_constrained(index as int, 0, variants - 1)
    } else {
        enc_normally_small((index - variants) as nat)
    };
    assert(enc_choice_index(index, variants, true) == seq![index >= variants] + body);
    lemma_written_at_split(s, p, seq![index >= variants], body);
    assert(s[p as int] == s.subrange(p as int, p as int + 1)[0]);
    if index < variants {
        if variants - 1 > 0 {
            assert(body == crate::io::per::packed::write::enc_bounded(index as int, 0, variants - 1));
            lemma_int_roundtrip(s, p + 1, index as int, 0, variants - 1);
        } else {
            assert(bit_count(0) == 0);
            lemma_luint_roundtrip(s, p + 1, 0, 0);
        }
    } else {
        lemma_int_normally_small_roundtrip(s, p + 1, (index - variants) as nat);
    }
}

} // verus!
