//! The writing side of the packed encoding rules, with the bit strings each step appends.
use vstd::prelude::*;
use crate::io::per::err::{Error, ErrorKind};
use crate::io::per::unaligned::buffer::BitBuffer;
use crate::io::per::packed::numbers::{
    bit_count, lemma_bit_count, lemma_bit_count_le, lemma_two_pow_64, lemma_two_pow_mono, two_pow,
    uint_bits,
};
use crate::io::per::packed::{
    bits_needed, lower_or_default, pow2_u64, upper_or_default, I64_MAX_AS_U64,
};

verus! {

/// The bits of a whole number between `lower` and `upper`: its offset from `lower` in as many
/// bits as `upper - lower` needs.
pub open spec fn enc_bounded(v: int, lower: int, upper: int) -> Seq<bool> {
    uint_bits((v - lower) as nat, bit_count((upper - lower) as nat))
}

/// The bits of a length determinant without bounds below 16K: `0` and seven bits up to 127,
/// `10` and fourteen bits above.
pub open spec fn enc_length_unbounded(len: nat) -> Seq<bool> {
    if len <= 127 {
        seq![false] + uint_bits(len, 7)
    } else {
        seq![true, false] + uint_bits(len, 14)
    }
}

/// The number of octets a non-negative number needs; at least one.
pub open spec fn octets_needed(v: nat) -> nat {
    if bit_count(v) == 0 {
        1
    } else {
        (bit_count(v) + 7) / 8
    }
}

/// The bits of a non-negative binary integer: with bounds as [`enc_bounded`], without as the
/// octet count followed by the octets.
pub open spec fn enc_non_negative(v: nat, lower_bound: Option<u64>, upper_bound: Option<u64>) -> Seq<
    bool,
> {
    if lower_bound is None && upper_bound is None {
        enc_length_unbounded(octets_needed(v)) + uint_bits(v, 8 * octets_needed(v))
    } else {
        enc_bounded(v as int, lower_or_default(lower_bound), upper_or_default(upper_bound))
    }
}

/// The bits of a length determinant between the bounds given (X.691 11.9.4); an equal pair of
/// bounds from 64K on writes nothing.
pub open spec fn enc_length(len: nat, lower_bound: Option<u64>, upper_bound: Option<u64>) -> Seq<
    bool,
> {
    let lower = lower_or_default(lower_bound);
    let upper = upper_or_default(upper_bound);
    if (lower_bound is Some || upper_bound is Some) && upper >= 65536 {
        if lower_bound == upper_bound {
            Seq::empty()
        } else {
            enc_bounded(len as int, lower, upper)
        }
    } else if upper_bound is Some && upper <= 65536 {
        enc_bounded(len as int, lower, upper)
    } else {
        enc_length_unbounded(len)
    }
}

/// The bits of a whole number between two bounds; none when the bounds leave a single value.
pub open spec fn enc_constrained(v: int, lower: int, upper: int) -> Seq<bool> {
    if upper - lower > 0 {
        enc_bounded(v - lower, 0, upper - lower)
    } else {
        Seq::empty()
    }
}

/// The bits of a normally small non-negative whole number.
pub open spec fn enc_normally_small(v: nat) -> Seq<bool> {
    if v <= 63 {
        seq![false] + uint_bits(v, 6)
    } else {
        seq![true] + enc_non_negative(v, None, None)
    }
}

/// `v` fits in `n` bits of two's complement.
pub open spec fn fits_twos(v: int, n: nat) -> bool {
    n >= 1 && -two_pow((n - 1) as nat) <= v < two_pow((n - 1) as nat)
}

/// The unsigned number whose `n` bits are the two's complement of `v`.
pub open spec fn twos_unsigned(v: int, n: nat) -> nat {
    if v < 0 {
        (two_pow(n) + v) as nat
    } else {
        v as nat
    }
}

/// The fewest octets, from `n` on, that hold `v` in two's complement (at most 8).
pub open spec fn signed_octets_from(v: int, n: nat) -> nat
    decreases 8 - n,
{
    if n >= 8 || fits_twos(v, 8 * n) {
        n
    } else {
        signed_octets_from(v, n + 1)
    }
}

/// The fewest octets that hold `v` in two's complement.
pub open spec fn signed_octets(v: int) -> nat {
    signed_octets_from(v, 1)
}

/// The bits of an unconstrained whole number: the octet count, then the two's complement.
pub open spec fn enc_unconstrained(v: int) -> Seq<bool> {
    enc_length_unbounded(signed_octets(v)) + uint_bits(
        twos_unsigned(v, 8 * signed_octets(v)),
        8 * signed_octets(v),
    )
}

pub proof fn lemma_octets_needed(v: nat)
    ensures
        1 <= octets_needed(v) <= 8 || v >= two_pow(64),
        v < two_pow(64) ==> v < two_pow(8 * octets_needed(v)),
{
    lemma_bit_count(v);
    lemma_two_pow_64();
    if v < two_pow(64) {
        lemma_bit_count_le(v, 64);
        lemma_two_pow_mono(bit_count(v), 8 * octets_needed(v));
    }
}

pub proof fn lemma_signed_octets_from(v: int, n: nat)
    requires
        1 <= n <= 8,
        i64::MIN <= v <= i64::MAX,
    ensures
        n <= signed_octets_from(v, n) <= 8,
        fits_twos(v, 8 * signed_octets_from(v, n)),
    decreases 8 - n,
{
    lemma_two_pow_64();
    if n < 8 && !fits_twos(v, 8 * n) {
        lemma_signed_octets_from(v, n + 1);
    }
}

/// Whether `value` fits in `octets` octets of two's complement.
fn fits_in_octets(value: i64, octets: u64) -> (b: bool)
    requires
        1 <= octets <= 8,
    ensures
        b == fits_twos(value as int, 8 * octets as nat),
{
    proof {
        lemma_two_pow_64();
        lemma_two_pow_mono((8 * octets - 1) as nat, 63);
    }
    let half = pow2_u64(octets * 8 - 1);
    if value >= 0 {
        (value as u64) < half
    } else {
        ((-(value + 1)) as u64) < half
    }
}

impl BitBuffer {
    /// Writes a boolean, a single bit (X.691 12).
    pub fn write_boolean(&mut self, boolean: bool) -> (res: Result<(), Error>)
        requires
            old(self).wf(),
            old(self).write_pos() + 16 <= usize::MAX,
        ensures
            res is Ok,
            final(self).wf(),
            final(self).read_pos() == old(self).read_pos(),
            final(self).written() == old(self).written().push(boolean),
            (old(self).tail_clear() ==> final(self).tail_clear()) && (old(self).tight() ==> final(self).tight()),
    {
        self.write_bit(boolean)
    }

    /// Writes a whole number between `lower` and `upper`.
    fn write_bounded(&mut self, lower: u64, upper: u64, value: u64) -> (res: Result<(), Error>)
        requires
            old(self).wf(),
            lower <= value <= upper,
            old(self).write_pos() + 128 <= usize::MAX,
        ensures
            res is Ok,
            final(self).wf(),
            final(self).read_pos() == old(self).read_pos(),
            final(self).written() == old(self).written() + enc_bounded(value as int, lower as int, upper as int),
            final(self).write_pos() <= old(self).write_pos() + 64,
            (old(self).tail_clear() ==> final(self).tail_clear()) && (old(self).tight() ==> final(self).tight()),
    {
        let n = bits_needed(upper - lower);
        proof {
            lemma_bit_count((upper - lower) as nat);
        }
        self.write_uint(value - lower, n)
    }

    /// Writes a length determinant without bounds; lengths from 16K on need fragmentation,
    /// which is not supported.
    fn write_length_unbounded(&mut self, length: u64) -> (res: Result<(), Error>)
        requires
            old(self).wf(),
            old(self).write_pos() + 128 <= usize::MAX,
        ensures
            final(self).wf(),
            final(self).read_pos() == old(self).read_pos(),
            final(self).write_pos() <= old(self).write_pos() + 16,
            length < 16384 ==> res is Ok && final(self).written() == old(self).written()
                + enc_length_unbounded(length as nat),
            length >= 16384 ==> res == Err::<(), Error>(Error { kind: ErrorKind::UnsupportedOperation })
                && final(self).written() == old(self).written() && final(self).write_pos() == old(self).write_pos(),
            (old(self).tail_clear() ==> final(self).tail_clear()) && (old(self).tight() ==> final(self).tight()),
    {
        proof {
            reveal_with_fuel(two_pow, 15);
        }
        if length <= 127 {
            self.write_bit(false)?;
            let r = self.write_uint(length, 7);
            assert(self.written() =~= old(self).written() + enc_length_unbounded(length as nat));
            r
        } else if length < 16 * 1024 {
            self.write_bit(true)?;
            self.write_bit(false)?;
            let r = self.write_uint(length, 14);
            assert(self.written() =~= old(self).written() + enc_length_unbounded(length as nat));
            r
        } else {
            Err(Error { kind: ErrorKind::UnsupportedOperation })
        }
    }

    /// Writes a non-negative binary integer (X.691 11.3) between the bounds given; without any
    /// bound, the octet count comes first.
    pub fn write_non_negative_binary_integer(
        &mut self,
        lower_bound: Option<u64>,
        upper_bound: Option<u64>,
        value: u64,
    ) -> (res: Result<(), Error>)
        requires
            old(self).wf(),
            old(self).write_pos() + 256 <= usize::MAX,
            lower_bound is Some || upper_bound is Some ==> lower_or_default(lower_bound) <= value
                <= upper_or_default(upper_bound),
        ensures
            res is Ok,
            final(self).wf(),
            final(self).read_pos() == old(self).read_pos(),
            final(self).write_pos() <= old(self).write_pos() + 96,
            final(self).written() == old(self).written() + enc_non_negative(
                value as nat,
                lower_bound,
                upper_bound,
            ),
            (old(self).tail_clear() ==> final(self).tail_clear()) && (old(self).tight() ==> final(self).tight()),
    {
        if lower_bound.is_none() && upper_bound.is_none() {
            let bits = bits_needed(value);
            let octets: u64 = if bits == 0 {
                1
            } else {
                ((bits + 7) / 8) as u64
            };
            proof {
                lemma_octets_needed(value as nat);
                lemma_two_pow_64();
            }
            self.write_length_unbounded(octets)?;
            let r = self.write_uint(value, (octets * 8) as usize);
            assert(self.written() =~= old(self).written() + enc_non_negative(
                value as nat,
                lower_bound,
                upper_bound,
            ));
            r
        } else {
            let lower = match lower_bound {
                Some(l) => l,
                None => 0,
            };
            let upper = match upper_bound {
                Some(u) => u,
                None => I64_MAX_AS_U64,
            };
            self.write_bounded(lower, upper, value)
        }
    }

    /// Writes a length determinant (X.691 11.9.4) between the bounds given. A length outside
    /// the bounds is refused with `SizeNotInRange`.
    pub fn write_length_determinant(
        &mut self,
        lower_bound: Option<u64>,
        upper_bound: Option<u64>,
        length: u64,
    ) -> (res: Result<(), Error>)
        requires
            old(self).wf(),
            old(self).write_pos() + 512 <= usize::MAX,
        ensures
            final(self).wf(),
            final(self).read_pos() == old(self).read_pos(),
            final(self).write_pos() <= old(self).write_pos() + 160,
            (old(self).tail_clear() ==> final(self).tail_clear()) && (old(self).tight() ==> final(self).tight()),
            (length < lower_or_default(lower_bound) || length > upper_or_default(upper_bound))
                ==> res == Err::<(), Error>(
                Error {
                    kind: ErrorKind::SizeNotInRange(
                        length,
                        lower_or_default(lower_bound) as u64,
                        upper_or_default(upper_bound) as u64,
                    ),
                },
            ) && final(self).written() == old(self).written(),
            lower_or_default(lower_bound) <= length <= upper_or_default(upper_bound) && (
            lower_bound is Some || upper_bound is Some || length < 16384) ==> res is Ok
                && final(self).written() == old(self).written() + enc_length(
                length as nat,
                lower_bound,
                upper_bound,
            ),
            lower_bound is None && upper_bound is None && length >= 16384 && length
                <= upper_or_default(upper_bound) ==> res == Err::<(), Error>(
                Error { kind: ErrorKind::UnsupportedOperation },
            ) && final(self).written() == old(self).written(),
    {
        let lower = match lower_bound {
            Some(l) => l,
            None => 0,
        };
        let upper = match upper_bound {
            Some(u) => u,
            None => I64_MAX_AS_U64,
        };
        if length < lower || length > upper {
            return Err(Error { kind: ErrorKind::SizeNotInRange(length, lower, upper) });
        }
        if (lower_bound.is_some() || upper_bound.is_some()) && upper >= 64 * 1024 {
            // 11.9.4.2
            if lower_bound == upper_bound {
                assert(old(self).written() + enc_length(length as nat, lower_bound, upper_bound)
                    =~= old(self).written());
                Ok(())
            } else {
                self.write_bounded(lower, upper, length)
            }
        } else if upper_bound.is_some() && upper <= 64 * 1024 {
            // 11.9.4.1 -> 11.9.3.4 -> 11.6.1
            self.write_bounded(lower, upper, length)
        } else {
            // 11.9.4.1 -> 11.9.3.5
            self.write_length_unbounded(length)
        }
    }

    /// Writes a whole number between `lower_bound` and `upper_bound` (X.691 11.5); nothing is
    /// written when the bounds leave a single value. A value outside the bounds is refused with
    /// `ValueNotInRange`.
    pub fn write_constrained_whole_number(
        &mut self,
        lower_bound: i64,
        upper_bound: i64,
        value: i64,
    ) -> (res: Result<(), Error>)
        requires
            old(self).wf(),
            old(self).write_pos() + 512 <= usize::MAX,
            i64::MIN <= upper_bound - lower_bound <= i64::MAX,
        ensures
            final(self).wf(),
            final(self).read_pos() == old(self).read_pos(),
            final(self).write_pos() <= old(self).write_pos() + 160,
            (old(self).tail_clear() ==> final(self).tail_clear()) && (old(self).tight() ==> final(self).tight()),
            (value < lower_bound || value > upper_bound) ==> res == Err::<(), Error>(
                Error { kind: ErrorKind::ValueNotInRange(value, lower_bound, upper_bound) },
            ) && final(self).written() == old(self).written(),
            lower_bound <= value <= upper_bound ==> res is Ok && final(self).written()
                == old(self).written() + enc_constrained(
                value as int,
                lower_bound as int,
                upper_bound as int,
            ),
    {
        if value < lower_bound || value > upper_bound {
            return Err(Error { kind: ErrorKind::ValueNotInRange(value, lower_bound, upper_bound) });
        }
        let range = upper_bound - lower_bound;
        if range > 0 {
            self.write_non_negative_binary_integer(None, Some(range as u64), (value - lower_bound) as u64)
        } else {
            assert(old(self).written() + enc_constrained(value as int, lower_bound as int, upper_bound as int)
                =~= old(self).written());
            Ok(())
        }
    }

    /// Writes a normally small non-negative whole number (X.691 11.6): up to 63 as `0` and six
    /// bits, above as `1` and a non-negative binary integer without bounds.
    pub fn write_normally_small_non_negative_whole_number(&mut self, value: u64) -> (res: Result<
        (),
        Error,
    >)
        requires
            old(self).wf(),
            old(self).write_pos() + 512 <= usize::MAX,
        ensures
            res is Ok,
            final(self).wf(),
            final(self).read_pos() == old(self).read_pos(),
            final(self).write_pos() <= old(self).write_pos() + 160,
            final(self).written() == old(self).written() + enc_normally_small(value as nat),
            (old(self).tail_clear() ==> final(self).tail_clear()) && (old(self).tight() ==> final(self).tight()),
    {
        if value <= 63 {
            self.write_bit(false)?;
            proof {
                reveal_with_fuel(two_pow, 7);
            }
            let r = self.write_uint(value, 6);
            assert(self.written() =~= old(self).written() + enc_normally_small(value as nat));
            r
        } else {
            self.write_bit(true)?;
            let r = self.write_non_negative_binary_integer(None, None, value);
            assert(self.written() =~= old(self).written() + enc_normally_small(value as nat));
            r
        }
    }

    /// Writes a normally small length (X.691 11.9.3.4).
    pub fn write_normally_small_length(&mut self, value: u64) -> (res: Result<(), Error>)
        requires
            old(self).wf(),
            old(self).write_pos() + 512 <= usize::MAX,
        ensures
            res is Ok,
            final(self).wf(),
            final(self).read_pos() == old(self).read_pos(),
            final(self).write_pos() <= old(self).write_pos() + 160,
            final(self).written() == old(self).written() + enc_normally_small(value as nat),
            (old(self).tail_clear() ==> final(self).tail_clear()) && (old(self).tight() ==> final(self).tight()),
    {
        self.write_normally_small_non_negative_whole_number(value)
    }

    /// Writes the `bit_len` (1 to 64) bits of the two's complement of `value` (X.691 11.4);
    /// `value` must fit.
    pub fn write_2s_compliment_binary_integer(&mut self, bit_len: u64, value: i64) -> (res:
        Result<(), Error>)
        requires
            old(self).wf(),
            old(self).write_pos() + 256 <= usize::MAX,
            1 <= bit_len <= 64,
            fits_twos(value as int, bit_len as nat),
        ensures
            res is Ok,
            final(self).wf(),
            final(self).read_pos() == old(self).read_pos(),
            final(self).write_pos() == old(self).write_pos() + bit_len,
            final(self).written() == old(self).written() + uint_bits(
                twos_unsigned(value as int, bit_len as nat),
                bit_len as nat,
            ),
            (old(self).tail_clear() ==> final(self).tail_clear()) && (old(self).tight() ==> final(self).tight()),
    {
        proof {
            lemma_two_pow_64();
            lemma_two_pow_mono(bit_len as nat, 64);
            lemma_two_pow_mono((bit_len - 1) as nat, 63);
            assert(two_pow(bit_len as nat) == 2 * two_pow((bit_len - 1) as nat));
        }
        let unsigned: u64 = if value >= 0 {
            value as u64
        } else {
            let magnitude = (-(value + 1)) as u64;
            let all_ones = if bit_len == 64 {
                u64::MAX
            } else {
                pow2_u64(bit_len) - 1
            };
            all_ones - magnitude
        };
        self.write_uint(unsigned, bit_len as usize)
    }

    /// Writes an unconstrained whole number (X.691 11.8): the fewest octets that hold it as a
    /// two's complement number, preceded by their count.
    pub fn write_unconstrained_whole_number(&mut self, value: i64) -> (res: Result<(), Error>)
        requires
            old(self).wf(),
            old(self).write_pos() + 512 <= usize::MAX,
        ensures
            res is Ok,
            final(self).wf(),
            final(self).read_pos() == old(self).read_pos(),
            final(self).write_pos() <= old(self).write_pos() + 160,
            final(self).written() == old(self).written() + enc_unconstrained(value as int),
            (old(self).tail_clear() ==> final(self).tail_clear()) && (old(self).tight() ==> final(self).tight()),
    {
        let mut octets: u64 = 1;
        proof {
            lemma_two_pow_64();
            lemma_signed_octets_from(value as int, 1);
        }
        while octets < 8 && !fits_in_octets(value, octets)
            invariant
                1 <= octets <= 8,
                signed_octets_from(value as int, octets as nat) == signed_octets(value as int),
            decreases 8 - octets,
        {
            octets = octets + 1;
        }
        proof {
            lemma_signed_octets_from(value as int, 1);
            assert(octets == signed_octets(value as int));
        }
        self.write_length_unbounded(octets)?;
        let r = self.write_2s_compliment_binary_integer(octets * 8, value);
        assert(self.written() =~= old(self).written() + enc_unconstrained(value as int));
        r
    }

    /// Writes a semi constrained whole number (X.691 11.7): the distance of `value` from
    /// `lower_bound` as a non-negative binary integer without bounds. A value below the bound is
    /// refused with `ValueNotInRange`.
    pub fn write_semi_constrained_whole_number(&mut self, lower_bound: i64, value: i64) -> (res:
        Result<(), Error>)
        requires
            old(self).wf(),
            old(self).write_pos() + 512 <= usize::MAX,
        ensures
            final(self).wf(),
            final(self).read_pos() == old(self).read_pos(),
            final(self).write_pos() <= old(self).write_pos() + 96,
            (old(self).tail_clear() ==> final(self).tail_clear()) && (old(self).tight() ==> final(self).tight()),
            value < lower_bound ==> res == Err::<(), Error>(
                Error { kind: ErrorKind::ValueNotInRange(value, lower_bound, i64::MAX) },
            ) && final(self).written() == old(self).written(),
            value >= lower_bound ==> res is Ok && final(self).written() == old(self).written()
                + enc_non_negative((value - lower_bound) as nat, None, None),
    {
        if value < lower_bound {
            return Err(Error { kind: ErrorKind::ValueNotInRange(value, lower_bound, i64::MAX) });
        }
        let distance = ((value as i128) - (lower_bound as i128)) as u64;
        self.write_non_negative_binary_integer(None, None, distance)
    }
}

} // verus!
