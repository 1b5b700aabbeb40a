//! Packed encoding rules on top of [`BitBuffer`]: whole numbers, length determinants, choice
//! indices and strings as ITU-T X.691 lays them out without alignment.
use vstd::prelude::*;
use crate::io::per::err::{Error, ErrorKind};
use crate::io::per::unaligned::buffer::BitBuffer;
use crate::io::per::packed::numbers::{
    bit_count, bits_value, lemma_bit_count, lemma_bit_count_le, lemma_bits_value_bound, lemma_two_pow_64,
    lemma_two_pow_mono, two_pow,
};

pub mod laws;
pub mod numbers;
pub mod strings;
pub mod string_reading;
pub mod write;

verus! {

/// The largest value of an `i64`, as the default upper bound.
pub const I64_MAX_AS_U64: u64 = 0x7FFF_FFFF_FFFF_FFFF;

/// Reading one bit of `b` at `p`, where bits may only be read before `w`.
/// The result and the position after the step.
pub open spec fn dec_bit(b: Seq<bool>, w: nat, p: nat) -> (Result<bool, ErrorKind>, nat) {
    if p < w {
        (Ok(b[p as int]), p + 1)
    } else {
        (Err(ErrorKind::EndOfStream), p)
    }
}

/// Reading `n` bits of `b` at `p` as a big-endian unsigned number.
pub open spec fn dec_uint(b: Seq<bool>, p: nat, n: nat) -> (Result<int, ErrorKind>, nat) {
    if p + n <= b.len() {
        (Ok(bits_value(b.subrange(p as int, (p + n) as int)) as int), p + n)
    } else {
        (Err(ErrorKind::InsufficientDataInSourceBuffer), p)
    }
}

/// Reading a whole number between `lower` and `upper`: the offset from `lower` in as many bits
/// as `upper - lower` needs (X.691 11.3 with bounds).
pub open spec fn dec_bounded(b: Seq<bool>, p: nat, lower: int, upper: int) -> (
    Result<int, ErrorKind>,
    nat,
) {
    let (r, q) = dec_uint(b, p, bit_count((upper - lower) as nat));
    match r {
        Ok(v) => (Ok(lower + v), q),
        Err(e) => (Err(e), q),
    }
}

/// Reading a length determinant without bounds (X.691 11.9.3.5 to 11.9.3.8): a leading `0`
/// bit is followed by 7 bits, `10` by 14 bits, and `11` by 6 bits counting multiples of 16K
/// (at least 4 of them).
pub open spec fn dec_length_unbounded(b: Seq<bool>, w: nat, p: nat) -> (
    Result<int, ErrorKind>,
    nat,
) {
    let (r1, p1) = dec_bit(b, w, p);
    match r1 {
        Err(e) => (Err(e), p1),
        Ok(first) => if !first {
            dec_bounded(b, p1, 0, 127)
        } else {
            let (r2, p2) = dec_bit(b, w, p1);
            match r2 {
                Err(e) => (Err(e), p2),
                Ok(second) => if !second {
                    dec_bounded(b, p2, 0, 16383)
                } else {
                    let (r3, p3) = dec_uint(b, p2, 6);
                    match r3 {
                        Err(e) => (Err(e), p3),
                        Ok(m) => (Ok(16384 * if m > 4 { m } else { 4 }), p3),
                    }
                },
            }
        },
    }
}

/// The value an absent lower bound stands for.
pub open spec fn lower_or_default(lower_bound: Option<u64>) -> int {
    match lower_bound {
        Some(l) => l as int,
        None => 0,
    }
}

/// The value an absent upper bound stands for.
pub open spec fn upper_or_default(upper_bound: Option<u64>) -> int {
    match upper_bound {
        Some(u) => u as int,
        None => I64_MAX_AS_U64 as int,
    }
}

/// Reading a non-negative binary integer (X.691 11.3): with a bound, as [`dec_bounded`];
/// without, a length determinant counting the octets that follow.
pub open spec fn dec_non_negative(
    b: Seq<bool>,
    w: nat,
    p: nat,
    lower_bound: Option<u64>,
    upper_bound: Option<u64>,
) -> (Result<int, ErrorKind>, nat) {
    if lower_bound is None && upper_bound is None {
        let (r, q) = dec_length_unbounded(b, w, p);
        match r {
            Err(e) => (Err(e), q),
            Ok(len) => dec_uint(b, q, (8 * len) as nat),
        }
    } else {
        dec_bounded(b, p, lower_or_default(lower_bound), upper_or_default(upper_bound))
    }
}

/// Reading a length determinant (X.691 11.9.4). With bounds whose upper end reaches 64K, an
/// equal pair of bounds fixes the length; otherwise the lower bound is added to the value read
/// with [`dec_bounded`] (which already includes it). With a smaller upper bound the length is
/// read with [`dec_bounded`], without bounds with [`dec_length_unbounded`].
pub open spec fn dec_length(
    b: Seq<bool>,
    w: nat,
    p: nat,
    lower_bound: Option<u64>,
    upper_bound: Option<u64>,
) -> (Result<int, ErrorKind>, nat) {
    let lower = lower_or_default(lower_bound);
    let upper = upper_or_default(upper_bound);
    if (lower_bound is Some || upper_bound is Some) && upper >= 65536 {
        if lower_bound == upper_bound {
            (Ok(lower), p)
        } else {
            let (r, q) = dec_bounded(b, p, lower, upper);
            match r {
                Ok(v) => (Ok(lower + v), q),
                Err(e) => (Err(e), q),
            }
        }
    } else if upper_bound is Some && upper <= 65536 {
        dec_bounded(b, p, lower, upper)
    } else {
        dec_length_unbounded(b, w, p)
    }
}

/// The value of `n` bits as a two's complement number.
pub open spec fn twos_value(bits: Seq<bool>) -> int {
    if bits.len() > 0 && bits[0] {
        bits_value(bits) - two_pow(bits.len())
    } else {
        bits_value(bits) as int
    }
}

/// Reading `n` bits as a two's complement binary integer (X.691 11.4).
pub open spec fn dec_twos(b: Seq<bool>, p: nat, n: nat) -> (Result<int, ErrorKind>, nat) {
    if p + n <= b.len() {
        (Ok(twos_value(b.subrange(p as int, (p + n) as int))), p + n)
    } else {
        (Err(ErrorKind::InsufficientDataInSourceBuffer), p)
    }
}

/// Reading a whole number between two bounds (X.691 11.5); nothing is read when the bounds
/// leave a single value.
pub open spec fn dec_constrained(b: Seq<bool>, p: nat, lower: int, upper: int) -> (
    Result<int, ErrorKind>,
    nat,
) {
    if upper - lower > 0 {
        let (r, q) = dec_bounded(b, p, 0, upper - lower);
        match r {
            Ok(v) => (Ok(lower + v), q),
            Err(e) => (Err(e), q),
        }
    } else {
        (Ok(lower), p)
    }
}

/// Reading a normally small non-negative whole number (X.691 11.6): a `0` bit is followed by
/// six bits of the value, a `1` bit by a non-negative binary integer without bounds.
pub open spec fn dec_normally_small(b: Seq<bool>, w: nat, p: nat) -> (
    Result<int, ErrorKind>,
    nat,
) {
    let (r, q) = dec_bit(b, w, p);
    match r {
        Err(e) => (Err(e), q),
        Ok(large) => if large {
            dec_non_negative(b, w, q, None, None)
        } else {
            dec_bounded(b, q, 0, 63)
        },
    }
}

/// An unsigned value as the `i64` the same bits stand for.
pub open spec fn as_i64(v: int) -> int {
    if v >= 0x8000_0000_0000_0000 {
        v - 0x1_0000_0000_0000_0000
    } else {
        v
    }
}

/// Reading a semi constrained whole number (X.691 11.7): a non-negative binary integer without
/// bounds, taken as an `i64`, plus the lower bound.
pub open spec fn dec_semi_constrained(b: Seq<bool>, w: nat, p: nat, lower: int) -> (
    Result<int, ErrorKind>,
    nat,
) {
    let (r, q) = dec_non_negative(b, w, p, None, None);
    match r {
        Ok(n) => (Ok(as_i64(n) + lower), q),
        Err(e) => (Err(e), q),
    }
}

/// Reading an unconstrained whole number (X.691 11.8): a length determinant counting octets,
/// followed by that many octets of a two's complement number.
pub open spec fn dec_unconstrained(b: Seq<bool>, w: nat, p: nat) -> (
    Result<int, ErrorKind>,
    nat,
) {
    let (r, q) = dec_length_unbounded(b, w, p);
    match r {
        Err(e) => (Err(e), q),
        Ok(len) => dec_twos(b, q, (8 * len) as nat),
    }
}

/// `res` is the `u64` form of the outcome `r` of a decoding step.
pub open spec fn same_u64(res: Result<u64, Error>, r: Result<int, ErrorKind>) -> bool {
    match r {
        Ok(v) => res == Ok::<u64, Error>(v as u64),
        Err(k) => res == Err::<u64, Error>(Error { kind: k }),
    }
}

/// `res` is the `i64` form of the outcome `r` of a decoding step.
pub open spec fn same_i64(res: Result<i64, Error>, r: Result<int, ErrorKind>) -> bool {
    match r {
        Ok(v) => res == Ok::<i64, Error>(v as i64),
        Err(k) => res == Err::<i64, Error>(Error { kind: k }),
    }
}

/// The value of an outcome lies within `lo..=hi` when there is one.
pub open spec fn fits(r: Result<int, ErrorKind>, lo: int, hi: int) -> bool {
    match r {
        Ok(v) => lo <= v <= hi,
        Err(_) => true,
    }
}

/// A number read from `n` bits is below `2^n`.
pub proof fn lemma_dec_uint_bound(b: Seq<bool>, p: nat, n: nat)
    ensures
        fits(dec_uint(b, p, n).0, 0, two_pow(n) - 1),
{
    if p + n <= b.len() {
        lemma_bits_value_bound(b.subrange(p as int, (p + n) as int));
    }
}

/// The most significant bit of a non-empty bit string is set exactly when its value reaches
/// half the range of its length.
pub proof fn lemma_top_bit(s: Seq<bool>)
    requires
        s.len() > 0,
    ensures
        s[0] <==> bits_value(s) >= two_pow((s.len() - 1) as nat),
{
    let rest = s.subrange(1, s.len() as int);
    let head = s.subrange(0, 1);
    assert(s =~= head + rest);
    crate::io::per::packed::numbers::lemma_bits_value_concat(head, rest);
    lemma_bits_value_bound(rest);
    assert(head.drop_last() =~= Seq::<bool>::empty());
    assert(head.last() == s[0]);
    assert(bits_value(Seq::<bool>::empty()) == 0);
    assert(bits_value(head) == if s[0] { 1nat } else { 0nat });
    let t = two_pow(rest.len());
    assert(1 * t == t && 0 * t == 0) by (nonlinear_arith);
}

/// Without bounds, a length of at most 8 octets yields a value that fits in a `u64`.
pub proof fn lemma_unbounded_fits_u64(b: Seq<bool>, w: nat, p: nat)
    requires
        fits(dec_length_unbounded(b, w, p).0, 0, 8),
    ensures
        fits(dec_non_negative(b, w, p, None, None).0, 0, u64::MAX as int),
{
    let (r, q) = dec_length_unbounded(b, w, p);
    if let Ok(len) = r {
        lemma_dec_uint_bound(b, q, (8 * len) as nat);
        lemma_two_pow_mono((8 * len) as nat, 64);
        lemma_two_pow_64();
    }
}

/// A length determinant without bounds is at most 63 times 16K, and reading it never moves
/// backwards.
pub proof fn lemma_length_unbounded_fits(b: Seq<bool>, w: nat, p: nat)
    ensures
        fits(dec_length_unbounded(b, w, p).0, 0, 16384 * 63int),
        dec_length_unbounded(b, w, p).1 >= p,
{
    lemma_two_pow_64();
    lemma_dec_uint_bound(b, p + 1, bit_count(127));
    lemma_dec_uint_bound(b, p + 2, bit_count(16383));
    lemma_dec_uint_bound(b, p + 2, 6);
    assert(bit_count(127) == 7) by { reveal_with_fuel(bit_count, 8); }
    assert(bit_count(16383) == 14) by { reveal_with_fuel(bit_count, 15); }
    assert(two_pow(14) == 16384) by { reveal_with_fuel(two_pow, 15); }
}

/// A normally small number that starts with a set bit has at most 8 octets.
pub open spec fn small_length_ok(b: Seq<bool>, w: nat, p: nat) -> bool {
    p < w && b[p as int] ==> fits(dec_length_unbounded(b, w, p + 1).0, 0, 8)
}

/// `2^n` for `n` below 64.
pub fn pow2_u64(n: u64) -> (r: u64)
    requires
        n < 64,
    ensures
        r == two_pow(n as nat),
{
    let mut r: u64 = 1;
    let mut k: u64 = 0;
    while k < n
        invariant
            k <= n < 64,
            r == two_pow(k as nat),
        decreases n - k,
    {
        proof {
            lemma_two_pow_mono((k + 1) as nat, 63);
            lemma_two_pow_64();
        }
        r = r * 2;
        k = k + 1;
    }
    r
}

/// The number of bits needed to write every value from zero up to `v`
/// (64 minus the leading zeros of `v`).
pub fn bits_needed(v: u64) -> (n: usize)
    ensures
        n == bit_count(v as nat),
        n <= 64,
{
    let mut rest = v;
    let mut n: usize = 0;
    proof {
        lemma_two_pow_64();
        lemma_bit_count(v as nat);
    }
    while rest > 0
        invariant
            n + bit_count(rest as nat) == bit_count(v as nat),
            n <= 64,
            rest < two_pow((64 - n) as nat),
        decreases rest,
    {
        proof {
            assert(rest / 2 < two_pow((64 - n - 1) as nat));
        }
        rest = rest / 2;
        n = n + 1;
    }
    n
}

impl BitBuffer {
    /// Reads a boolean, a single bit (X.691 12).
    pub fn read_boolean(&mut self) -> (res: Result<bool, Error>)
        requires
            old(self).wf(),
        ensures
            final(self).bytes() == old(self).bytes(),
            final(self).write_pos() == old(self).write_pos(),
            final(self).wf(),
            ({
                let (r, q) = dec_bit(old(self).bits(), old(self).write_pos(), old(self).read_pos());
                &&& final(self).read_pos() == q
                &&& match r {
                    Ok(v) => res == Ok::<bool, Error>(v),
                    Err(k) => res == Err::<bool, Error>(Error { kind: k }),
                }
            }),
    {
        self.read_bit()
    }

    /// Reads a whole number between `lower` and `upper`.
    fn read_bounded(&mut self, lower: u64, upper: u64) -> (res: Result<u64, Error>)
        requires
            old(self).wf(),
            lower <= upper,
            fits(
                dec_bounded(old(self).bits(), old(self).read_pos(), lower as int, upper as int).0,
                0,
                u64::MAX as int,
            ),
        ensures
            final(self).bytes() == old(self).bytes(),
            final(self).write_pos() == old(self).write_pos(),
            final(self).wf(),
            ({
                let (r, q) = dec_bounded(old(self).bits(), old(self).read_pos(), lower as int, upper as int);
                final(self).read_pos() == q && same_u64(res, r)
            }),
    {
        let range = upper - lower;
        let n = bits_needed(range);
        let v = self.read_uint(n)?;
        Ok(lower + v)
    }

    /// Reads a length determinant without bounds.
    fn read_length_unbounded(&mut self) -> (res: Result<u64, Error>)
        requires
            old(self).wf(),
        ensures
            final(self).bytes() == old(self).bytes(),
            final(self).write_pos() == old(self).write_pos(),
            final(self).wf(),
            ({
                let (r, q) = dec_length_unbounded(old(self).bits(), old(self).write_pos(), old(self).read_pos());
                final(self).read_pos() == q && same_u64(res, r) && fits(r, 0, 16384 * 63int)
            }),
    {
        proof {
            lemma_two_pow_64();
            let b = old(self).bits();
            let p = old(self).read_pos();
            lemma_dec_uint_bound(b, p + 1, bit_count(127));
            lemma_dec_uint_bound(b, p + 2, bit_count(16383));
            lemma_dec_uint_bound(b, p + 2, 6);
            assert(bit_count(127) == 7) by { reveal_with_fuel(bit_count, 8); }
            assert(bit_count(16383) == 14) by { reveal_with_fuel(bit_count, 15); }
            assert(two_pow(14) == 16384) by { reveal_with_fuel(two_pow, 15); }
        }
        if !self.read_bit()? {
            // 11.9.3.6: less than or equal to 127
            self.read_bounded(0, 127)
        } else if !self.read_bit()? {
            // 11.9.3.7: greater than 127 and less than or equal to 16K
            self.read_bounded(0, 16 * 1024 - 1)
        } else {
            // 11.9.3.8: chunks of 16k multiples
            let multiple = self.read_uint(6)?;
            Ok(16 * 1024 * if multiple > 4 { multiple } else { 4 })
        }
    }

    /// Reads a non-negative binary integer (X.691 11.3) between the bounds given; an absent lower
    /// bound stands for zero and an absent upper one for `i64::MAX`. Without any bound, the
    /// number of octets comes first as a length determinant.
    pub fn read_non_negative_binary_integer(
        &mut self,
        lower_bound: Option<u64>,
        upper_bound: Option<u64>,
    ) -> (res: Result<u64, Error>)
        requires
            old(self).wf(),
            lower_bound is Some || upper_bound is Some ==> lower_or_default(lower_bound)
                <= upper_or_default(upper_bound),
            lower_bound is None && upper_bound is None ==> fits(
                dec_length_unbounded(old(self).bits(), old(self).write_pos(), old(self).read_pos()).0,
                0,
                8,
            ),
            fits(
                dec_non_negative(old(self).bits(), old(self).write_pos(), old(self).read_pos(), lower_bound, upper_bound).0,
                0,
                u64::MAX as int,
            ),
        ensures
            final(self).bytes() == old(self).bytes(),
            final(self).write_pos() == old(self).write_pos(),
            final(self).wf(),
            ({
                let (r, q) = dec_non_negative(old(self).bits(), old(self).write_pos(), old(self).read_pos(), lower_bound, upper_bound);
                final(self).read_pos() == q && same_u64(res, r)
            }),
    {
        if lower_bound.is_none() && upper_bound.is_none() {
            let length = self.read_length_unbounded()?;
            self.read_uint((length * 8) as usize)
        } else {
            let lower = match lower_bound {
                Some(l) => l,
                None => 0,
            };
            let upper = match upper_bound {
                Some(u) => u,
                None => I64_MAX_AS_U64,
            };
            self.read_bounded(lower, upper)
        }
    }

    /// Reads a length determinant (X.691 11.9.4) between the bounds given.
    pub fn read_length_determinant(
        &mut self,
        lower_bound: Option<u64>,
        upper_bound: Option<u64>,
    ) -> (res: Result<u64, Error>)
        requires
            old(self).wf(),
            lower_or_default(lower_bound) <= upper_or_default(upper_bound),
            fits(
                dec_length(old(self).bits(), old(self).write_pos(), old(self).read_pos(), lower_bound, upper_bound).0,
                0,
                u64::MAX as int,
            ),
        ensures
            final(self).bytes() == old(self).bytes(),
            final(self).write_pos() == old(self).write_pos(),
            final(self).wf(),
            ({
                let (r, q) = dec_length(old(self).bits(), old(self).write_pos(), old(self).read_pos(), lower_bound, upper_bound);
                final(self).read_pos() == q && same_u64(res, r)
            }),
    {
        let lower_bound_unwrapped = match lower_bound {
            Some(l) => l,
            None => 0,
        };
        let upper_bound_unwrapped = match upper_bound {
            Some(u) => u,
            None => I64_MAX_AS_U64,
        };

        if (lower_bound.is_some() || upper_bound.is_some()) && upper_bound_unwrapped >= 64 * 1024 {
            // 11.9.4.2
            if lower_bound == upper_bound {
                Ok(lower_bound_unwrapped)
            } else {
                let v = self.read_bounded(lower_bound_unwrapped, upper_bound_unwrapped)?;
                Ok(lower_bound_unwrapped + v)
            }
        } else if upper_bound.is_some() && upper_bound_unwrapped <= 64 * 1024 {
            // 11.9.4.1 -> 11.9.3.4 -> 11.6.1
            self.read_bounded(lower_bound_unwrapped, upper_bound_unwrapped)
        } else {
            // 11.9.4.1 -> 11.9.3.5
            self.read_length_unbounded()
        }
    }

    /// Reads `bit_len` bits (1 to 64) as a two's complement binary integer (X.691 11.4).
    pub fn read_2s_compliment_binary_integer(&mut self, bit_len: u64) -> (res: Result<i64, Error>)
        requires
            old(self).wf(),
            1 <= bit_len <= 64,
        ensures
            final(self).bytes() == old(self).bytes(),
            final(self).write_pos() == old(self).write_pos(),
            final(self).wf(),
            ({
                let (r, q) = dec_twos(old(self).bits(), old(self).read_pos(), bit_len as nat);
                final(self).read_pos() == q && same_i64(res, r) && fits(r, i64::MIN as int, i64::MAX as int)
            }),
    {
        let n = bit_len as usize;
        let v = self.read_uint(n)?;
        let ghost bits = old(self).bits().subrange(old(self).read_pos() as int, old(self).read_pos() + n);
        proof {
            lemma_top_bit(bits);
            lemma_bits_value_bound(bits);
            lemma_two_pow_64();
            lemma_two_pow_mono(n as nat, 64);
            lemma_two_pow_mono((n - 1) as nat, 63);
            assert(two_pow(n as nat) == 2 * two_pow((n - 1) as nat));
        }
        let half = pow2_u64(bit_len - 1);
        if v >= half {
            // negative number: the value minus 2^bit_len
            let complement = (half - 1) - (v - half);
            Ok(-(complement as i64) - 1)
        } else {
            Ok(v as i64)
        }
    }

    /// Reads a whole number between `lower_bound` and `upper_bound` (X.691 11.5); nothing is read
    /// when the bounds leave a single value.
    pub fn read_constrained_whole_number(&mut self, lower_bound: i64, upper_bound: i64) -> (res:
        Result<i64, Error>)
        requires
            old(self).wf(),
            i64::MIN <= upper_bound - lower_bound <= i64::MAX,
            fits(
                dec_constrained(old(self).bits(), old(self).read_pos(), lower_bound as int, upper_bound as int).0,
                i64::MIN as int,
                i64::MAX as int,
            ),
        ensures
            final(self).bytes() == old(self).bytes(),
            final(self).write_pos() == old(self).write_pos(),
            final(self).wf(),
            ({
                let (r, q) = dec_constrained(old(self).bits(), old(self).read_pos(), lower_bound as int, upper_bound as int);
                final(self).read_pos() == q && same_i64(res, r)
            }),
    {
        let range = upper_bound - lower_bound;
        if range > 0 {
            proof {
                lemma_two_pow_64();
                lemma_bit_count_le(range as nat, 63);
                lemma_dec_uint_bound(old(self).bits(), old(self).read_pos(), bit_count(range as nat));
                lemma_two_pow_mono(bit_count(range as nat), 63);
            }
            let v = self.read_non_negative_binary_integer(None, Some(range as u64))?;
            Ok(lower_bound + v as i64)
        } else {
            Ok(lower_bound)
        }
    }

    /// Reads a normally small non-negative whole number (X.691 11.6).
    pub fn read_normally_small_non_negative_whole_number(&mut self) -> (res: Result<u64, Error>)
        requires
            old(self).wf(),
            small_length_ok(old(self).bits(), old(self).write_pos(), old(self).read_pos()),
        ensures
            final(self).bytes() == old(self).bytes(),
            final(self).write_pos() == old(self).write_pos(),
            final(self).wf(),
            ({
                let (r, q) = dec_normally_small(old(self).bits(), old(self).write_pos(), old(self).read_pos());
                final(self).read_pos() == q && same_u64(res, r)
            }),
    {
        let ghost p1 = old(self).read_pos() + 1;
        let greater_or_equal_to_64 = self.read_boolean()?;
        if greater_or_equal_to_64 {
            proof {
                lemma_unbounded_fits_u64(old(self).bits(), old(self).write_pos(), p1);
            }
            // 11.6.2: self.read_semi_constrained_whole_number(0)
            self.read_non_negative_binary_integer(None, None)
        } else {
            proof {
                lemma_dec_uint_bound(old(self).bits(), p1, bit_count(63));
                assert(bit_count(63) == 6) by { reveal_with_fuel(bit_count, 7); }
                lemma_two_pow_64();
            }
            // 11.6.1
            self.read_non_negative_binary_integer(None, Some(63))
        }
    }

    /// Reads a normally small length (X.691 11.9.3.4), encoded as a normally small non-negative
    /// whole number.
    pub fn read_normally_small_length(&mut self) -> (res: Result<u64, Error>)
        requires
            old(self).wf(),
            small_length_ok(old(self).bits(), old(self).write_pos(), old(self).read_pos()),
        ensures
            final(self).bytes() == old(self).bytes(),
            final(self).write_pos() == old(self).write_pos(),
            final(self).wf(),
            ({
                let (r, q) = dec_normally_small(old(self).bits(), old(self).write_pos(), old(self).read_pos());
                final(self).read_pos() == q && same_u64(res, r)
            }),
    {
        self.read_normally_small_non_negative_whole_number()
    }

    /// Reads a semi constrained whole number (X.691 11.7) with the given lower bound.
    pub fn read_semi_constrained_whole_number(&mut self, lower_bound: i64) -> (res: Result<
        i64,
        Error,
    >)
        requires
            old(self).wf(),
            fits(dec_length_unbounded(old(self).bits(), old(self).write_pos(), old(self).read_pos()).0, 0, 8),
            fits(
                dec_semi_constrained(old(self).bits(), old(self).write_pos(), old(self).read_pos(), lower_bound as int).0,
                i64::MIN as int,
                i64::MAX as int,
            ),
        ensures
            final(self).bytes() == old(self).bytes(),
            final(self).write_pos() == old(self).write_pos(),
            final(self).wf(),
            ({
                let (r, q) = dec_semi_constrained(old(self).bits(), old(self).write_pos(), old(self).read_pos(), lower_bound as int);
                final(self).read_pos() == q && same_i64(res, r)
            }),
    {
        proof {
            lemma_unbounded_fits_u64(old(self).bits(), old(self).write_pos(), old(self).read_pos());
        }
        let n = self.read_non_negative_binary_integer(None, None)?;
        let signed = if n > I64_MAX_AS_U64 {
            -((u64::MAX - n) as i64) - 1
        } else {
            n as i64
        };
        Ok(signed + lower_bound)
    }

    /// Reads an unconstrained whole number (X.691 11.8): the octet count, then a two's
    /// complement number of that many octets.
    pub fn read_unconstrained_whole_number(&mut self) -> (res: Result<i64, Error>)
        requires
            old(self).wf(),
            fits(dec_length_unbounded(old(self).bits(), old(self).write_pos(), old(self).read_pos()).0, 1, 8),
        ensures
            final(self).bytes() == old(self).bytes(),
            final(self).write_pos() == old(self).write_pos(),
            final(self).wf(),
            ({
                let (r, q) = dec_unconstrained(old(self).bits(), old(self).write_pos(), old(self).read_pos());
                final(self).read_pos() == q && same_i64(res, r)
            }),
    {
        let octet_len = self.read_length_unbounded()?;
        self.read_2s_compliment_binary_integer(octet_len * 8)
    }
}

} // verus!
