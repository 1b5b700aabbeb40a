//! What reading gives back of what was written: for each encoding step, the bits that
//! writing appends are read back as the value written, ending right behind them.
use vstd::prelude::*;
use crate::io::per::err::ErrorKind;
use crate::io::per::packed::numbers::{bit_count, lemma_bit_count, lemma_two_pow_64, lemma_uint_bits_value, two_pow, uint_bits};
use crate::io::per::packed::write::{enc_bounded, enc_constrained, enc_length, enc_length_unbounded, enc_non_negative, enc_normally_small, enc_unconstrained, fits_twos, lemma_octets_needed, lemma_signed_octets_from, octets_needed, signed_octets, twos_unsigned};
use crate::io::per::unaligned::slice::bits_view;
use crate::io::per::packed::strings::{dec_choice_index, enc_bitstring, enc_choice_index, enc_octetstring, enc_size, fixed_size, size_needs_fragments, size_out_of_range};
use crate::io::per::packed::string_reading::{dec_bitstring, dec_octetstring, dec_size};
use crate::io::per::packed::{dec_bounded, dec_constrained, dec_length, dec_length_unbounded, dec_non_negative, dec_normally_small, dec_semi_constrained, dec_twos, dec_uint, dec_unconstrained, lemma_top_bit, lower_or_default, upper_or_default};

verus! {

/// The bits `e` stand in `b` from position `p` on, and reading may go past their end: the
/// write position `w` lies behind them.
pub open spec fn holds_at(b: Seq<bool>, w: nat, p: nat, e: Seq<bool>) -> bool {
    &&& p + e.len() <= w <= b.len()
    &&& b.subrange(p as int, p as int + e.len()) == e
}

/// Bits standing somewhere stand there piece by piece.
pub proof fn lemma_holds_at_split(b: Seq<bool>, w: nat, p: nat, e1: Seq<bool>, e2: Seq<bool>)
    requires
        holds_at(b, w, p, e1 + e2),
    ensures
        holds_at(b, w, p, e1),
        holds_at(b, w, p + e1.len(), e2),
{
    let whole = b.subrange(p as int, p as int + e1.len() + e2.len());
    assert(whole == e1 + e2);
    assert(b.subrange(p as int, p as int + e1.len()) =~= whole.subrange(0, e1.len() as int));
    assert(whole.subrange(0, e1.len() as int) =~= e1);
    assert(b.subrange(p as int + e1.len(), p as int + e1.len() + e2.len()) =~= whole.subrange(
        e1.len() as int,
        (e1.len() + e2.len()) as int,
    ));
    assert(whole.subrange(e1.len() as int, (e1.len() + e2.len()) as int) =~= e2);
}

/// A number written in `n` bits is read back from them.
pub proof fn lemma_uint_roundtrip(b: Seq<bool>, w: nat, p: nat, v: nat, n: nat)
    requires
        v < two_pow(n),
        holds_at(b, w, p, uint_bits(v, n)),
    ensures
        dec_uint(b, p, n) == (Ok::<int, ErrorKind>(v as int), p + n),
{
    lemma_uint_bits_value(v, n);
}

/// A whole number between two bounds is read back from its offset bits.
pub proof fn lemma_bounded_roundtrip(b: Seq<bool>, w: nat, p: nat, v: int, lower: int, upper: int)
    requires
        lower <= v <= upper,
        holds_at(b, w, p, enc_bounded(v, lower, upper)),
    ensures
        dec_bounded(b, p, lower, upper) == (
            Ok::<int, ErrorKind>(v),
            p + enc_bounded(v, lower, upper).len(),
        ),
{
    let n = bit_count((upper - lower) as nat);
    lemma_bit_count((upper - lower) as nat);
    lemma_uint_bits_value((v - lower) as nat, n);
    lemma_uint_roundtrip(b, w, p, (v - lower) as nat, n);
}

/// A length below 16K written without bounds is read back.
pub proof fn lemma_length_unbounded_roundtrip(b: Seq<bool>, w: nat, p: nat, len: nat)
    requires
        len < 16384,
        holds_at(b, w, p, enc_length_unbounded(len)),
    ensures
        dec_length_unbounded(b, w, p) == (
            Ok::<int, ErrorKind>(len as int),
            p + enc_length_unbounded(len).len(),
        ),
{
    lemma_two_pow_64();
    assert(bit_count(127) == 7) by {
        reveal_with_fuel(bit_count, 8);
    }
    assert(bit_count(16383) == 14) by {
        reveal_with_fuel(bit_count, 15);
    }
    assert(two_pow(14) == 16384) by {
        reveal_with_fuel(two_pow, 15);
    }
    if len <= 127 {
        lemma_holds_at_split(b, w, p, seq![false], uint_bits(len, 7));
        assert(b[p as int] == b.subrange(p as int, p as int + 1)[0]);
        assert(enc_bounded(len as int, 0, 127) == uint_bits(len, 7));
        lemma_bounded_roundtrip(b, w, p + 1, len as int, 0, 127);
    } else {
        lemma_holds_at_split(b, w, p, seq![true, false], uint_bits(len, 14));
        assert(b[p as int] == b.subrange(p as int, p as int + 2)[0]);
        assert(b[p as int + 1] == b.subrange(p as int, p as int + 2)[1]);
        assert(enc_bounded(len as int, 0, 16383) == uint_bits(len, 14));
        lemma_uint_bits_value(len, 14);
        lemma_bounded_roundtrip(b, w, p + 2, len as int, 0, 16383);
    }
}

/// A length determinant is read back as the length written, when the length lies within the
/// bounds, is below 16K without bounds, and either the lower bound is zero or the bounds do
/// not reach 64K or are equal.
pub proof fn lemma_length_roundtrip(
    b: Seq<bool>,
    w: nat,
    p: nat,
    len: nat,
    lower_bound: Option<u64>,
    upper_bound: Option<u64>,
)
    requires
        lower_or_default(lower_bound) <= len <= upper_or_default(upper_bound),
        lower_bound is None && upper_bound is None ==> len < 16384,
        (lower_bound is Some || upper_bound is Some) && upper_or_default(upper_bound) >= 65536
            && lower_bound != upper_bound ==> lower_or_default(lower_bound) == 0,
        holds_at(b, w, p, enc_length(len, lower_bound, upper_bound)),
    ensures
        dec_length(b, w, p, lower_bound, upper_bound) == (
            Ok::<int, ErrorKind>(len as int),
            p + enc_length(len, lower_bound, upper_bound).len(),
        ),
{
    let lower = lower_or_default(lower_bound);
    let upper = upper_or_default(upper_bound);
    if (lower_bound is Some || upper_bound is Some) && upper >= 65536 {
        if lower_bound != upper_bound {
            lemma_bounded_roundtrip(b, w, p, len as int, lower, upper);
        }
    } else if upper_bound is Some && upper <= 65536 {
        lemma_bounded_roundtrip(b, w, p, len as int, lower, upper);
    } else {
        lemma_length_unbounded_roundtrip(b, w, p, len);
    }
}

/// A non-negative binary integer is read back with the bounds it was written with.
pub proof fn lemma_non_negative_roundtrip(
    b: Seq<bool>,
    w: nat,
    p: nat,
    v: nat,
    lower_bound: Option<u64>,
    upper_bound: Option<u64>,
)
    requires
        v <= u64::MAX,
        lower_bound is Some || upper_bound is Some ==> lower_or_default(lower_bound) <= v
            <= upper_or_default(upper_bound),
        holds_at(b, w, p, enc_non_negative(v, lower_bound, upper_bound)),
    ensures
        dec_non_negative(b, w, p, lower_bound, upper_bound) == (
            Ok::<int, ErrorKind>(v as int),
            p + enc_non_negative(v, lower_bound, upper_bound).len(),
        ),
{
    if lower_bound is None && upper_bound is None {
        lemma_two_pow_64();
        lemma_octets_needed(v);
        let k = octets_needed(v);
        lemma_holds_at_split(b, w, p, enc_length_unbounded(k), uint_bits(v, 8 * k));
        lemma_length_unbounded_roundtrip(b, w, p, k);
        lemma_uint_bits_value(v, 8 * k);
        lemma_uint_roundtrip(b, w, p + enc_length_unbounded(k).len(), v, 8 * k);
    } else {
        lemma_bounded_roundtrip(b, w, p, v as int, lower_or_default(lower_bound), upper_or_default(upper_bound));
    }
}

/// A whole number between two bounds is read back.
pub proof fn lemma_constrained_roundtrip(b: Seq<bool>, w: nat, p: nat, v: int, lower: int, upper: int)
    requires
        lower <= v <= upper,
        holds_at(b, w, p, enc_constrained(v, lower, upper)),
    ensures
        dec_constrained(b, p, lower, upper) == (
            Ok::<int, ErrorKind>(v),
            p + enc_constrained(v, lower, upper).len(),
        ),
{
    if upper - lower > 0 {
        lemma_bounded_roundtrip(b, w, p, v - lower, 0, upper - lower);
    }
}

/// A normally small non-negative whole number is read back.
pub proof fn lemma_normally_small_roundtrip(b: Seq<bool>, w: nat, p: nat, v: nat)
    requires
        v <= u64::MAX,
        holds_at(b, w, p, enc_normally_small(v)),
    ensures
        dec_normally_small(b, w, p) == (
            Ok::<int, ErrorKind>(v as int),
            p + enc_normally_small(v).len(),
        ),
{
    lemma_two_pow_64();
    if v <= 63 {
        lemma_holds_at_split(b, w, p, seq![false], uint_bits(v, 6));
        assert(b[p as int] == b.subrange(p as int, p as int + 1)[0]);
        assert(bit_count(63) == 6) by {
            reveal_with_fuel(bit_count, 7);
        }
        assert(enc_bounded(v as int, 0, 63) == uint_bits(v, 6));
        lemma_uint_bits_value(v, 6);
        lemma_bounded_roundtrip(b, w, p + 1, v as int, 0, 63);
    } else {
        lemma_holds_at_split(b, w, p, seq![true], enc_non_negative(v, None, None));
        assert(b[p as int] == b.subrange(p as int, p as int + 1)[0]);
        lemma_non_negative_roundtrip(b, w, p + 1, v, None, None);
    }
}

/// The two's complement bits of a number that fits are read back as the number.
pub proof fn lemma_twos_roundtrip(b: Seq<bool>, w: nat, p: nat, v: int, n: nat)
    requires
        fits_twos(v, n),
        holds_at(b, w, p, uint_bits(twos_unsigned(v, n), n)),
    ensures
        dec_twos(b, p, n) == (Ok::<int, ErrorKind>(v), p + n),
{
    let u = twos_unsigned(v, n);
    assert(two_pow(n) == 2 * two_pow((n - 1) as nat));
    lemma_uint_bits_value(u, n);
    let s = uint_bits(u, n);
    lemma_top_bit(s);
    assert(b.subrange(p as int, p as int + n) == s);
}

/// An unconstrained whole number is read back.
pub proof fn lemma_unconstrained_roundtrip(b: Seq<bool>, w: nat, p: nat, v: int)
    requires
        i64::MIN <= v <= i64::MAX,
        holds_at(b, w, p, enc_unconstrained(v)),
    ensures
        dec_unconstrained(b, w, p) == (
            Ok::<int, ErrorKind>(v),
            p + enc_unconstrained(v).len(),
        ),
{
    lemma_two_pow_64();
    lemma_signed_octets_from(v, 1);
    let k = signed_octets(v);
    let u = twos_unsigned(v, 8 * k);
    lemma_holds_at_split(b, w, p, enc_length_unbounded(k), uint_bits(u, 8 * k));
    lemma_length_unbounded_roundtrip(b, w, p, k);
    lemma_twos_roundtrip(b, w, p + enc_length_unbounded(k).len(), v, 8 * k);
    crate::io::per::packed::numbers::lemma_uint_bits_len(u, 8 * k);
}

/// A semi constrained whole number is read back when its distance from the lower bound fits
/// in an `i64`.
pub proof fn lemma_semi_constrained_roundtrip(b: Seq<bool>, w: nat, p: nat, v: int, lower: int)
    requires
        lower <= v,
        v - lower <= i64::MAX,
        holds_at(b, w, p, enc_non_negative((v - lower) as nat, None, None)),
    ensures
        dec_semi_constrained(b, w, p, lower) == (
            Ok::<int, ErrorKind>(v),
            p + enc_non_negative((v - lower) as nat, None, None).len(),
        ),
{
    lemma_non_negative_roundtrip(b, w, p, (v - lower) as nat, None, None);
    assert(crate::io::per::packed::as_i64(v - lower) == v - lower);
}

/// The index of a choice or an enumeration is read back, when a type without extension marker
/// has it among its root variants.
pub proof fn lemma_choice_index_roundtrip(
    b: Seq<bool>,
    w: nat,
    p: nat,
    index: nat,
    std_variants: nat,
    extensible: bool,
)
    requires
        1 <= std_variants <= 0x8000_0000_0000_0000,
        index <= u64::MAX,
        extensible || index < std_variants,
        holds_at(b, w, p, enc_choice_index(index, std_variants, extensible)),
    ensures
        dec_choice_index(b, w, p, std_variants as u64, extensible) == (
            Ok::<int, ErrorKind>(index as int),
            p + enc_choice_index(index, std_variants, extensible).len(),
        ),
{
    let head = if extensible {
        seq![index >= std_variants]
    } else {
        Seq::<bool>::empty()
    };
    let body = if index < std_variants {
        enc_constrained(index as int, 0, std_variants - 1)
    } else {
        enc_normally_small((index - std_variants) as nat)
    };
    assert(enc_choice_index(index, std_variants, extensible) == head + body);
    lemma_holds_at_split(b, w, p, head, body);
    if extensible {
        assert(b[p as int] == b.subrange(p as int, p as int + 1)[0]);
    }
    let q = p + head.len();
    if index < std_variants {
        lemma_constrained_roundtrip(b, w, q, index as int, 0, std_variants - 1);
    } else {
        lemma_normally_small_roundtrip(b, w, q, (index - std_variants) as nat);
    }
}

/// The size of a string is read back as written, when it lies within the bounds or the type is
/// extensible, needs no fragments, and a length determinant between bounds reaching 64K that
/// are not equal has a lower bound of zero.
pub proof fn lemma_size_roundtrip(
    b: Seq<bool>,
    w: nat,
    p: nat,
    len: nat,
    lower_bound: Option<u64>,
    upper_bound: Option<u64>,
    extensible: bool,
    empty_when_upper_zero: bool,
)
    requires
        len <= i64::MAX,
        extensible || !size_out_of_range(len, lower_bound, upper_bound),
        !size_needs_fragments(len, lower_bound, upper_bound, extensible, empty_when_upper_zero),
        (lower_bound is Some || upper_bound is Some) && upper_or_default(upper_bound) >= 65536
            && lower_bound != upper_bound ==> lower_or_default(lower_bound) == 0,
        holds_at(b, w, p, enc_size(len, lower_bound, upper_bound, extensible, empty_when_upper_zero)),
    ensures
        dec_size(b, w, p, lower_bound, upper_bound, extensible, empty_when_upper_zero).0 is Ok,
        dec_size(b, w, p, lower_bound, upper_bound, extensible, empty_when_upper_zero).0->Ok_0.0
            == len,
        dec_size(b, w, p, lower_bound, upper_bound, extensible, empty_when_upper_zero).0->Ok_0.1
            ==> size_out_of_range(len, lower_bound, upper_bound) || !fixed_size(lower_bound, upper_bound) && !(
        empty_when_upper_zero && upper_or_default(upper_bound) == 0),
        dec_size(b, w, p, lower_bound, upper_bound, extensible, empty_when_upper_zero).1 == p
            + enc_size(len, lower_bound, upper_bound, extensible, empty_when_upper_zero).len(),
{
    reveal(dec_size);
    let out = size_out_of_range(len, lower_bound, upper_bound);
    let head = if extensible {
        seq![out]
    } else {
        Seq::<bool>::empty()
    };
    let body = if out {
        enc_length(len, None, None)
    } else if empty_when_upper_zero && upper_or_default(upper_bound) == 0 {
        Seq::<bool>::empty()
    } else if fixed_size(lower_bound, upper_bound) {
        Seq::<bool>::empty()
    } else {
        enc_length(len, lower_bound, upper_bound)
    };
    assert(enc_size(len, lower_bound, upper_bound, extensible, empty_when_upper_zero) == head + body);
    lemma_holds_at_split(b, w, p, head, body);
    if extensible {
        assert(b[p as int] == b.subrange(p as int, p as int + 1)[0]);
    }
    let q = p + head.len();
    if out {
        lemma_length_roundtrip(b, w, q, len, None, None);
    } else if empty_when_upper_zero && upper_or_default(upper_bound) == 0 {
    } else if fixed_size(lower_bound, upper_bound) {
    } else {
        lemma_length_roundtrip(b, w, q, len, lower_bound, upper_bound);
    }
}

/// An octet string is read back as the octets written, when its size lies within the bounds
/// or the type is extensible, and it is written in one piece: below 16K octets unless the size
/// is fixed. A length determinant between bounds reaching 64K that are not equal needs a lower
/// bound of zero.
pub proof fn lemma_octetstring_roundtrip(
    b: Seq<bool>,
    w: nat,
    p: nat,
    octets: Seq<u8>,
    lower_bound: Option<u64>,
    upper_bound: Option<u64>,
    extensible: bool,
)
    requires
        extensible || !size_out_of_range(octets.len(), lower_bound, upper_bound),
        octets.len() < 16384 || fixed_size(lower_bound, upper_bound) && !size_out_of_range(
            octets.len(),
            lower_bound,
            upper_bound,
        ),
        (lower_bound is Some || upper_bound is Some) && upper_or_default(upper_bound) >= 65536
            && lower_bound != upper_bound ==> lower_or_default(lower_bound) == 0,
        holds_at(b, w, p, enc_octetstring(octets, lower_bound, upper_bound, extensible)),
    ensures
        dec_octetstring(b, w, p, lower_bound, upper_bound, extensible) == (
            Ok::<Seq<bool>, ErrorKind>(bits_view(octets)),
            p + enc_octetstring(octets, lower_bound, upper_bound, extensible).len(),
        ),
{
    reveal(dec_octetstring);
    let size = enc_size(octets.len(), lower_bound, upper_bound, extensible, true);
    lemma_holds_at_split(b, w, p, size, bits_view(octets));
    lemma_size_roundtrip(b, w, p, octets.len(), lower_bound, upper_bound, extensible, true);
    let q = p + size.len();
    assert(b.subrange(q as int, q as int + 8 * octets.len()) == bits_view(octets));
}

/// A bit string is read back as the bits written, under the conditions of
/// [`lemma_octetstring_roundtrip`] counted in bits.
pub proof fn lemma_bitstring_roundtrip(
    b: Seq<bool>,
    w: nat,
    p: nat,
    bits: Seq<bool>,
    lower_bound: Option<u64>,
    upper_bound: Option<u64>,
    extensible: bool,
)
    requires
        extensible || !size_out_of_range(bits.len(), lower_bound, upper_bound),
        bits.len() < 16384 || fixed_size(lower_bound, upper_bound) && !size_out_of_range(
            bits.len(),
            lower_bound,
            upper_bound,
        ),
        (lower_bound is Some || upper_bound is Some) && upper_or_default(upper_bound) >= 65536
            && lower_bound != upper_bound ==> lower_or_default(lower_bound) == 0,
        holds_at(b, w, p, enc_bitstring(bits, lower_bound, upper_bound, extensible)),
    ensures
        dec_bitstring(b, w, p, lower_bound, upper_bound, extensible) == (
            Ok::<Seq<bool>, ErrorKind>(bits),
            p + enc_bitstring(bits, lower_bound, upper_bound, extensible).len(),
        ),
{
    reveal(dec_bitstring);
    let size = enc_size(bits.len(), lower_bound, upper_bound, extensible, false);
    lemma_holds_at_split(b, w, p, size, bits);
    lemma_size_roundtrip(b, w, p, bits.len(), lower_bound, upper_bound, extensible, false);
    let q = p + size.len();
    assert(b.subrange(q as int, q as int + bits.len()) == bits);
}

} // verus!
