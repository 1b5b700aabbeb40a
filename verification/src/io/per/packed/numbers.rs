//! Big-endian bit strings as numbers.
use vstd::prelude::*;

verus! {

/// `2^n`.
pub open spec fn two_pow(n: nat) -> nat
    decreases n,
{
    if n == 0 {
        1
    } else {
        2 * two_pow((n - 1) as nat)
    }
}

/// The value of a bit string read as a big-endian unsigned number.
pub open spec fn bits_value(s: Seq<bool>) -> nat
    decreases s.len(),
{
    if s.len() == 0 {
        0
    } else {
        2 * bits_value(s.drop_last()) + if s.last() {
            1nat
        } else {
            0nat
        }
    }
}

/// The `n` least significant bits of `v`, most significant first.
pub open spec fn uint_bits(v: nat, n: nat) -> Seq<bool>
    decreases n,
{
    if n == 0 {
        Seq::empty()
    } else {
        uint_bits(v / 2, (n - 1) as nat).push(v % 2 == 1)
    }
}

/// The number of bits needed to write every value from zero up to `v`.
pub open spec fn bit_count(v: nat) -> nat
    decreases v,
{
    if v == 0 {
        0
    } else {
        1 + bit_count(v / 2)
    }
}

pub proof fn lemma_two_pow_64()
    ensures
        two_pow(64) == 0x1_0000_0000_0000_0000,
        two_pow(63) == 0x8000_0000_0000_0000,
        two_pow(8) == 256,
        two_pow(7) == 128,
        two_pow(6) == 64,
{
    reveal_with_fuel(two_pow, 9);
    lemma_two_pow_add(8, 8);
    lemma_two_pow_add(16, 16);
    lemma_two_pow_add(32, 32);
    lemma_two_pow_add(16, 15);
    lemma_two_pow_add(8, 7);
    lemma_two_pow_add(32, 31);
    assert(two_pow(16) == 65536);
    assert(two_pow(15) == 32768);
    assert(two_pow(32) == 0x1_0000_0000);
    assert(two_pow(31) == 0x8000_0000);
    let p32 = two_pow(32);
    let p31 = two_pow(31);
    assert(p32 * p32 == 0x1_0000_0000_0000_0000) by (nonlinear_arith)
        requires
            p32 == 0x1_0000_0000,
    ;
    assert(p32 * p31 == 0x8000_0000_0000_0000) by (nonlinear_arith)
        requires
            p32 == 0x1_0000_0000,
            p31 == 0x8000_0000,
    ;
    assert(two_pow(8) == 256);
    assert(two_pow(7) == 128);
    assert(two_pow(6) == 64);

}

pub proof fn lemma_two_pow_mono(a: nat, b: nat)
    requires
        a <= b,
    ensures
        two_pow(a) <= two_pow(b),
        two_pow(a) >= 1,
    decreases b,
{
    if b > a {
        lemma_two_pow_mono(a, (b - 1) as nat);
    } else if a > 0 {
        lemma_two_pow_mono((a - 1) as nat, (a - 1) as nat);
    }
}

pub proof fn lemma_two_pow_add(a: nat, b: nat)
    ensures
        two_pow(a + b) == two_pow(a) * two_pow(b),
    decreases b,
{
    let x = two_pow(a);
    if b > 0 {
        let b1 = (b - 1) as nat;
        lemma_two_pow_add(a, b1);
        assert((a + b - 1) as nat == a + b1);
        assert(two_pow(a + b) == 2 * two_pow(a + b1));
        let y = two_pow(b1);
        let z = two_pow(b);
        assert(z == 2 * y);
        assert(x * z == 2 * (x * y)) by (nonlinear_arith)
            requires
                z == 2 * y,
        ;
    } else {
        let z = two_pow(b);
        assert(z == 1);
        assert(x * z == x) by (nonlinear_arith)
            requires
                z == 1,
        ;
    }
}

/// A bit string of `n` bits has a value below `2^n`.
pub proof fn lemma_bits_value_bound(s: Seq<bool>)
    ensures
        bits_value(s) < two_pow(s.len()),
    decreases s.len(),
{
    if s.len() > 0 {
        lemma_bits_value_bound(s.drop_last());
    }
}

pub proof fn lemma_bits_value_push(s: Seq<bool>, b: bool)
    ensures
        bits_value(s.push(b)) == 2 * bits_value(s) + if b {
            1nat
        } else {
            0nat
        },
{
    assert(s.push(b).drop_last() =~= s);
}

/// The value of a concatenation: the first part shifted by the length of the second.
pub proof fn lemma_bits_value_concat(a: Seq<bool>, b: Seq<bool>)
    ensures
        bits_value(a + b) == bits_value(a) * two_pow(b.len()) + bits_value(b),
    decreases b.len(),
{
    if b.len() == 0 {
        assert(a + b =~= a);
        let x = bits_value(a);
        let z = two_pow(b.len());
        assert(z == 1);
        assert(x * z == x) by (nonlinear_arith)
            requires
                z == 1,
        ;
    } else {
        let b0 = b.drop_last();
        assert((a + b).drop_last() =~= a + b0);
        assert((a + b).last() == b.last());
        lemma_bits_value_concat(a, b0);
        let x = bits_value(a);
        let y = two_pow(b0.len());
        let z = two_pow(b.len());
        assert(z == 2 * y);
        assert(x * z == 2 * (x * y)) by (nonlinear_arith)
            requires
                z == 2 * y,
        ;
        assert(bits_value(a + b) == 2 * bits_value(a + b0) + if b.last() { 1nat } else { 0nat });
        assert(bits_value(b) == 2 * bits_value(b0) + if b.last() { 1nat } else { 0nat });
    }
}

/// Writing the `n` low bits of a value below `2^n` and reading them back gives the value.
pub proof fn lemma_uint_bits_value(v: nat, n: nat)
    requires
        v < two_pow(n),
    ensures
        uint_bits(v, n).len() == n,
        bits_value(uint_bits(v, n)) == v,
    decreases n,
{
    if n > 0 {
        assert(v / 2 < two_pow((n - 1) as nat));
        lemma_uint_bits_value(v / 2, (n - 1) as nat);
        lemma_bits_value_push(uint_bits(v / 2, (n - 1) as nat), v % 2 == 1);
    }
}

/// `bit_count(v)` bits hold `v`, and fewer do not.
pub proof fn lemma_bit_count(v: nat)
    ensures
        v < two_pow(bit_count(v)),
        bit_count(v) > 0 ==> two_pow((bit_count(v) - 1) as nat) <= v,
    decreases v,
{
    if v > 0 {
        lemma_bit_count(v / 2);
    }
}

/// Values below `2^k` need at most `k` bits.
pub proof fn lemma_bit_count_le(v: nat, k: nat)
    requires
        v < two_pow(k),
    ensures
        bit_count(v) <= k,
    decreases v,
{
    if v > 0 {
        assert(k > 0);
        lemma_bit_count_le(v / 2, (k - 1) as nat);
    }
}

/// `uint_bits(v, n)` has `n` bits whatever `v` is.
pub proof fn lemma_uint_bits_len(v: nat, n: nat)
    ensures
        uint_bits(v, n).len() == n,
    decreases n,
{
    if n > 0 {
        lemma_uint_bits_len(v / 2, (n - 1) as nat);
    }
}

} // verus!
