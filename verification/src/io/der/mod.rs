//! Octet level reading of ITU-T X.690 (distinguished encoding rules) data.
use vstd::prelude::*;

pub mod octet_aligned;

pub use crate::io::per::err::Error;

verus! {

/// The value of octets read as a big-endian unsigned number.
pub open spec fn be_value(s: Seq<u8>) -> nat
    decreases s.len(),
{
    if s.len() == 0 {
        0
    } else {
        be_value(s.drop_last()) * 256 + s.last() as nat
    }
}

/// The `k` least significant octets of `v`, most significant first.
pub open spec fn be_bytes(v: nat, k: nat) -> Seq<u8>
    decreases k,
{
    if k == 0 {
        Seq::empty()
    } else {
        be_bytes(v / 256, (k - 1) as nat).push((v % 256) as u8)
    }
}

/// `256^k`.
pub open spec fn octet_pow(k: nat) -> nat
    decreases k,
{
    if k == 0 {
        1
    } else {
        256 * octet_pow((k - 1) as nat)
    }
}

/// A value below `256^k` written in `k` octets is read back.
pub proof fn lemma_be_roundtrip(v: nat, k: nat)
    requires
        v < octet_pow(k),
    ensures
        be_bytes(v, k).len() == k,
        be_value(be_bytes(v, k)) == v,
    decreases k,
{
    if k > 0 {
        assert(v / 256 < octet_pow((k - 1) as nat)) by (nonlinear_arith)
            requires
                v < 256 * octet_pow((k - 1) as nat),
        ;
        lemma_be_roundtrip(v / 256, (k - 1) as nat);
        let s = be_bytes(v, k);
        assert(s.drop_last() =~= be_bytes(v / 256, (k - 1) as nat));
        assert(v == (v / 256) * 256 + v % 256) by (nonlinear_arith);
    }
}

/// The value of `k` octets lies below `256^k`.
pub proof fn lemma_be_value_bound(s: Seq<u8>)
    ensures
        be_value(s) < octet_pow(s.len()),
    decreases s.len(),
{
    if s.len() > 0 {
        lemma_be_value_bound(s.drop_last());
        let a = be_value(s.drop_last());
        let p = octet_pow((s.len() - 1) as nat);
        assert(a * 256 + s.last() < 256 * p) by (nonlinear_arith)
            requires
                a < p,
                s.last() < 256,
        ;
    }
}

/// The powers of 256 up to the eighth.
pub proof fn lemma_octet_pow_8()
    ensures
        octet_pow(0) == 1,
        octet_pow(1) == 0x100,
        octet_pow(2) == 0x1_0000,
        octet_pow(3) == 0x100_0000,
        octet_pow(4) == 0x1_0000_0000,
        octet_pow(5) == 0x100_0000_0000,
        octet_pow(6) == 0x1_0000_0000_0000,
        octet_pow(7) == 0x100_0000_0000_0000,
        octet_pow(8) == 0x1_0000_0000_0000_0000,
{
    reveal_with_fuel(octet_pow, 9);
}

/// Powers of 256 grow with the exponent.
pub proof fn lemma_octet_pow_mono(a: nat, b: nat)
    requires
        a <= b,
    ensures
        octet_pow(a) <= octet_pow(b),
    decreases b,
{
    if a < b {
        lemma_octet_pow_mono(a, (b - 1) as nat);
    }
}

/// Writing according to ITU-T X.690 (distinguished encoding rules).
pub trait DistinguishedWrite {
}

} // verus!
