//! The distinguished encoding rules (ITU-T X.690) for identifiers, lengths, booleans and
//! integers, written to a byte vector and read from a byte slice at a position.
use vstd::prelude::*;
use crate::io::der::{be_bytes, be_value, lemma_be_roundtrip, lemma_octet_pow_8, lemma_octet_pow_mono, octet_pow};
use crate::model::Tag;
use crate::protocol::basic::{Error, ErrorKind};

verus! {

/// The distinguished encoding rules.
pub struct DistinguishedEncodingRules;

/// The number of octets a number needs, one at least.
pub open spec fn octets_of(v: nat) -> nat
    decreases v,
{
    if v < 256 {
        1
    } else {
        1 + octets_of(v / 256)
    }
}

/// The octets of a number: as few as hold it, one at least, most significant first.
pub open spec fn der_integer(v: nat) -> Seq<u8> {
    be_bytes(v, octets_of(v))
}

/// The octets of a length (X.690 8.1.3): up to 127 a single octet (short form), above an octet
/// with the most significant bit set counting the octets of the length that follow (long form).
pub open spec fn der_length(length: nat) -> Seq<u8> {
    if length <= 127 {
        seq![length as u8]
    } else {
        seq![(0x80 + octets_of(length)) as u8] + der_integer(length)
    }
}

/// The class bits of an identifier octet.
pub open spec fn class_bits(tag: Tag) -> u8 {
    match tag {
        Tag::Universal(_) => 0x00u8,
        Tag::Application(_) => 0x40u8,
        Tag::ContextSpecific(_) => 0x80u8,
        Tag::Private(_) => 0xC0u8,
    }
}

/// The number of a tag.
pub open spec fn tag_number(tag: Tag) -> usize {
    match tag {
        Tag::Universal(n) => n,
        Tag::Application(n) => n,
        Tag::ContextSpecific(n) => n,
        Tag::Private(n) => n,
    }
}

/// The tag an identifier octet names: the class in its two most significant bits, the number
/// in the six others.
pub open spec fn identifier_tag(octet: u8) -> Tag {
    let number = (octet % 64) as usize;
    if octet / 64 == 0 {
        Tag::Universal(number)
    } else if octet / 64 == 1 {
        Tag::Application(number)
    } else if octet / 64 == 2 {
        Tag::ContextSpecific(number)
    } else {
        Tag::Private(number)
    }
}

/// Reading `n` octets of `b` at `p` as a big-endian number; at most eight are supported, and
/// the input ending before is `UnexpectedEndOfInput`, having consumed the rest.
pub open spec fn read_number(b: Seq<u8>, p: nat, n: nat) -> (Result<int, ErrorKind>, nat) {
    if n > 8 {
        (Err(ErrorKind::UnsupportedByteLen { max: 8, got: n as u8 }), p)
    } else if n == 0 {
        (Ok(0), p)
    } else if p + n > b.len() {
        (Err(ErrorKind::UnexpectedEndOfInput), if p < b.len() { b.len() } else { p })
    } else {
        (Ok(be_value(b.subrange(p as int, p as int + n)) as int), p + n)
    }
}

/// Reading a length at `p` in `b` (X.690 8.1.3).
pub open spec fn read_length_at(b: Seq<u8>, p: nat) -> (Result<int, ErrorKind>, nat) {
    if p >= b.len() {
        (Err(ErrorKind::UnexpectedEndOfInput), p)
    } else if b[p as int] < 128 {
        (Ok(b[p as int] as int), p + 1)
    } else {
        read_number(b, p + 1, (b[p as int] - 128) as nat)
    }
}

proof fn lemma_octets_of_le(v: nat, j: nat)
    requires
        1 <= j,
        v < octet_pow(j),
    ensures
        octets_of(v) <= j,
    decreases j,
{
    if v >= 256 {
        assert(j > 1) by {
            if j == 1 {
                reveal_with_fuel(octet_pow, 2);
            }
        }
        assert(v / 256 < octet_pow((j - 1) as nat)) by (nonlinear_arith)
            requires
                v < 256 * octet_pow((j - 1) as nat),
        ;
        lemma_octets_of_le(v / 256, (j - 1) as nat);
    }
}

proof fn lemma_octets_of(v: nat)
    ensures
        1 <= octets_of(v),
        v < octet_pow(octets_of(v)),
        v <= u64::MAX ==> octets_of(v) <= 8,
    decreases v,
{
    lemma_octet_pow_8();
    if v >= 256 {
        lemma_octets_of(v / 256);
        let k = octets_of(v / 256);
        assert(v < 256 * octet_pow(k)) by (nonlinear_arith)
            requires
                v / 256 < octet_pow(k),
        ;
    }
    if v <= u64::MAX {
        lemma_octets_of_le(v, 8);
    }
}

/// Appends the `k` least significant octets of `v`, most significant first.
fn push_be_bytes(out: &mut Vec<u8>, v: u64, k: usize)
    requires
        k <= 8,
    ensures
        final(out)@ == old(out)@ + be_bytes(v as nat, k as nat),
    decreases k,
{
    if k == 0 {
        assert(old(out)@ + be_bytes(v as nat, 0) =~= old(out)@);
        return;
    }
    push_be_bytes(out, v / 256, k - 1);
    out.push((v % 256) as u8);
    assert(out@ =~= old(out)@ + be_bytes(v as nat, k as nat));
}

/// The number of octets `v` needs, one at least.
fn octet_count(v: u64) -> (k: usize)
    ensures
        k == octets_of(v as nat),
        1 <= k <= 8,
{
    proof {
        lemma_octets_of(v as nat);
    }
    let mut k: usize = 1;
    let mut rest = v;
    while rest >= 256
        invariant
            1 <= k,
            k + octets_of(rest as nat) == octets_of(v as nat) + 1,
            octets_of(v as nat) <= 8,
        decreases rest,
    {
        rest = rest / 256;
        k = k + 1;
    }
    k
}

impl DistinguishedEncodingRules {
    /// Appends the identifier octet of `tag` (X.690 8.1.2): its class bits joined with its
    /// number.
    pub fn write_identifier(out: &mut Vec<u8>, tag: Tag)
        ensures
            final(out)@ == old(out)@.push(class_bits(tag) | (tag_number(tag) as u8)),
    {
        let class: u8 = match tag {
            Tag::Universal(_) => 0x00,
            Tag::Application(_) => 0x40,
            Tag::ContextSpecific(_) => 0x80,
            Tag::Private(_) => 0xC0,
        };
        let number = tag.value() as u8;
        out.push(class | number);
    }

    /// Appends the octets of `length` (X.690 8.1.3).
    pub fn write_length(out: &mut Vec<u8>, length: u64)
        ensures
            final(out)@ == old(out)@ + der_length(length as nat),
    {
        if length <= 127 {
            // short form
            out.push(length as u8);
            assert(out@ =~= old(out)@ + der_length(length as nat));
        } else {
            // long form
            let k = octet_count(length);
            out.push(0x80u8 + k as u8);
            Self::write_integer_u64(out, length);
            assert(out@ =~= old(out)@ + der_length(length as nat));
        }
    }

    /// Appends a boolean as one octet (X.690 8.2): `0x01` for `true`, `0x00` for `false`.
    pub fn write_boolean(out: &mut Vec<u8>, value: bool)
        ensures
            final(out)@ == old(out)@.push(if value { 0x01u8 } else { 0x00u8 }),
    {
        out.push(if value {
            0x01
        } else {
            0x00
        });
    }

    /// Appends the octets of an unsigned number (X.690 8.3): as few as hold it, one at least.
    pub fn write_integer_u64(out: &mut Vec<u8>, value: u64)
        ensures
            final(out)@ == old(out)@ + der_integer(value as nat),
    {
        let k = octet_count(value);
        push_be_bytes(out, value, k);
    }

    /// Appends the octets of a signed number: those of its two's complement bits read as an
    /// unsigned number, so that a negative number takes all eight.
    pub fn write_integer_i64(out: &mut Vec<u8>, value: i64)
        ensures
            final(out)@ == old(out)@ + der_integer(
                if value < 0 {
                    (value + 0x1_0000_0000_0000_0000) as nat
                } else {
                    value as nat
                },
            ),
    {
        let bits: u64 = if value < 0 {
            u64::MAX - ((-(value + 1)) as u64)
        } else {
            value as u64
        };
        Self::write_integer_u64(out, bits)
    }

    /// Reads an identifier octet (X.690 8.1.2) at `*pos`.
    pub fn read_identifier(src: &[u8], pos: &mut usize) -> (res: Result<Tag, Error>)
        ensures
            *old(pos) >= src@.len() ==> res == Err::<Tag, Error>(
                Error { kind: ErrorKind::UnexpectedEndOfInput },
            ) && *final(pos) == *old(pos),
            *old(pos) < src@.len() ==> res == Ok::<Tag, Error>(identifier_tag(src@[*old(pos) as int]))
                && *final(pos) == *old(pos) + 1,
    {
        if *pos >= src.len() {
            return Err(Error { kind: ErrorKind::UnexpectedEndOfInput });
        }
        let byte = src[*pos];
        *pos = *pos + 1;
        let value = (byte % 64) as usize;
        let class = byte / 64;
        Ok(if class == 0 {
            Tag::Universal(value)
        } else if class == 1 {
            Tag::Application(value)
        } else if class == 2 {
            Tag::ContextSpecific(value)
        } else {
            Tag::Private(value)
        })
    }

    /// Reads `byte_len` octets at `*pos` as a big-endian unsigned number; more than eight are
    /// refused with `UnsupportedByteLen`.
    pub fn read_integer_u64(src: &[u8], pos: &mut usize, byte_len: u32) -> (res: Result<u64, Error>)
        ensures
            ({
                let (r, q) = read_number(src@, *old(pos) as nat, byte_len as nat);
                &&& *final(pos) == q
                &&& match r {
                    Ok(v) => res == Ok::<u64, Error>(v as u64) && v <= u64::MAX,
                    Err(k) => res == Err::<u64, Error>(Error { kind: k }),
                }
            }),
    {
        if byte_len > 8 {
            return Err(Error::unsupported_byte_len(8, byte_len as u8));
        }
        let n = byte_len as usize;
        let start = *pos;
        if n == 0 {
            return Ok(0);
        }
        if start >= src.len() || n > src.len() - start {
            if start < src.len() {
                *pos = src.len();
            }
            return Err(Error { kind: ErrorKind::UnexpectedEndOfInput });
        }
        proof {
            lemma_octet_pow_8();
        }
        let mut value: u64 = 0;
        let mut i: usize = 0;
        while i < n
            invariant
                0 <= i <= n <= 8,
                start + n <= src@.len(),
                start + n <= usize::MAX,
                value == be_value(src@.subrange(start as int, start + i)),
                value < octet_pow(i as nat),
                octet_pow(8) == 0x1_0000_0000_0000_0000,
            decreases n - i,
        {
            proof {
                assert(src@.subrange(start as int, start + i + 1).drop_last() =~= src@.subrange(
                    start as int,
                    start + i,
                ));
                lemma_octet_pow_mono((i + 1) as nat, 8);
            }
            value = value * 256 + src[start + i] as u64;
            i = i + 1;
        }
        *pos = start + n;
        Ok(value)
    }

    /// Reads `byte_len` octets at `*pos` as a big-endian number, taken as the `i64` of the same
    /// bits; more than eight are refused with `UnsupportedByteLen`.
    pub fn read_integer_i64(src: &[u8], pos: &mut usize, byte_len: u32) -> (res: Result<i64, Error>)
        ensures
            ({
                let (r, q) = read_number(src@, *old(pos) as nat, byte_len as nat);
                &&& *final(pos) == q
                &&& match r {
                    Ok(v) => res == Ok::<i64, Error>(
                        if v >= 0x8000_0000_0000_0000 {
                            (v - 0x1_0000_0000_0000_0000) as i64
                        } else {
                            v as i64
                        },
                    ),
                    Err(k) => res == Err::<i64, Error>(Error { kind: k }),
                }
            }),
    {
        match Self::read_integer_u64(src, pos, byte_len) {
            Ok(v) => if v >= 0x8000_0000_0000_0000 {
                Ok(-((u64::MAX - v) as i64) - 1)
            } else {
                Ok(v as i64)
            },
            Err(e) => Err(e),
        }
    }

    /// Reads a length (X.690 8.1.3) at `*pos`.
    pub fn read_length(src: &[u8], pos: &mut usize) -> (res: Result<u64, Error>)
        ensures
            ({
                let (r, q) = read_length_at(src@, *old(pos) as nat);
                &&& *final(pos) == q
                &&& match r {
                    Ok(v) => res == Ok::<u64, Error>(v as u64) && v <= u64::MAX,
                    Err(k) => res == Err::<u64, Error>(Error { kind: k }),
                }
            }),
    {
        if *pos >= src.len() {
            return Err(Error { kind: ErrorKind::UnexpectedEndOfInput });
        }
        let byte = src[*pos];
        *pos = *pos + 1;
        if byte < 128 {
            Ok(byte as u64)
        } else {
            Self::read_integer_u64(src, pos, (byte - 128) as u32)
        }
    }

    /// Reads a boolean octet (X.690 8.2): any value but zero is `true`.
    pub fn read_boolean(src: &[u8], pos: &mut usize) -> (res: Result<bool, Error>)
        ensures
            *old(pos) >= src@.len() ==> res == Err::<bool, Error>(
                Error { kind: ErrorKind::UnexpectedEndOfInput },
            ) && *final(pos) == *old(pos),
            *old(pos) < src@.len() ==> res == Ok::<bool, Error>(src@[*old(pos) as int] != 0)
                && *final(pos) == *old(pos) + 1,
    {
        if *pos >= src.len() {
            return Err(Error { kind: ErrorKind::UnexpectedEndOfInput });
        }
        let byte = src[*pos];
        *pos = *pos + 1;
        Ok(byte != 0)
    }
}

/// A length written by [`DistinguishedEncodingRules::write_length`] is read back by
/// [`DistinguishedEncodingRules::read_length`], which stops right behind it, whatever follows.
pub proof fn lemma_length_roundtrip(before: Seq<u8>, length: u64, after: Seq<u8>)
    ensures
        read_length_at(before + der_length(length as nat) + after, before.len()) == (
            Ok::<int, ErrorKind>(length as int),
            before.len() + der_length(length as nat).len(),
        ),
{
    let b = before + der_length(length as nat) + after;
    let p = before.len();
    if length <= 127 {
        assert(b[p as int] == length as u8);
    } else {
        lemma_octets_of(length as nat);
        let k = octets_of(length as nat);
        lemma_be_roundtrip(length as nat, k);
        assert(b[p as int] == (0x80 + k) as u8);
        assert(b.subrange(p as int + 1, p as int + 1 + k) =~= der_integer(length as nat));
    }
}

/// An unsigned number written by [`DistinguishedEncodingRules::write_integer_u64`] is read
/// back by [`DistinguishedEncodingRules::read_integer_u64`] given its octet count.
pub proof fn lemma_integer_u64_roundtrip(before: Seq<u8>, value: u64, after: Seq<u8>)
    ensures
        der_integer(value as nat).len() <= 8,
        read_number(
            before + der_integer(value as nat) + after,
            before.len(),
            der_integer(value as nat).len(),
        ) == (Ok::<int, ErrorKind>(value as int), before.len() + der_integer(value as nat).len()),
{
    lemma_octets_of(value as nat);
    let k = octets_of(value as nat);
    lemma_be_roundtrip(value as nat, k);
    let b = before + der_integer(value as nat) + after;
    assert(b.subrange(before.len() as int, before.len() as int + k) =~= der_integer(value as nat));
}


/// The identifier octet written for a tag whose number fits in the six low bits is read back as
/// that tag: the class and the number are kept.
pub proof fn lemma_identifier_roundtrip(tag: Tag)
    requires
        tag_number(tag) < 64,
    ensures
        identifier_tag(class_bits(tag) | (tag_number(tag) as u8)) == tag,
{
    let n = tag_number(tag) as u8;
    assert(n < 64 ==> (0x00u8 | n) / 64 == 0 && (0x00u8 | n) % 64 == n) by (bit_vector);
    assert(n < 64 ==> (0x40u8 | n) / 64 == 1 && (0x40u8 | n) % 64 == n) by (bit_vector);
    assert(n < 64 ==> (0x80u8 | n) / 64 == 2 && (0x80u8 | n) % 64 == n) by (bit_vector);
    assert(n < 64 ==> (0xC0u8 | n) / 64 == 3 && (0xC0u8 | n) % 64 == n) by (bit_vector);
}

} // verus!
