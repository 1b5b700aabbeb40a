//! Octet strings and UTF-8 texts on the first bit buffer: a length (a length determinant or a
//! whole number within given bounds) followed by the octets.
use vstd::prelude::*;
use vstd::string::StringSliceAdditionalSpecFns;
use vstd::utf8::{decode_utf8, encode_utf8, valid_utf8};

use crate::io::buffer::{fits, lbits, lemma_int_roundtrip, lemma_length_determinant_roundtrip, lemma_written_at_split, lint, llength, written_at, BitBuffer};
use crate::io::per::err::ErrorKind;
use crate::io::per::packed::numbers::{bit_count, lemma_bit_count_le, lemma_two_pow_64, lemma_uint_bits_len};
use crate::io::per::packed::write::{enc_bounded, enc_length_unbounded};
use crate::io::per::unaligned::slice::{bit_of, bits_view, byte_bit, lemma_byte_ext};
use crate::io::protobuf::string_from_utf8;
use crate::io::uper::{is_error_of_kind, Error};

verus! {

/// The octets whose bits are `bits`.
pub open spec fn octets_of_bits(bits: Seq<bool>) -> Seq<u8> {
    choose|b: Seq<u8>| bits_view(b) == bits
}

/// Octets are given back by their bits.
pub proof fn lemma_octets_of_bits(b: Seq<u8>)
    ensures
        octets_of_bits(bits_view(b)) == b,
{
    let c = octets_of_bits(bits_view(b));
    assert(bits_view(c) == bits_view(b));
    assert(c.len() == b.len()) by {
        assert(bits_view(c).len() == c.len() * 8);
    }
    assert forall|k: int| 0 <= k < b.len() implies c[k] == b[k] by {
        assert forall|j: int| 0 <= j < 8 implies byte_bit(c[k], j) == byte_bit(b[k], j) by {
            let i = 8 * k + j;
            assert(bits_view(c)[i] == bits_view(b)[i]);
            assert(i / 8 == k && i % 8 == j);
        }
        lemma_byte_ext(c[k], b[k]);
    }
    assert(c =~= b);
}

/// What reading an octet string gives at `p` of the bits `s`: its length as `length_range`
/// asks (a whole number within the bounds, or else a length determinant), then that many
/// octets.
pub open spec fn loctet_string(s: Seq<bool>, p: nat, length_range: Option<(i64, i64)>) -> (
    Result<Seq<u8>, ErrorKind>,
    nat,
) {
    let (r, q) = match length_range {
        Some(range) => lint(s, p, range.0 as int, range.1 as int),
        None => llength(s, p),
    };
    match r {
        Err(k) => (Err(k), q),
        Ok(len) => {
            let (r2, q2) = lbits(s, q, (8 * len) as nat);
            match r2 {
                Ok(bits) => (Ok(octets_of_bits(bits)), q2),
                Err(k) => (Err(k), q2),
            }
        },
    }
}

/// How the length of an octet string is written: as a whole number within the bounds of
/// `length_range`, or else as a length determinant.
pub open spec fn enc_length_of(len: nat, length_range: Option<(i64, i64)>) -> Seq<bool> {
    match length_range {
        Some(range) => enc_bounded(len as int, range.0 as int, range.1 as int),
        None => enc_length_unbounded(len),
    }
}

/// How an octet string is written: its length as `length_range` asks, then its bits.
pub open spec fn enc_octet_string(string: Seq<u8>, length_range: Option<(i64, i64)>) -> Seq<bool> {
    enc_length_of(string.len(), length_range) + bits_view(string)
}

impl BitBuffer {
    /// Writes the length of `string` as `length_range` asks (a whole number within its bounds,
    /// or else a length determinant), then its octets. A length out of the bounds is refused
    /// with `ValueNotInRange`, one beyond 16383 without bounds with `UnsupportedOperation`.
    pub fn write_octet_string(&mut self, string: &[u8], length_range: Option<(i64, i64)>) -> (res:
        Result<(), Error>)
        requires
            old(self).wf(),
            string@.len() * 8 + 8 <= usize::MAX,
            old(self).write_pos() + string@.len() * 8 + 256 <= usize::MAX,
            length_range matches Some(range) ==> range.1 - range.0 <= i64::MAX,
        ensures
            old(self).tight() ==> final(self).tight(),
            final(self).wf(),
            final(self).read_pos() == old(self).read_pos(),
            match length_range {
                Some(range) => if string@.len() < range.0 || string@.len() > range.1 {
                    res == Err::<(), Error>(Error::ValueNotInRange(string@.len() as i64, range.0, range.1))
                        && final(self).written() == old(self).written()
                } else {
                    res is Ok && final(self).written() == old(self).written() + enc_octet_string(
                        string@,
                        length_range,
                    )
                },
                None => if string@.len() <= 16383 {
                    res is Ok && final(self).written() == old(self).written() + enc_octet_string(
                        string@,
                        length_range,
                    )
                } else {
                    res matches Err(Error::UnsupportedOperation(_)) && final(self).written() == old(
                        self,
                    ).written()
                },
            },
    {
        proof {
            lemma_two_pow_64();
        }
        match length_range {
            Some((min, max)) => {
                if let Err(e) = self.write_int(string.len() as i64, (min, max)) {
                    return Err(e);
                }
                proof {
                    lemma_bit_count_le((max - min) as nat, 64);
                    lemma_uint_bits_len((string@.len() - min) as nat, bit_count((max - min) as nat));
                }
            },
            None => {
                if let Err(e) = self.write_length_determinant(string.len()) {
                    return Err(e);
                }
                proof {
                    lemma_uint_bits_len(string@.len(), 7);
                    lemma_uint_bits_len(string@.len(), 14);
                }
            },
        }
        assert(self.written().len() == self.write_pos());
        assert(old(self).written().len() == old(self).write_pos());
        let r = self.write_bit_string_till_end(string, 0);
        assert(bits_view(string@).subrange(0, (string@.len() * 8) as int) =~= bits_view(string@));
        assert(self.written() =~= old(self).written() + enc_octet_string(string@, length_range));
        Ok(())
    }

    /// Writes the length of the UTF-8 octets of `value` as a length determinant, then the
    /// octets. A length beyond 16383 is refused with `UnsupportedOperation`.
    pub fn write_utf8_string(&mut self, value: &str) -> (res: Result<(), Error>)
        requires
            old(self).wf(),
            value.spec_bytes().len() * 8 + 8 <= usize::MAX,
            old(self).write_pos() + value.spec_bytes().len() * 8 + 256 <= usize::MAX,
        ensures
            old(self).tight() ==> final(self).tight(),
            final(self).wf(),
            final(self).read_pos() == old(self).read_pos(),
            value.spec_bytes().len() <= 16383 ==> res is Ok && final(self).written() == old(
                self,
            ).written() + enc_octet_string(value.spec_bytes(), None),
            value.spec_bytes().len() > 16383 ==> (res matches Err(Error::UnsupportedOperation(_)))
                && final(self).written() == old(self).written(),
    {
        self.write_octet_string(value.as_bytes(), None)
    }

    /// Reads bits until the write position, where reading stops with `EndOfStream`.
    fn skip_to_end(&mut self) -> (res: Result<Vec<u8>, Error>)
        requires
            old(self).wf(),
        ensures
            final(self).bytes() == old(self).bytes(),
            final(self).write_pos() == old(self).write_pos(),
            final(self).wf(),
            final(self).read_pos() == if old(self).read_pos() < old(self).write_pos() {
                old(self).write_pos()
            } else {
                old(self).read_pos()
            },
            res == Err::<Vec<u8>, Error>(Error::EndOfStream),
    {
        loop
            invariant
                self.wf(),
                self.bytes() == old(self).bytes(),
                self.write_pos() == old(self).write_pos(),
                old(self).read_pos() <= self.read_pos(),
                old(self).read_pos() < old(self).write_pos() ==> self.read_pos() <= self.write_pos(),
                old(self).read_pos() >= old(self).write_pos() ==> self.read_pos() == old(self).read_pos(),
            decreases self.bytes().len() * 8 - self.read_pos(),
        {
            if let Err(e) = self.read_bit() {
                return Err(e);
            }
        }
    }

    /// Reads an octet string: its length as `length_range` asks (see [`loctet_string`]), then
    /// that many octets; at the write position reading stops with `EndOfStream`.
    pub fn read_octet_string(&mut self, length_range: Option<(i64, i64)>) -> (res: Result<
        Vec<u8>,
        Error,
    >)
        requires
            old(self).wf(),
            length_range matches Some(range) ==> range.0 <= range.1 && range.1 - range.0
                <= i64::MAX && fits(
                lint(old(self).written(), old(self).read_pos(), range.0 as int, range.1 as int).0,
                0,
                i64::MAX as int,
            ) && fits(
                lint(old(self).written(), old(self).read_pos(), range.0 as int, range.1 as int).0,
                0,
                usize::MAX as int,
            ),
        ensures
            final(self).bytes() == old(self).bytes(),
            final(self).write_pos() == old(self).write_pos(),
            final(self).wf(),
            ({
                let (r, q) = loctet_string(old(self).written(), old(self).read_pos(), length_range);
                &&& final(self).read_pos() == q
                &&& match r {
                    Ok(octets) => res is Ok && res->Ok_0@ == octets,
                    Err(k) => res is Err && is_error_of_kind(res->Err_0, k),
                }
            }),
    {
        let len: usize = match length_range {
            Some((min, max)) => match self.read_int((min, max)) {
                Ok(v) => v as usize,
                Err(e) => return Err(e),
            },
            None => match self.read_length_determinant() {
                Ok(v) => v,
                Err(e) => return Err(e),
            },
        };
        self.read_octets(len)
    }

    /// Reads `len` octets; at the write position reading stops with `EndOfStream`.
    fn read_octets(&mut self, len: usize) -> (res: Result<Vec<u8>, Error>)
        requires
            old(self).wf(),
        ensures
            final(self).bytes() == old(self).bytes(),
            final(self).write_pos() == old(self).write_pos(),
            final(self).wf(),
            ({
                let (r, q) = lbits(old(self).written(), old(self).read_pos(), (8 * len) as nat);
                &&& final(self).read_pos() == q
                &&& match r {
                    Ok(bits) => res is Ok && res->Ok_0@ == octets_of_bits(bits) && bits_view(
                        res->Ok_0@,
                    ) == bits,
                    Err(k) => res is Err && is_error_of_kind(res->Err_0, k),
                }
            }),
    {
        let ghost s = self.written();
        let ghost p = self.read_pos();
        if len == 0 {
            let empty: Vec<u8> = Vec::new();
            proof {
                assert(bits_view(empty@) =~= Seq::<bool>::empty());
                lemma_octets_of_bits(empty@);
            }
            return Ok(empty);
        }
        let unread = self.unread_bits();
        let available = unread / 8;
        if len > available {
            assert(8 * len > unread) by (nonlinear_arith)
                requires
                    len > available,
                    available == unread / 8,
            ;
            return self.skip_to_end();
        }
        assert(8 * len <= unread) by (nonlinear_arith)
            requires
                len <= available,
                available == unread / 8,
        ;
        let mut octets: Vec<u8> = Vec::new();
        let mut i: usize = 0;
        while i < len
            invariant
                0 <= i <= len,
                octets@.len() == i,
                forall|k: int| 0 <= k < i ==> octets@[k] == 0u8,
            decreases len - i,
        {
            octets.push(0);
            i = i + 1;
        }
        let r = self.read_bit_string_till_end(octets.as_mut_slice(), 0);
        match r {
            Ok(()) => {},
            Err(e) => return Err(e),
        }
        proof {
            assert forall|i: int| 0 <= i < 8 * len implies #[trigger] bits_view(octets@)[i] == s[p + i] by {
                assert(bits_view(octets@)[i] == bit_of(octets@, i));
                assert(bit_of(octets@, i) == bit_of(self.bytes(), p + i));
            }
            assert(p + 8 * len <= s.len());
            assert(bits_view(octets@).len() == 8 * len);
            assert(bits_view(octets@) =~= s.subrange(p as int, p + 8 * len));
            lemma_octets_of_bits(octets@);
        }
        Ok(octets)
    }

    /// Reads a UTF-8 text: its length as a length determinant, then its octets; octets that
    /// are not UTF-8 are refused with `InvalidUtf8String`.
    pub fn read_utf8_string(&mut self) -> (res: Result<String, Error>)
        requires
            old(self).wf(),
        ensures
            final(self).bytes() == old(self).bytes(),
            final(self).write_pos() == old(self).write_pos(),
            final(self).wf(),
            ({
                let (r, q) = loctet_string(old(self).written(), old(self).read_pos(), None);
                &&& final(self).read_pos() == q
                &&& match r {
                    Ok(octets) => if valid_utf8(octets) {
                        res is Ok && res->Ok_0@ == decode_utf8(octets)
                    } else {
                        res == Err::<String, Error>(Error::InvalidUtf8String)
                    },
                    Err(k) => res is Err && is_error_of_kind(res->Err_0, k),
                }
            }),
    {
        let octets = match self.read_octet_string(None) {
            Ok(o) => o,
            Err(e) => return Err(e),
        };
        match string_from_utf8(octets) {
            Some(s) => Ok(s),
            None => Err(Error::InvalidUtf8String),
        }
    }
}

/// An octet string written with [`BitBuffer::write_octet_string`] is read back by
/// [`BitBuffer::read_octet_string`] with the same length bounds, which stops right behind it.
pub proof fn lemma_octet_string_roundtrip(
    s: Seq<bool>,
    p: nat,
    string: Seq<u8>,
    length_range: Option<(i64, i64)>,
)
    requires
        match length_range {
            Some(range) => range.0 <= string.len() <= range.1,
            None => string.len() <= 16383,
        },
        written_at(s, p, enc_octet_string(string, length_range)),
    ensures
        loctet_string(s, p, length_range) == (
            Ok::<Seq<u8>, ErrorKind>(string),
            p + enc_octet_string(string, length_range).len(),
        ),
{
    let head = enc_length_of(string.len(), length_range);
    lemma_written_at_split(s, p, head, bits_view(string));
    assert(bits_view(string).len() == string.len() * 8);
    match length_range {
        Some(range) => lemma_int_roundtrip(s, p, string.len() as int, range.0 as int, range.1 as int),
        None => lemma_length_determinant_roundtrip(s, p, string.len()),
    }
    lemma_octets_of_bits(string);
    let q = p + head.len();
    if string.len() > 0 {
        assert(s.subrange(q as int, (q + string.len() * 8) as int) == bits_view(string));
    } else {
        assert(bits_view(string) =~= Seq::<bool>::empty());
    }
}

/// A text written with [`BitBuffer::write_utf8_string`] is read back by
/// [`BitBuffer::read_utf8_string`]: its octets are valid UTF-8 and decode to it.
pub proof fn lemma_utf8_string_roundtrip(s: Seq<bool>, p: nat, text: Seq<char>)
    requires
        encode_utf8(text).len() <= 16383,
        written_at(s, p, enc_octet_string(encode_utf8(text), None)),
    ensures
        loctet_string(s, p, None) == (
            Ok::<Seq<u8>, ErrorKind>(encode_utf8(text)),
            p + enc_octet_string(encode_utf8(text), None).len(),
        ),
        valid_utf8(encode_utf8(text)),
        decode_utf8(encode_utf8(text)) == text,
{
    broadcast use vstd::utf8::encode_utf8_valid_utf8, vstd::utf8::encode_utf8_decode_utf8;

    lemma_octet_string_roundtrip(s, p, encode_utf8(text), None);
}

} // verus!
