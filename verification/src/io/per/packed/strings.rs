//! Choice indices, octet strings and bit strings.
use vstd::prelude::*;
use crate::io::per::err::{Error, ErrorKind};
use crate::io::per::unaligned::buffer::BitBuffer;
use crate::io::per::unaligned::slice::bits_view;
use crate::io::per::packed::numbers::{bit_count, lemma_two_pow_64, lemma_two_pow_mono};
use crate::io::per::packed::{dec_bit, dec_constrained, dec_normally_small, fits, lemma_dec_uint_bound, lower_or_default, same_u64, small_length_ok, upper_or_default, I64_MAX_AS_U64};
use crate::io::per::packed::write::{enc_constrained, enc_length, enc_normally_small};

verus! {

/// Reading the index of a choice or enumeration with `std_variants` root variants (X.691 23,
/// 14): with an extension marker a first bit tells whether the index lies beyond the root; an
/// index in the root is a constrained whole number below `std_variants`, one beyond it a
/// normally small number counted from `std_variants`. A root index that is not below
/// `std_variants` is refused.
pub open spec fn dec_choice_index(b: Seq<bool>, w: nat, p: nat, std_variants: u64, extensible: bool) -> (
    Result<int, ErrorKind>,
    nat,
) {
    let (r, q) = if extensible {
        dec_bit(b, w, p)
    } else {
        (Ok(false), p)
    };
    match r {
        Err(e) => (Err(e), q),
        Ok(beyond) => if beyond {
            let (r2, q2) = dec_normally_small(b, w, q);
            match r2 {
                Ok(v) => (Ok(std_variants + v), q2),
                Err(e) => (Err(e), q2),
            }
        } else {
            let (r2, q2) = dec_constrained(b, q, 0, std_variants - 1);
            match r2 {
                Ok(v) => if v < std_variants {
                    (Ok(v), q2)
                } else {
                    (Err(ErrorKind::InvalidChoiceIndex(v as u64, std_variants)), q2)
                },
                Err(e) => (Err(e), q2),
            }
        },
    }
}

/// The bits of a choice or enumeration index.
pub open spec fn enc_choice_index(index: nat, std_variants: nat, extensible: bool) -> Seq<bool> {
    (if extensible {
        seq![index >= std_variants]
    } else {
        Seq::empty()
    }) + if index < std_variants {
        enc_constrained(index as int, 0, std_variants - 1)
    } else {
        enc_normally_small((index - std_variants) as nat)
    }
}

/// A choice index can be read without an overlong number.
pub open spec fn choice_index_ok(b: Seq<bool>, w: nat, p: nat, extensible: bool) -> bool {
    extensible && p < w && b[p as int] ==> small_length_ok(b, w, p + 1)
        && fits(dec_normally_small(b, w, p + 1).0, 0, u64::MAX - 0x8000_0000_0000_0000)
}

impl BitBuffer {
    /// Reads the index of a choice (X.691 23) with `std_variants` root variants.
    pub fn read_choice_index(&mut self, std_variants: u64, extensible: bool) -> (res: Result<
        u64,
        Error,
    >)
        requires
            old(self).wf(),
            std_variants <= 0x8000_0000_0000_0000,
            choice_index_ok(old(self).bits(), old(self).write_pos(), old(self).read_pos(), extensible),
        ensures
            final(self).bytes() == old(self).bytes(),
            final(self).write_pos() == old(self).write_pos(),
            final(self).wf(),
            ({
                let (r, q) = dec_choice_index(old(self).bits(), old(self).write_pos(), old(self).read_pos(), std_variants, extensible);
                final(self).read_pos() == q && same_u64(res, r)
            }),
    {
        let beyond_root = if extensible {
            self.read_bit()?
        } else {
            false
        };
        if beyond_root {
            let v = self.read_normally_small_non_negative_whole_number()?;
            Ok(std_variants + v)
        } else {
            let ghost p = self.read_pos();
            if std_variants <= 1 {
                // a single root variant (or none) needs no bits
                if std_variants == 0 {
                    return Err(Error { kind: ErrorKind::InvalidChoiceIndex(0, std_variants) });
                }
                return Ok(0);
            }
            proof {
                lemma_two_pow_64();
                crate::io::per::packed::numbers::lemma_bit_count_le((std_variants - 1) as nat, 63);
                lemma_dec_uint_bound(self.bits(), p, bit_count((std_variants - 1) as nat));
                lemma_two_pow_mono(bit_count((std_variants - 1) as nat), 63);
            }
            let index = self.read_constrained_whole_number(0, (std_variants - 1) as i64)?;
            if (index as u64) < std_variants {
                Ok(index as u64)
            } else {
                Err(Error { kind: ErrorKind::InvalidChoiceIndex(index as u64, std_variants) })
            }
        }
    }

    /// Reads the index of an enumeration (X.691 14) with `std_variants` root variants; encoded
    /// like a choice index.
    pub fn read_enumeration_index(&mut self, std_variants: u64, extensible: bool) -> (res: Result<
        u64,
        Error,
    >)
        requires
            old(self).wf(),
            std_variants <= 0x8000_0000_0000_0000,
            choice_index_ok(old(self).bits(), old(self).write_pos(), old(self).read_pos(), extensible),
        ensures
            final(self).bytes() == old(self).bytes(),
            final(self).write_pos() == old(self).write_pos(),
            final(self).wf(),
            ({
                let (r, q) = dec_choice_index(old(self).bits(), old(self).write_pos(), old(self).read_pos(), std_variants, extensible);
                final(self).read_pos() == q && same_u64(res, r)
            }),
    {
        self.read_choice_index(std_variants, extensible)
    }

    /// Writes the index of a choice (X.691 23) with `std_variants` root variants; an index
    /// beyond the root without an extension marker is refused with `InvalidChoiceIndex`.
    pub fn write_choice_index(&mut self, std_variants: u64, extensible: bool, index: u64) -> (res:
        Result<(), Error>)
        requires
            old(self).wf(),
            old(self).write_pos() + 1024 <= usize::MAX,
            std_variants <= 0x8000_0000_0000_0000,
        ensures
            final(self).wf(),
            final(self).read_pos() == old(self).read_pos(),
            final(self).write_pos() <= old(self).write_pos() + 200,
            (old(self).tail_clear() ==> final(self).tail_clear()) && (old(self).tight() ==> final(self).tight()),
            !extensible && index >= std_variants ==> res == Err::<(), Error>(
                Error { kind: ErrorKind::InvalidChoiceIndex(index, std_variants) },
            ) && final(self).written() == old(self).written(),
            extensible || index < std_variants ==> res is Ok && final(self).written()
                == old(self).written() + enc_choice_index(index as nat, std_variants as nat, extensible),
    {
        if !extensible && index >= std_variants {
            return Err(Error { kind: ErrorKind::InvalidChoiceIndex(index, std_variants) });
        }
        if extensible {
            self.write_bit(index >= std_variants)?;
        }
        let ghost mid = self.written();
        if index < std_variants {
            self.write_constrained_whole_number(0, (std_variants - 1) as i64, index as i64)?;
        } else {
            self.write_normally_small_non_negative_whole_number(index - std_variants)?;
        }
        assert(self.written() =~= old(self).written() + enc_choice_index(index as nat, std_variants as nat, extensible));
        Ok(())
    }

    /// Writes the index of an enumeration (X.691 14) like a choice index.
    pub fn write_enumeration_index(&mut self, std_variants: u64, extensible: bool, index: u64) -> (res:
        Result<(), Error>)
        requires
            old(self).wf(),
            old(self).write_pos() + 1024 <= usize::MAX,
            std_variants <= 0x8000_0000_0000_0000,
        ensures
            final(self).wf(),
            final(self).read_pos() == old(self).read_pos(),
            final(self).write_pos() <= old(self).write_pos() + 200,
            (old(self).tail_clear() ==> final(self).tail_clear()) && (old(self).tight() ==> final(self).tight()),
            !extensible && index >= std_variants ==> res == Err::<(), Error>(
                Error { kind: ErrorKind::InvalidChoiceIndex(index, std_variants) },
            ) && final(self).written() == old(self).written(),
            extensible || index < std_variants ==> res is Ok && final(self).written()
                == old(self).written() + enc_choice_index(index as nat, std_variants as nat, extensible),
    {
        self.write_choice_index(std_variants, extensible, index)
    }
}

/// The size of a string lies outside its bounds (an absent lower bound stands for zero, an
/// absent upper bound for `i64::MAX`).
pub open spec fn size_out_of_range(len: nat, lower_bound: Option<u64>, upper_bound: Option<u64>) -> bool {
    len < lower_or_default(lower_bound) || len > upper_or_default(upper_bound)
}

/// Equal bounds below 64K fix the size, so that no length determinant is needed (X.691 16.10,
/// 17.7).
pub open spec fn fixed_size(lower_bound: Option<u64>, upper_bound: Option<u64>) -> bool {
    lower_bound is Some && lower_bound == upper_bound && upper_or_default(upper_bound) < 65536
}

/// The bits that announce the size `len` of a string: with an extension marker a first bit
/// tells whether the size lies outside the bounds, in which case an unbounded length
/// determinant follows; otherwise a fixed size (and, for octet strings, an upper bound of zero)
/// needs nothing, any other size its length determinant between the bounds.
pub open spec fn enc_size(
    len: nat,
    lower_bound: Option<u64>,
    upper_bound: Option<u64>,
    extensible: bool,
    empty_when_upper_zero: bool,
) -> Seq<bool> {
    let out = size_out_of_range(len, lower_bound, upper_bound);
    (if extensible {
        seq![out]
    } else {
        Seq::empty()
    }) + if out {
        enc_length(len, None, None)
    } else if empty_when_upper_zero && upper_or_default(upper_bound) == 0 {
        Seq::empty()
    } else if fixed_size(lower_bound, upper_bound) {
        Seq::empty()
    } else {
        enc_length(len, lower_bound, upper_bound)
    }
}

/// Writing the size of a string of `len` elements needs a length determinant that cannot be
/// written without fragmentation (a size from 16K on without bounds).
pub open spec fn size_needs_fragments(
    len: nat,
    lower_bound: Option<u64>,
    upper_bound: Option<u64>,
    extensible: bool,
    empty_when_upper_zero: bool,
) -> bool {
    let out = size_out_of_range(len, lower_bound, upper_bound);
    if out {
        extensible && len >= 16384
    } else if empty_when_upper_zero && upper_or_default(upper_bound) == 0 {
        false
    } else if fixed_size(lower_bound, upper_bound) {
        false
    } else {
        lower_bound is None && upper_bound is None && len >= 16384
    }
}

/// The bits of an octet string (X.691 17) holding `octets`: its size (X.691 17.3 to 17.8),
/// then the octets.
pub open spec fn enc_octetstring(
    octets: Seq<u8>,
    lower_bound: Option<u64>,
    upper_bound: Option<u64>,
    extensible: bool,
) -> Seq<bool> {
    enc_size(octets.len(), lower_bound, upper_bound, extensible, true) + bits_view(octets)
}

/// The bits of a bit string (X.691 16) made of `bits`: its size (X.691 16.6 to 16.11), then
/// the bits.
pub open spec fn enc_bitstring(
    bits: Seq<bool>,
    lower_bound: Option<u64>,
    upper_bound: Option<u64>,
    extensible: bool,
) -> Seq<bool> {
    enc_size(bits.len(), lower_bound, upper_bound, extensible, false) + bits
}

impl BitBuffer {
    /// Writes the size `len` of a string as [`enc_size`] lays it out; refuses a size outside
    /// the bounds of a type without extension marker, and one that needs fragments.
    fn write_string_size(
        &mut self,
        lower_bound_size: Option<u64>,
        upper_bound_size: Option<u64>,
        extensible: bool,
        len: u64,
        empty_when_upper_zero: bool,
    ) -> (res: Result<(), Error>)
        requires
            old(self).wf(),
            old(self).write_pos() + 768 <= usize::MAX,
            len <= I64_MAX_AS_U64,
        ensures
            final(self).wf(),
            final(self).read_pos() == old(self).read_pos(),
            final(self).write_pos() <= old(self).write_pos() + 200,
            (old(self).tail_clear() ==> final(self).tail_clear()) && (old(self).tight() ==> final(self).tight()),
            !extensible && size_out_of_range(len as nat, lower_bound_size, upper_bound_size) ==> res
                == Err::<(), Error>(
                Error {
                    kind: ErrorKind::SizeNotInRange(
                        len,
                        lower_or_default(lower_bound_size) as u64,
                        upper_or_default(upper_bound_size) as u64,
                    ),
                },
            ) && final(self).written() == old(self).written(),
            (extensible || !size_out_of_range(len as nat, lower_bound_size, upper_bound_size))
                && size_needs_fragments(len as nat, lower_bound_size, upper_bound_size, extensible, empty_when_upper_zero)
                ==> res == Err::<(), Error>(Error { kind: ErrorKind::UnsupportedOperation }),
            (extensible || !size_out_of_range(len as nat, lower_bound_size, upper_bound_size))
                && !size_needs_fragments(len as nat, lower_bound_size, upper_bound_size, extensible, empty_when_upper_zero)
                ==> res is Ok && final(self).written() == old(self).written() + enc_size(
                len as nat,
                lower_bound_size,
                upper_bound_size,
                extensible,
                empty_when_upper_zero,
            ),
    {
        let lower = match lower_bound_size {
            Some(l) => l,
            None => 0,
        };
        let upper_bound = match upper_bound_size {
            Some(u) => u,
            None => I64_MAX_AS_U64,
        };
        let out_of_range = len < lower || len > upper_bound;
        if !extensible && out_of_range {
            return Err(Error { kind: ErrorKind::SizeNotInRange(len, lower, upper_bound) });
        }
        if extensible {
            self.write_bit(out_of_range)?;
        }
        let ghost head = self.written();
        if out_of_range {
            // the size lies outside the bounds: an unbounded length determinant
            let r = self.write_length_determinant(None, None, len);
            assert(r is Ok ==> self.written() =~= old(self).written() + enc_size(
                len as nat,
                lower_bound_size,
                upper_bound_size,
                extensible,
                empty_when_upper_zero,
            ));
            r
        } else if empty_when_upper_zero && upper_bound == 0 {
            assert(self.written() =~= old(self).written() + enc_size(
                len as nat,
                lower_bound_size,
                upper_bound_size,
                extensible,
                empty_when_upper_zero,
            ));
            Ok(())
        } else if lower_bound_size.is_some() && lower_bound_size == upper_bound_size && upper_bound
            < 64 * 1024 {
            // the size is known, no length determinant
            assert(self.written() =~= old(self).written() + enc_size(
                len as nat,
                lower_bound_size,
                upper_bound_size,
                extensible,
                empty_when_upper_zero,
            ));
            Ok(())
        } else {
            let r = self.write_length_determinant(lower_bound_size, upper_bound_size, len);
            assert(r is Ok ==> self.written() =~= old(self).written() + enc_size(
                len as nat,
                lower_bound_size,
                upper_bound_size,
                extensible,
                empty_when_upper_zero,
            ));
            r
        }
    }

    /// Writes an octet string (X.691 17). A size outside the bounds is refused with
    /// `SizeNotInRange` unless the type is extensible; a size from 16K on that needs an
    /// unbounded length determinant is refused with `UnsupportedOperation`, since fragments
    /// are not written.
    pub fn write_octetstring(
        &mut self,
        lower_bound_size: Option<u64>,
        upper_bound_size: Option<u64>,
        extensible: bool,
        src: &[u8],
    ) -> (res: Result<(), Error>)
        requires
            old(self).wf(),
            old(self).write_pos() + src@.len() * 8 + 1024 <= usize::MAX,
        ensures
            final(self).wf(),
            final(self).read_pos() == old(self).read_pos(),
            (old(self).tail_clear() ==> final(self).tail_clear()) && (old(self).tight() ==> final(self).tight()),
            !extensible && size_out_of_range(src@.len(), lower_bound_size, upper_bound_size) ==> res
                == Err::<(), Error>(
                Error {
                    kind: ErrorKind::SizeNotInRange(
                        src@.len() as u64,
                        lower_or_default(lower_bound_size) as u64,
                        upper_or_default(upper_bound_size) as u64,
                    ),
                },
            ) && final(self).written() == old(self).written(),
            (extensible || !size_out_of_range(src@.len(), lower_bound_size, upper_bound_size))
                && size_needs_fragments(src@.len(), lower_bound_size, upper_bound_size, extensible, true)
                ==> res == Err::<(), Error>(Error { kind: ErrorKind::UnsupportedOperation }),
            (extensible || !size_out_of_range(src@.len(), lower_bound_size, upper_bound_size))
                && !size_needs_fragments(src@.len(), lower_bound_size, upper_bound_size, extensible, true)
                ==> res is Ok && final(self).written() == old(self).written() + enc_octetstring(
                src@,
                lower_bound_size,
                upper_bound_size,
                extensible,
            ),
    {
        let len = src.len() as u64;
        // X.691 17.3 to 17.8
        let size = self.write_string_size(lower_bound_size, upper_bound_size, extensible, len, true);
        if size.is_err() {
            return size;
        }
        let ghost head = self.written();
        let r = self.write_bits(src);
        assert(self.written() =~= old(self).written() + enc_octetstring(
            src@,
            lower_bound_size,
            upper_bound_size,
            extensible,
        ));
        r
    }

    /// Writes `len` bits of `src` from bit `offset` on as a bit string (X.691 16). A size outside
    /// the bounds is refused with `SizeNotInRange` unless the type is extensible; a size from
    /// 16K on that needs an unbounded length determinant is refused with
    /// `UnsupportedOperation`; `src` too short for `offset + len` bits fails with
    /// `InsufficientDataInSourceBuffer` once the size is written.
    pub fn write_bitstring(
        &mut self,
        lower_bound_size: Option<u64>,
        upper_bound_size: Option<u64>,
        extensible: bool,
        src: &[u8],
        offset: u64,
        len: u64,
    ) -> (res: Result<(), Error>)
        requires
            old(self).wf(),
            src@.len() * 8 <= usize::MAX,
            offset + len + 8 <= usize::MAX,
            old(self).write_pos() + len + 1024 <= usize::MAX,
            len <= I64_MAX_AS_U64,
        ensures
            final(self).wf(),
            final(self).read_pos() == old(self).read_pos(),
            (old(self).tail_clear() ==> final(self).tail_clear()) && (old(self).tight() && res is Ok ==> final(self).tight()),
            !extensible && size_out_of_range(len as nat, lower_bound_size, upper_bound_size) ==> res
                == Err::<(), Error>(
                Error {
                    kind: ErrorKind::SizeNotInRange(
                        len,
                        lower_or_default(lower_bound_size) as u64,
                        upper_or_default(upper_bound_size) as u64,
                    ),
                },
            ) && final(self).written() == old(self).written(),
            (extensible || !size_out_of_range(len as nat, lower_bound_size, upper_bound_size))
                && size_needs_fragments(len as nat, lower_bound_size, upper_bound_size, extensible, false)
                ==> res == Err::<(), Error>(Error { kind: ErrorKind::UnsupportedOperation }),
            (extensible || !size_out_of_range(len as nat, lower_bound_size, upper_bound_size))
                && !size_needs_fragments(len as nat, lower_bound_size, upper_bound_size, extensible, false)
                && src@.len() * 8 < offset + len ==> res == Err::<(), Error>(
                Error { kind: ErrorKind::InsufficientDataInSourceBuffer },
            ),
            (extensible || !size_out_of_range(len as nat, lower_bound_size, upper_bound_size))
                && !size_needs_fragments(len as nat, lower_bound_size, upper_bound_size, extensible, false)
                && src@.len() * 8 >= offset + len ==> res is Ok && final(self).written()
                == old(self).written() + enc_bitstring(
                bits_view(src@).subrange(offset as int, offset + len),
                lower_bound_size,
                upper_bound_size,
                extensible,
            ),
    {
        // X.691 16.6 to 16.11
        let size = self.write_string_size(lower_bound_size, upper_bound_size, extensible, len, false);
        if size.is_err() {
            return size;
        }
        let r = self.write_bits_with_offset_len(src, offset as usize, len as usize);
        assert(r is Ok ==> self.written() =~= old(self).written() + enc_bitstring(
            bits_view(src@).subrange(offset as int, offset + len),
            lower_bound_size,
            upper_bound_size,
            extensible,
        ));
        r
    }
}

} // verus!
