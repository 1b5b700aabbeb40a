//! Reading octet strings and bit strings, fragments included.
use vstd::prelude::*;
use crate::io::per::err::{Error, ErrorKind};
use crate::io::per::unaligned::buffer::{zeros, BitBuffer};
use crate::io::per::unaligned::slice::{bit_of, bits_view, bulk_copied_bits, lemma_div_mod_8};
use crate::io::per::packed::{
    dec_bit, dec_length, dec_length_unbounded, fits, lemma_length_unbounded_fits, lower_or_default,
    upper_or_default, I64_MAX_AS_U64,
};
use crate::io::per::packed::strings::fixed_size;

verus! {

/// Reading `n` bits of `b` at `p`; fails when the buffer ends before.
pub open spec fn dec_bits(b: Seq<bool>, p: nat, n: nat) -> (Result<Seq<bool>, ErrorKind>, nat) {
    if p + n <= b.len() {
        (Ok(b.subrange(p as int, (p + n) as int)), p + n)
    } else {
        (Err(ErrorKind::InsufficientDataInSourceBuffer), p)
    }
}

/// Reading the size of a string (X.691 16.6 to 16.11, 17.3 to 17.8): the size, and whether
/// fragments may follow. With an extension marker a set first bit announces a size outside
/// the bounds, read as an unbounded length determinant; otherwise a fixed size is known without
/// reading (and, for octet strings, so is the size zero of an upper bound of zero), any other
/// size is a length determinant between the bounds.
#[verifier::opaque]
pub open spec fn dec_size(
    b: Seq<bool>,
    w: nat,
    p: nat,
    lower_bound: Option<u64>,
    upper_bound: Option<u64>,
    extensible: bool,
    empty_when_upper_zero: bool,
) -> (Result<(int, bool), ErrorKind>, nat) {
    let (r, q) = if extensible {
        dec_bit(b, w, p)
    } else {
        (Ok(false), p)
    };
    match r {
        Err(e) => (Err(e), q),
        Ok(beyond) => if beyond {
            let (r2, q2) = dec_length(b, w, q, None, None);
            match r2 {
                Ok(n) => (Ok((n, true)), q2),
                Err(e) => (Err(e), q2),
            }
        } else if empty_when_upper_zero && upper_or_default(upper_bound) == 0 {
            (Ok((0, false)), q)
        } else if fixed_size(lower_bound, upper_bound) {
            (Ok((upper_or_default(upper_bound), false)), q)
        } else {
            let (r2, q2) = dec_length(b, w, q, lower_bound, upper_bound);
            match r2 {
                Ok(n) => (Ok((n, true)), q2),
                Err(e) => (Err(e), q2),
            }
        },
    }
}

/// The size of a string can be read without arithmetic overflow: a length determinant between
/// the bounds is only read with ordered bounds, and its value fits in a `u64`.
pub open spec fn size_ok(
    b: Seq<bool>,
    w: nat,
    p: nat,
    lower_bound: Option<u64>,
    upper_bound: Option<u64>,
    extensible: bool,
    empty_when_upper_zero: bool,
) -> bool {
    let (r, q) = if extensible {
        dec_bit(b, w, p)
    } else {
        (Ok(false), p)
    };
    r == Ok::<bool, ErrorKind>(false) && !(empty_when_upper_zero && upper_or_default(upper_bound)
        == 0) && !fixed_size(lower_bound, upper_bound) ==> lower_or_default(lower_bound)
        <= upper_or_default(upper_bound) && fits(
        dec_length(b, w, q, lower_bound, upper_bound).0,
        0,
        u64::MAX as int,
    )
}

/// Reading the further fragments of an octet string after the bits `acc` (X.691 11.9.3.8):
/// each starts with an unbounded length determinant counting its octets; a fragment below 16K
/// octets is the last.
#[verifier::opaque]
pub open spec fn dec_octet_fragments(b: Seq<bool>, w: nat, p: nat, acc: Seq<bool>) -> (
    Result<Seq<bool>, ErrorKind>,
    nat,
)
    decreases b.len() - p,
{
    let (r, q) = dec_length_unbounded(b, w, p);
    match r {
        Err(e) => (Err(e), q),
        Ok(n) => if n < 0 || q < p {
            (Err(ErrorKind::InsufficientDataInSourceBuffer), q)
        } else {
            let (r2, q2) = dec_bits(b, q, (8 * n) as nat);
            match r2 {
                Err(e) => (Err(e), q2),
                Ok(more) => if n < 16384 {
                    (Ok(acc + more), q2)
                } else {
                    dec_octet_fragments(b, w, q2, acc + more)
                },
            }
        },
    }
}

/// Reading an octet string (X.691 17): its size, then as many octets, then further fragments
/// when the size has reached 16K octets and was read as a length determinant. The result is the
/// bits of the octets.
#[verifier::opaque]
pub open spec fn dec_octetstring(
    b: Seq<bool>,
    w: nat,
    p: nat,
    lower_bound: Option<u64>,
    upper_bound: Option<u64>,
    extensible: bool,
) -> (Result<Seq<bool>, ErrorKind>, nat) {
    let (r, q) = dec_size(b, w, p, lower_bound, upper_bound, extensible, true);
    match r {
        Err(e) => (Err(e), q),
        Ok((n, fragmented)) => {
            let (r2, q2) = dec_bits(b, q, (8 * n) as nat);
            match r2 {
                Err(e) => (Err(e), q2),
                Ok(first) => if fragmented && n >= 16384 {
                    dec_octet_fragments(b, w, q2, first)
                } else {
                    (Ok(first), q2)
                },
            }
        },
    }
}

/// `bits` followed by clear bits up to the next multiple of eight.
pub open spec fn padded(bits: Seq<bool>) -> Seq<bool> {
    bits + Seq::new((8 * ((bits.len() + 7) / 8) - bits.len()) as nat, |i: int| false)
}

/// Reading a bit string (X.691 16): its size, then as many bits. When the size has reached 16K
/// bits and was read as a length determinant, one more length determinant follows with the
/// bits of a last fragment.
#[verifier::opaque]
pub open spec fn dec_bitstring(
    b: Seq<bool>,
    w: nat,
    p: nat,
    lower_bound: Option<u64>,
    upper_bound: Option<u64>,
    extensible: bool,
) -> (Result<Seq<bool>, ErrorKind>, nat) {
    let (r, q) = dec_size(b, w, p, lower_bound, upper_bound, extensible, false);
    match r {
        Err(e) => (Err(e), q),
        Ok((n, fragmented)) => {
            let (r2, q2) = dec_bits(b, q, n as nat);
            match r2 {
                Err(e) => (Err(e), q2),
                Ok(first) => if fragmented && n >= 16384 {
                    let (r3, q3) = dec_length_unbounded(b, w, q2);
                    match r3 {
                        Err(e) => (Err(e), q3),
                        Ok(m) => {
                            let (r4, q4) = dec_bits(b, q3, m as nat);
                            match r4 {
                                Err(e) => (Err(e), q4),
                                Ok(more) => (Ok(first + more), q4),
                            }
                        },
                    }
                } else {
                    (Ok(first), q2)
                },
            }
        },
    }
}

/// The last fragment of a bit string fits into the octets that the first part already
/// occupies.
pub open spec fn bit_fragment_ok(
    b: Seq<bool>,
    w: nat,
    p: nat,
    lower_bound: Option<u64>,
    upper_bound: Option<u64>,
    extensible: bool,
) -> bool {
    let (r, q) = dec_size(b, w, p, lower_bound, upper_bound, extensible, false);
    match r {
        Ok((n, fragmented)) => fragmented && n >= 16384 && q + n <= b.len() ==> fits(
            dec_length_unbounded(b, w, (q + n) as nat).0,
            0,
            8 * ((n + 7) / 8) - n,
        ),
        Err(_) => true,
    }
}

/// A vector of `n` zero bytes.
fn zeroed(n: usize) -> (v: Vec<u8>)
    ensures
        v@ == zeros(n as nat),
{
    let mut v: Vec<u8> = Vec::with_capacity(n);
    while v.len() < n
        invariant
            v.len() <= n,
            v@ == zeros(v.len() as nat),
        decreases n - v.len(),
    {
        v.push(0u8);
        assert(v@ =~= zeros(v.len() as nat));
    }
    v
}

/// The bits of zero bytes are clear.
proof fn lemma_zeros_clear(n: nat, i: int)
    requires
        0 <= i < n * 8,
    ensures
        !bit_of(zeros(n), i),
{
    lemma_div_mod_8(i);
    let k = (i % 8) as u8;
    assert(0u8 & (0x80u8 >> k) == 0u8) by (bit_vector);
}

/// After `n` bits of `src` from `p` on were copied into zero bytes from their first bit on,
/// the bytes hold those bits and clear bits behind them.
proof fn lemma_copied_into_zeros(src: Seq<u8>, p: int, dst: Seq<u8>, n: int)
    requires
        0 <= n <= dst.len() * 8,
        dst.len() == (n + 7) / 8,
        0 <= p,
        p + n <= src.len() * 8,
        bulk_copied_bits(src, p, zeros(dst.len()), dst, 0, n),
    ensures
        bits_view(dst) == padded(bits_view(src).subrange(p, p + n)),
{
    let first = bits_view(src).subrange(p, p + n);
    assert forall|i: int| 0 <= i < dst.len() * 8 implies #[trigger] bit_of(dst, i) == padded(first)[i] by {
        if i >= n {
            lemma_zeros_clear(dst.len(), i);
        }
    }
    assert(bits_view(dst) =~= padded(first));
}

/// After `m` more bits of `src` from `p` on were copied behind the first `n` bits of padded
/// bytes, the bytes hold all of them and clear bits behind.
proof fn lemma_copied_behind(
    src: Seq<u8>,
    p: int,
    before: Seq<u8>,
    after: Seq<u8>,
    first: Seq<bool>,
    n: int,
    m: int,
)
    requires
        first.len() == n,
        0 <= n,
        0 <= m,
        n + m <= before.len() * 8,
        before.len() == (n + 7) / 8,
        0 <= p,
        p + m <= src.len() * 8,
        bits_view(before) == padded(first),
        bulk_copied_bits(src, p, before, after, n, m),
    ensures
        bits_view(after) == padded(first + bits_view(src).subrange(p, p + m)),
{
    let more = bits_view(src).subrange(p, p + m);
    assert forall|i: int| 0 <= i < after.len() * 8 implies #[trigger] bit_of(after, i) == padded(first + more)[i] by {
        if i >= n + m || i < n {
            assert(bit_of(before, i) == bits_view(before)[i]);
        }
    }
    assert(bits_view(after) =~= padded(first + more));
}

/// The bits of two byte sequences one after the other are the bits of their concatenation.
proof fn lemma_bits_view_concat(a: Seq<u8>, c: Seq<u8>)
    ensures
        bits_view(a + c) == bits_view(a) + bits_view(c),
{
    assert forall|i: int| 0 <= i < (a + c).len() * 8 implies #[trigger] bit_of(a + c, i) == (
    bits_view(a) + bits_view(c))[i] by {
        lemma_div_mod_8(i);
        if i >= a.len() * 8 {
            assert((i - a.len() * 8) / 8 == i / 8 - a.len());
            assert((i - a.len() * 8) % 8 == i % 8);
        }
    }
    assert(bits_view(a + c) =~= bits_view(a) + bits_view(c));
}

impl BitBuffer {
    /// Reads the size of a string as [`dec_size`] describes it.
    fn read_string_size(
        &mut self,
        lower_bound_size: Option<u64>,
        upper_bound_size: Option<u64>,
        extensible: bool,
        empty_when_upper_zero: bool,
    ) -> (res: Result<(u64, bool), Error>)
        requires
            old(self).wf(),
            size_ok(
                old(self).bits(),
                old(self).write_pos(),
                old(self).read_pos(),
                lower_bound_size,
                upper_bound_size,
                extensible,
                empty_when_upper_zero,
            ),
        ensures
            final(self).bytes() == old(self).bytes(),
            final(self).write_pos() == old(self).write_pos(),
            final(self).wf(),
            final(self).read_pos() >= old(self).read_pos(),
            ({
                let (r, q) = dec_size(
                    old(self).bits(),
                    old(self).write_pos(),
                    old(self).read_pos(),
                    lower_bound_size,
                    upper_bound_size,
                    extensible,
                    empty_when_upper_zero,
                );
                &&& final(self).read_pos() == q
                &&& match r {
                    Ok((n, f)) => 0 <= n <= u64::MAX && res == Ok::<(u64, bool), Error>((n as u64, f)),
                    Err(k) => res == Err::<(u64, bool), Error>(Error { kind: k }),
                }
            }),
    {
        proof {
            reveal(dec_size);
        }
        let upper_bound = match upper_bound_size {
            Some(u) => u,
            None => I64_MAX_AS_U64,
        };
        let beyond = if extensible {
            match self.read_bit() {
                Ok(bit) => bit,
                Err(e) => return Err(e),
            }
        } else {
            false
        };
        if beyond {
            proof {
                lemma_length_unbounded_fits(self.bits(), self.write_pos(), self.read_pos());
            }
            match self.read_length_determinant(None, None) {
                Ok(n) => Ok((n, true)),
                Err(e) => Err(e),
            }
        } else if empty_when_upper_zero && upper_bound == 0 {
            Ok((0, false))
        } else if lower_bound_size.is_some() && lower_bound_size == upper_bound_size && upper_bound
            < 64 * 1024 {
            Ok((upper_bound, false))
        } else {
            match self.read_length_determinant(lower_bound_size, upper_bound_size) {
                Ok(n) => Ok((n, true)),
                Err(e) => Err(e),
            }
        }
    }

    /// Reads `n` octets into a new vector; fails with `InsufficientDataInSourceBuffer` when the
    /// buffer ends before.
    fn read_octets(&mut self, n: u64) -> (res: Result<Vec<u8>, Error>)
        requires
            old(self).wf(),
            old(self).bytes().len() * 8 + 64 <= usize::MAX,
        ensures
            final(self).bytes() == old(self).bytes(),
            final(self).write_pos() == old(self).write_pos(),
            final(self).wf(),
            ({
                let (r, q) = dec_bits(old(self).bits(), old(self).read_pos(), (8 * n) as nat);
                &&& final(self).read_pos() == q
                &&& match r {
                    Ok(bits) => res is Ok && bits_view(res->Ok_0@) == bits,
                    Err(k) => res == Err::<Vec<u8>, Error>(Error { kind: k }),
                }
            }),
    {
        proof {
            self.lemma_accessors();
        }
        let available = self.buffer.len() * 8 - self.read_position;
        if n > (available / 8) as u64 {
            return Err(Error { kind: ErrorKind::InsufficientDataInSourceBuffer });
        }
        let mut octets = zeroed(n as usize);
        let ghost p = self.read_pos();
        let r = self.read_bits(octets.as_mut_slice());
        proof {
            assert(bits_view(octets@) =~= old(self).bits().subrange(p as int, p + 8 * n));
        }
        match r {
            Ok(()) => Ok(octets),
            Err(e) => Err(e),
        }
    }

    /// Reads an octet string (X.691 17) between the size bounds given, with its fragments; the
    /// result holds the octets read.
    pub fn read_octetstring(
        &mut self,
        lower_bound_size: Option<u64>,
        upper_bound_size: Option<u64>,
        extensible: bool,
    ) -> (res: Result<Vec<u8>, Error>)
        requires
            old(self).wf(),
            old(self).bytes().len() * 8 + 64 <= usize::MAX,
            size_ok(
                old(self).bits(),
                old(self).write_pos(),
                old(self).read_pos(),
                lower_bound_size,
                upper_bound_size,
                extensible,
                true,
            ),
        ensures
            final(self).bytes() == old(self).bytes(),
            final(self).write_pos() == old(self).write_pos(),
            final(self).wf(),
            ({
                let (r, q) = dec_octetstring(
                    old(self).bits(),
                    old(self).write_pos(),
                    old(self).read_pos(),
                    lower_bound_size,
                    upper_bound_size,
                    extensible,
                );
                &&& final(self).read_pos() == q
                &&& match r {
                    Ok(bits) => res is Ok && bits_view(res->Ok_0@) == bits,
                    Err(k) => res == Err::<Vec<u8>, Error>(Error { kind: k }),
                }
            }),
    {
        let ghost b = old(self).bits();
        let ghost w = old(self).write_pos();
        let (byte_len, fragmentation_possible) = match self.read_string_size(
            lower_bound_size,
            upper_bound_size,
            extensible,
            true,
        ) {
            Ok(size) => size,
            Err(e) => {
                proof {
                    reveal(dec_octetstring);
                }
                return Err(e);
            },
        };
        let ghost q = self.read_pos();
        let mut buffer = match self.read_octets(byte_len) {
            Ok(octets) => octets,
            Err(e) => {
                proof {
                    reveal(dec_octetstring);
                }
                return Err(e);
            },
        };
        proof {
            reveal(dec_octetstring);
        }
        if fragmentation_possible && byte_len >= 16 * 1024 {
            // further fragments, each announced by its own length determinant
            loop
                invariant_except_break
                    dec_octetstring(b, w, old(self).read_pos(), lower_bound_size, upper_bound_size, extensible)
                        == dec_octet_fragments(b, w, self.read_pos(), bits_view(buffer@)),
                invariant
                    self.wf(),
                    self.bytes() == old(self).bytes(),
                    self.write_pos() == old(self).write_pos(),
                    self.bytes().len() * 8 + 64 <= usize::MAX,
                    b == self.bits(),
                    w == self.write_pos(),
                ensures
                    dec_octetstring(b, w, old(self).read_pos(), lower_bound_size, upper_bound_size, extensible)
                        == (Ok::<Seq<bool>, ErrorKind>(bits_view(buffer@)), self.read_pos()),
                decreases b.len() - self.read_pos(),
            {
                let ghost p = self.read_pos();
                let ghost acc = bits_view(buffer@);
                proof {
                    lemma_length_unbounded_fits(b, w, p);
                }
                let ext_byte_len = match self.read_length_determinant(None, None) {
                    Ok(n) => n,
                    Err(e) => {
                        proof {
                            reveal(dec_octet_fragments);
                        }
                        return Err(e);
                    },
                };
                let more = match self.read_octets(ext_byte_len) {
                    Ok(octets) => octets,
                    Err(e) => {
                        proof {
                            reveal(dec_octet_fragments);
                        }
                        return Err(e);
                    },
                };
                proof {
                    lemma_bits_view_concat(buffer@, more@);
                    assert(dec_octet_fragments(b, w, p, acc) == if ext_byte_len < 16384 {
                        (Ok::<Seq<bool>, ErrorKind>(acc + bits_view(more@)), self.read_pos())
                    } else {
                        dec_octet_fragments(b, w, self.read_pos(), acc + bits_view(more@))
                    }) by {
                        reveal(dec_octet_fragments);
                    }
                }
                let mut more = more;
                buffer.append(&mut more);
                if ext_byte_len < 16 * 1024 {
                    break;
                }
            }
        }
        Ok(buffer)
    }

    /// Reads a bit string (X.691 16) between the size bounds given. The result holds the bits
    /// read, followed by clear bits up to a whole octet, and their number.
    pub fn read_bitstring(
        &mut self,
        lower_bound_size: Option<u64>,
        upper_bound_size: Option<u64>,
        extensible: bool,
    ) -> (res: Result<(Vec<u8>, u64), Error>)
        requires
            old(self).wf(),
            old(self).bytes().len() * 8 + 64 <= usize::MAX,
            size_ok(
                old(self).bits(),
                old(self).write_pos(),
                old(self).read_pos(),
                lower_bound_size,
                upper_bound_size,
                extensible,
                false,
            ),
            bit_fragment_ok(
                old(self).bits(),
                old(self).write_pos(),
                old(self).read_pos(),
                lower_bound_size,
                upper_bound_size,
                extensible,
            ),
        ensures
            final(self).bytes() == old(self).bytes(),
            final(self).write_pos() == old(self).write_pos(),
            final(self).wf(),
            ({
                let (r, q) = dec_bitstring(
                    old(self).bits(),
                    old(self).write_pos(),
                    old(self).read_pos(),
                    lower_bound_size,
                    upper_bound_size,
                    extensible,
                );
                &&& final(self).read_pos() == q
                &&& match r {
                    Ok(bits) => res is Ok && bits_view(res->Ok_0.0@) == padded(bits) && res->Ok_0.1
                        == bits.len(),
                    Err(k) => res == Err::<(Vec<u8>, u64), Error>(Error { kind: k }),
                }
            }),
    {
        let ghost b = old(self).bits();
        let ghost w = old(self).write_pos();
        let (mut bit_len, fragmentation_possible) = match self.read_string_size(
            lower_bound_size,
            upper_bound_size,
            extensible,
            false,
        ) {
            Ok(size) => size,
            Err(e) => {
                proof {
                    reveal(dec_bitstring);
                }
                return Err(e);
            },
        };
        proof {
            self.lemma_accessors();
            reveal(dec_bitstring);
        }
        let ghost q = self.read_pos();
        let available = self.buffer.len() * 8 - self.read_position;
        if bit_len > available as u64 {
            return Err(Error { kind: ErrorKind::InsufficientDataInSourceBuffer });
        }
        let byte_len = ((bit_len + 7) / 8) as usize;
        let mut buffer = zeroed(byte_len);
        let r = self.read_bits_with_len(buffer.as_mut_slice(), bit_len as usize);
        let ghost first = b.subrange(q as int, q + bit_len);
        proof {
            lemma_copied_into_zeros(self.bytes(), q as int, buffer@, bit_len as int);
        }
        if fragmentation_possible && bit_len >= 16 * 1024 {
            // the last fragment, after its own length determinant
            let ghost q2 = self.read_pos();
            proof {
                lemma_length_unbounded_fits(b, w, q2);
            }
            let ext_bit_len = match self.read_length_determinant(None, None) {
                Ok(n) => n,
                Err(e) => return Err(e),
            };
            let ghost before = buffer@;
            let ghost q3 = self.read_pos();
            let r2 = self.read_bits_with_offset_len(
                buffer.as_mut_slice(),
                bit_len as usize,
                ext_bit_len as usize,
            );
            if r2.is_err() {
                return Err(Error { kind: ErrorKind::InsufficientDataInSourceBuffer });
            }
            let ghost more = b.subrange(q3 as int, q3 + ext_bit_len);
            proof {
                lemma_copied_behind(self.bytes(), q3 as int, before, buffer@, first, bit_len as int, ext_bit_len as int);
            }
            bit_len = bit_len + ext_bit_len;
        }
        Ok((buffer, bit_len))
    }
}

} // verus!
