//! The protobuf wire format: varints, zigzag encoded signed numbers, tags, little-endian fixed
//! numbers and length-prefixed bytes.
use vstd::prelude::*;
use vstd::string::StringSliceAdditionalSpecFns;
use vstd::arithmetic::mul::lemma_mul_is_commutative;
use vstd::arithmetic::power2::{lemma2_to64, lemma_pow2_adds, lemma_pow2_strictly_increases, lemma_pow2_pos, pow2};
use vstd::bits::{lemma_u64_pow2_no_overflow, lemma_u64_shl_is_mul};
use vstd::utf8::{decode_utf8, encode_utf8, valid_utf8};

verus! {

/// An I/O error, as reading or writing reports it.
#[verifier::external_type_specification]
#[verifier::external_body]
pub struct ExIoError(std::io::Error);

/// The wire format of a field.
#[derive(Debug, PartialOrd, PartialEq, Eq, Clone, Copy, Structural)]
pub enum Format {
    VarInt,
    Fixed64,
    LengthDelimited,
    Fixed32,
}

/// The number that stands for a wire format.
pub open spec fn format_id(format: Format) -> u32 {
    match format {
        Format::VarInt => 0,
        Format::Fixed64 => 1,
        Format::LengthDelimited => 2,
        Format::Fixed32 => 5,
    }
}

/// Why protobuf data could not be read or written.
#[derive(Debug)]
pub enum Error {
    Io(std::io::Error),
    InvalidUtf8Received,
    MissingRequiredField(&'static str),
    InvalidTagReceived(u32),
    InvalidFormat(u32),
    InvalidVariant(u64),
    UnexpectedFormat(Format),
    UnexpectedTag((u32, Format)),
}

/// `std::io::Error::from(ErrorKind::UnexpectedEof)`: the error of reading past the end; nothing
/// is stated of the value.
#[verifier::external_body]
fn unexpected_eof() -> std::io::Error {
    std::io::Error::from(std::io::ErrorKind::UnexpectedEof)
}

impl Error {
    /// A wire format number that stands for no format.
    pub fn invalid_format(format: u32) -> (e: Self)
        ensures
            e matches Error::InvalidFormat(f) && f == format,
    {
        Error::InvalidFormat(format)
    }

    /// An enum variant number that stands for no variant.
    pub fn invalid_variant(variant: u64) -> (e: Self)
        ensures
            e matches Error::InvalidVariant(v) && v == variant,
    {
        Error::InvalidVariant(variant)
    }

    /// A field number that stands for no field.
    pub fn invalid_tag_received(tag: u32) -> (e: Self)
        ensures
            e matches Error::InvalidTagReceived(t) && t == tag,
    {
        Error::InvalidTagReceived(tag)
    }

    /// A wire format that does not fit the field.
    pub fn unexpected_format(format: Format) -> (e: Self)
        ensures
            e matches Error::UnexpectedFormat(f) && f == format,
    {
        Error::UnexpectedFormat(format)
    }

    /// A tag that does not fit where it stands.
    pub fn unexpected_tag(tag: (u32, Format)) -> (e: Self)
        ensures
            e matches Error::UnexpectedTag(t) && t == tag,
    {
        Error::UnexpectedTag(tag)
    }
}

impl Format {
    /// The wire format that `id` stands for: 0, 1, 2 and 5 stand for varints, 64 bit numbers,
    /// length-delimited data and 32 bit numbers; any other number is refused.
    pub fn from(id: u32) -> (r: Result<Format, Error>)
        ensures
            id == 0 ==> r matches Ok(Format::VarInt),
            id == 1 ==> r matches Ok(Format::Fixed64),
            id == 2 ==> r matches Ok(Format::LengthDelimited),
            id == 5 ==> r matches Ok(Format::Fixed32),
            !(id == 0 || id == 1 || id == 2 || id == 5) ==> (r matches Err(Error::InvalidFormat(f))
                && f == id),
            r matches Ok(f) ==> format_id(f) == id,
    {
        match id {
            0 => Ok(Format::VarInt),
            1 => Ok(Format::Fixed64),
            2 => Ok(Format::LengthDelimited),
            5 => Ok(Format::Fixed32),
            f => Err(Error::InvalidFormat(f)),
        }
    }

    /// The name of this format.
    pub fn to_string(&self) -> (s: String)
        ensures
            s@ == match *self {
                Format::VarInt => "VarInt"@,
                Format::Fixed64 => "Fixed64"@,
                Format::LengthDelimited => "LengthDelimited"@,
                Format::Fixed32 => "Fixed32"@,
            },
    {
        match self {
            Format::VarInt => String::from_str("VarInt"),
            Format::Fixed64 => String::from_str("Fixed64"),
            Format::LengthDelimited => String::from_str("LengthDelimited"),
            Format::Fixed32 => String::from_str("Fixed32"),
        }
    }

    /// The number that stands for this format.
    pub fn id(&self) -> (n: u32)
        ensures
            n == format_id(*self),
    {
        match self {
            Format::VarInt => 0,
            Format::Fixed64 => 1,
            Format::LengthDelimited => 2,
            Format::Fixed32 => 5,
        }
    }
}

// The encodings.

/// The varint of `v`: seven bits per octet, the lowest first, the high bit set on every octet
/// but the last.
pub open spec fn varint(v: nat) -> Seq<u8>
    decreases v,
{
    if v <= 0x7F {
        seq![v as u8]
    } else {
        seq![((v % 128) + 128) as u8] + varint(v / 128)
    }
}

/// The number that zigzag encoding gives a signed 32 bit number, as written: the result is a
/// 32 bit number taken as a signed one and widened.
pub open spec fn sint32_bits(v: i32) -> u64 {
    (((v << 1u32) ^ (v >> 31u32)) as i64) as u64
}

/// The number that zigzag encoding gives a signed 64 bit number.
pub open spec fn sint64_bits(v: i64) -> u64 {
    ((v << 1u64) ^ (v >> 63u64)) as u64
}

/// The signed 32 bit number that a zigzag encoded number read as a varint stands for.
pub open spec fn sint32_of(u: u64) -> i32 {
    let w = u as u32;
    ((w >> 1u32) as i32) ^ (-((w & 1u32) as i32)) as i32
}

/// The signed 64 bit number that a zigzag encoded number read as a varint stands for.
pub open spec fn sint64_of(u: u64) -> i64 {
    ((u >> 1u64) as i64) ^ (-((u & 1u64) as i64)) as i64
}

/// The tag of a field: its number shifted by three bits, within 32 bits, and its format.
pub open spec fn tag_bits(field: u32, format: Format) -> u64 {
    ((field << 3u32) | format_id(format)) as u64
}

/// The four octets of a 32 bit number, the lowest first.
pub open spec fn le_bytes(v: u32) -> Seq<u8> {
    seq![(v % 0x100) as u8, ((v / 0x100) % 0x100) as u8, ((v / 0x1_0000) % 0x100) as u8, (v / 0x100_0000) as u8]
}

/// The number of four octets, the lowest first.
pub open spec fn le_value(b: Seq<u8>) -> u32 {
    (b[0] as int + b[1] as int * 0x100 + b[2] as int * 0x1_0000 + b[3] as int * 0x100_0000) as u32
}

/// What reading a varint at `p` gives, with `acc` read at bit `shift` already: the number and
/// the position behind it, or `None` where the octets end first. At most ten octets are read;
/// bits beyond the 64th are dropped.
pub open spec fn varint_from(b: Seq<u8>, p: int, shift: nat, acc: u64) -> Option<(u64, int)>
    decreases 71 - shift,
{
    if shift >= 64 {
        Some((acc, p))
    } else if !(0 <= p < b.len()) {
        None
    } else {
        let byte = b[p];
        let acc2 = acc | (((byte & 0x7F) as u64) << (shift as u64));
        if byte & 0x80 == 0 {
            Some((acc2, p + 1))
        } else {
            varint_from(b, p + 1, shift + 7, acc2)
        }
    }
}

/// What reading a varint at `p` gives.
pub open spec fn varint_at(b: Seq<u8>, p: int) -> Option<(u64, int)> {
    varint_from(b, p, 0, 0)
}


/// The zigzag encoding of a signed 32 bit number, as written.
fn sint32_to_bits(value: i32) -> (r: u64)
    ensures
        r == sint32_bits(value),
{
    (((value << 1u32) ^ (value >> 31u32)) as i64) as u64
}

/// The zigzag encoding of a signed 64 bit number.
fn sint64_to_bits(value: i64) -> (r: u64)
    ensures
        r == sint64_bits(value),
{
    ((value << 1u64) ^ (value >> 63u64)) as u64
}

/// Writing protobuf data.
pub trait ProtoWrite {
    /// The octets written so far.
    spec fn written(&self) -> Seq<u8>;

    /// Writes `value` as a varint.
    fn write_varint(&mut self, value: u64) -> (r: Result<(), Error>)
        ensures
            r is Ok,
            final(self).written() == old(self).written() + varint(value as nat),
    ;

    /// Writes the number of octets as a varint and then the octets.
    fn write_bytes(&mut self, value: &[u8]) -> (r: Result<(), Error>)
        ensures
            r is Ok,
            final(self).written() == old(self).written() + varint(value@.len()) + value@,
    ;

    /// Writes a signed 32 bit number in four octets, the lowest first.
    fn write_sfixed32(&mut self, value: i32) -> (r: Result<(), Error>)
        ensures
            r is Ok,
            final(self).written() == old(self).written() + le_bytes(value as u32),
    ;

    /// Writes the UTF-8 octets of a text as [`ProtoWrite::write_bytes`] does.
    fn write_string(&mut self, value: &str) -> (r: Result<(), Error>)
        ensures
            r is Ok,
            final(self).written() == old(self).written() + varint(value.spec_bytes().len())
                + value.spec_bytes(),
    ;

    /// Writes `1` for `true` and `0` for `false` as a varint.
    fn write_bool(&mut self, value: bool) -> (r: Result<(), Error>)
        ensures
            r is Ok,
            final(self).written() == old(self).written() + varint(if value { 1 } else { 0 }),
    {
        self.write_varint(if value {
            1
        } else {
            0
        })
    }

    /// Writes the tag of a field: its number shifted by three bits and its format.
    fn write_tag(&mut self, field: u32, format: Format) -> (r: Result<(), Error>)
        ensures
            r is Ok,
            final(self).written() == old(self).written() + varint(tag_bits(field, format) as nat),
    {
        self.write_varint(((field << 3u32) | format.id()) as u64)
    }

    /// Writes the number of an enum variant as a varint.
    fn write_enum_variant(&mut self, variant: u32) -> (r: Result<(), Error>)
        ensures
            r is Ok,
            final(self).written() == old(self).written() + varint(variant as nat),
    {
        self.write_varint(variant as u64)
    }

    /// Writes an unsigned 32 bit number as a varint.
    fn write_uint32(&mut self, value: u32) -> (r: Result<(), Error>)
        ensures
            r is Ok,
            final(self).written() == old(self).written() + varint(value as nat),
    {
        self.write_varint(value as u64)
    }

    /// Writes an unsigned 64 bit number as a varint.
    fn write_uint64(&mut self, value: u64) -> (r: Result<(), Error>)
        ensures
            r is Ok,
            final(self).written() == old(self).written() + varint(value as nat),
    {
        self.write_varint(value)
    }

    /// Writes a signed 32 bit number zigzag encoded as a varint.
    fn write_sint32(&mut self, value: i32) -> (r: Result<(), Error>)
        ensures
            r is Ok,
            final(self).written() == old(self).written() + varint(sint32_bits(value) as nat),
    {
        self.write_varint(sint32_to_bits(value))
    }

    /// Writes a signed 64 bit number zigzag encoded as a varint.
    fn write_sint64(&mut self, value: i64) -> (r: Result<(), Error>)
        ensures
            r is Ok,
            final(self).written() == old(self).written() + varint(sint64_bits(value) as nat),
    {
        self.write_varint(sint64_to_bits(value))
    }

    /// Writes the tag of a varint field and a boolean.
    fn write_tagged_bool(&mut self, field: u32, value: bool) -> (r: Result<(), Error>)
        ensures
            r is Ok,
            final(self).written() == old(self).written() + varint(
                tag_bits(field, Format::VarInt) as nat,
            ) + varint(if value { 1 } else { 0 }),
    {
        self.write_tag(field, Format::VarInt)?;
        self.write_bool(value)
    }

    /// Writes the tag of a length-delimited field and octets.
    fn write_tagged_bytes(&mut self, field: u32, value: &[u8]) -> (r: Result<(), Error>)
        ensures
            r is Ok,
            final(self).written() == old(self).written() + varint(
                tag_bits(field, Format::LengthDelimited) as nat,
            ) + varint(value@.len()) + value@,
    {
        self.write_tag(field, Format::LengthDelimited)?;
        self.write_bytes(value)
    }

    /// Writes the tag of a 32 bit field and a signed 32 bit number.
    fn write_tagged_sfixed32(&mut self, field: u32, value: i32) -> (r: Result<(), Error>)
        ensures
            r is Ok,
            final(self).written() == old(self).written() + varint(
                tag_bits(field, Format::Fixed32) as nat,
            ) + le_bytes(value as u32),
    {
        self.write_tag(field, Format::Fixed32)?;
        self.write_sfixed32(value)
    }

    /// Writes the tag of a varint field and an unsigned 32 bit number.
    fn write_tagged_uint32(&mut self, field: u32, value: u32) -> (r: Result<(), Error>)
        ensures
            r is Ok,
            final(self).written() == old(self).written() + varint(
                tag_bits(field, Format::VarInt) as nat,
            ) + varint(value as nat),
    {
        self.write_tag(field, Format::VarInt)?;
        self.write_uint32(value)
    }

    /// Writes the tag of a varint field and an unsigned 64 bit number.
    fn write_tagged_uint64(&mut self, field: u32, value: u64) -> (r: Result<(), Error>)
        ensures
            r is Ok,
            final(self).written() == old(self).written() + varint(
                tag_bits(field, Format::VarInt) as nat,
            ) + varint(value as nat),
    {
        self.write_tag(field, Format::VarInt)?;
        self.write_uint64(value)
    }

    /// Writes the tag of a varint field and a zigzag encoded signed 32 bit number.
    fn write_tagged_sint32(&mut self, field: u32, value: i32) -> (r: Result<(), Error>)
        ensures
            r is Ok,
            final(self).written() == old(self).written() + varint(
                tag_bits(field, Format::VarInt) as nat,
            ) + varint(sint32_bits(value) as nat),
    {
        self.write_tag(field, Format::VarInt)?;
        self.write_sint32(value)
    }

    /// Writes the tag of a varint field and a zigzag encoded signed 64 bit number.
    fn write_tagged_sint64(&mut self, field: u32, value: i64) -> (r: Result<(), Error>)
        ensures
            r is Ok,
            final(self).written() == old(self).written() + varint(
                tag_bits(field, Format::VarInt) as nat,
            ) + varint(sint64_bits(value) as nat),
    {
        self.write_tag(field, Format::VarInt)?;
        self.write_sint64(value)
    }

    /// Writes the tag of a length-delimited field and a text.
    fn write_tagged_string(&mut self, field: u32, value: &str) -> (r: Result<(), Error>)
        ensures
            r is Ok,
            final(self).written() == old(self).written() + varint(
                tag_bits(field, Format::LengthDelimited) as nat,
            ) + varint(value.spec_bytes().len()) + value.spec_bytes(),
    {
        self.write_tag(field, Format::LengthDelimited)?;
        self.write_string(value)
    }

    /// Writes the tag of a varint field and a varint.
    fn write_tagged_varint(&mut self, field: u32, value: u64) -> (r: Result<(), Error>)
        ensures
            r is Ok,
            final(self).written() == old(self).written() + varint(
                tag_bits(field, Format::VarInt) as nat,
            ) + varint(value as nat),
    {
        self.write_tag(field, Format::VarInt)?;
        self.write_varint(value)
    }

    /// Writes the tag of a varint field and the number of an enum variant.
    fn write_tagged_enum_variant(&mut self, field: u32, value: u32) -> (r: Result<(), Error>)
        ensures
            r is Ok,
            final(self).written() == old(self).written() + varint(
                tag_bits(field, Format::VarInt) as nat,
            ) + varint(value as nat),
    {
        self.write_tagged_varint(field, value as u64)
    }
}

impl ProtoWrite for Vec<u8> {
    open spec fn written(&self) -> Seq<u8> {
        self@
    }

    fn write_varint(&mut self, value: u64) -> (r: Result<(), Error>) {
        let mut v = value;
        let ghost mut prefix: Seq<u8> = Seq::empty();
        while v > 0x7F
            invariant
                self@ == old(self)@ + prefix,
                varint(value as nat) == prefix + varint(v as nat),
            decreases v,
        {
            let b: u8 = ((v as u8) & 0x7F) | 0x80;
            assert(b == ((v % 128) + 128) as u8) by (bit_vector)
                requires
                    b == ((v as u8) & 0x7F) | 0x80,
            ;
            let next: u64 = v >> 7u64;
            assert(next == v / 128) by (bit_vector)
                requires
                    next == v >> 7u64,
            ;
            proof {
                assert(varint(v as nat) == seq![b] + varint(next as nat));
                assert(prefix + varint(v as nat) =~= prefix.push(b) + varint(next as nat));
                prefix = prefix.push(b);
            }
            self.push(b);
            v = next;
        }
        self.push(v as u8);
        assert(self@ =~= old(self)@ + varint(value as nat));
        Ok(())
    }

    fn write_bytes(&mut self, value: &[u8]) -> (r: Result<(), Error>) {
        let _ = self.write_varint(value.len() as u64);
        let ghost before = self@;
        let mut i: usize = 0;
        while i < value.len()
            invariant
                0 <= i <= value@.len(),
                self@ == before + value@.take(i as int),
            decreases value@.len() - i,
        {
            self.push(value[i]);
            assert(self@ =~= before + value@.take(i + 1));
            i = i + 1;
        }
        assert(value@.take(value@.len() as int) =~= value@);
        Ok(())
    }

    fn write_sfixed32(&mut self, value: i32) -> (r: Result<(), Error>) {
        let v = value as u32;
        self.push((v % 0x100) as u8);
        self.push(((v / 0x100) % 0x100) as u8);
        self.push(((v / 0x1_0000) % 0x100) as u8);
        self.push((v / 0x100_0000) as u8);
        assert(self@ =~= old(self)@ + le_bytes(value as u32));
        Ok(())
    }

    fn write_string(&mut self, value: &str) -> (r: Result<(), Error>) {
        self.write_bytes(value.as_bytes())
    }
}


/// The text that UTF-8 octets encode, if they are valid UTF-8.
#[verifier::external_body]
pub(crate) fn string_from_utf8(bytes: Vec<u8>) -> (r: Option<String>)
    ensures
        valid_utf8(bytes@) ==> r is Some && r->Some_0@ == decode_utf8(bytes@),
        !valid_utf8(bytes@) ==> r is None,
{
    String::from_utf8(bytes).ok()
}

/// The next octet of `src`, which moves past it.
fn read_octet(src: &mut &[u8]) -> (r: Result<u8, Error>)
    ensures
        old(src)@.len() > 0 ==> r == Ok::<u8, Error>(old(src)@[0]) && final(src)@ == old(src)@.subrange(
            1,
            old(src)@.len() as int,
        ),
        old(src)@.len() == 0 ==> r matches Err(Error::Io(_)),
{
    if src.len() == 0 {
        return Err(Error::Io(unexpected_eof()));
    }
    let (head, tail) = src.split_at(1);
    *src = tail;
    Ok(head[0])
}

/// Reading protobuf data.
pub trait ProtoRead {
    /// The octets not read yet.
    spec fn unread(&self) -> Seq<u8>;

    /// Reads a varint (see [`varint_at`]).
    fn read_varint(&mut self) -> (r: Result<u64, Error>)
        ensures
            match varint_at(old(self).unread(), 0) {
                Some((v, q)) => r == Ok::<u64, Error>(v) && final(self).unread() == old(
                    self,
                ).unread().subrange(q, old(self).unread().len() as int),
                None => r matches Err(Error::Io(_)),
            },
    ;

    /// Reads all octets that are left.
    fn read_bytes(&mut self) -> (r: Result<Vec<u8>, Error>)
        ensures
            r matches Ok(v) && v@ == old(self).unread(),
            final(self).unread() == Seq::<u8>::empty(),
    ;

    /// Reads a signed 32 bit number from four octets, the lowest first.
    fn read_sfixed32(&mut self) -> (r: Result<i32, Error>)
        ensures
            old(self).unread().len() >= 4 ==> r == Ok::<i32, Error>(
                le_value(old(self).unread()) as i32,
            ) && final(self).unread() == old(self).unread().subrange(
                4,
                old(self).unread().len() as int,
            ),
            old(self).unread().len() < 4 ==> r matches Err(Error::Io(_)),
    ;

    /// Reads all octets that are left as a UTF-8 text.
    fn read_string(&mut self) -> (r: Result<String, Error>)
        ensures
            valid_utf8(old(self).unread()) ==> (r matches Ok(s) && s@ == decode_utf8(
                old(self).unread(),
            )),
            !valid_utf8(old(self).unread()) ==> r matches Err(Error::InvalidUtf8Received),
    ;

    /// Reads a varint: any number but zero is `true`.
    fn read_bool(&mut self) -> (r: Result<bool, Error>)
        ensures
            match varint_at(old(self).unread(), 0) {
                Some((v, q)) => r == Ok::<bool, Error>(v != 0) && final(self).unread() == old(
                    self,
                ).unread().subrange(q, old(self).unread().len() as int),
                None => r matches Err(Error::Io(_)),
            },
    {
        match self.read_varint() {
            Ok(v) => Ok(v != 0),
            Err(e) => Err(e),
        }
    }

    /// Reads a tag: a varint within 32 bits, its three lowest bits the format and the others
    /// the field number.
    fn read_tag(&mut self) -> (r: Result<(u32, Format), Error>)
        ensures
            match varint_at(old(self).unread(), 0) {
                Some((v, q)) => {
                    let tag = v as u32;
                    &&& final(self).unread() == old(self).unread().subrange(
                        q,
                        old(self).unread().len() as int,
                    )
                    &&& match r {
                        Ok((field, format)) => field == tag >> 3u32 && format_id(format) == tag
                            & 7u32,
                        Err(e) => (e matches Error::InvalidFormat(f) && f == tag & 7u32 && !(f == 0
                            || f == 1 || f == 2 || f == 5)),
                    }
                },
                None => r matches Err(Error::Io(_)),
            },
    {
        let tag = match self.read_varint() {
            Ok(v) => v as u32,
            Err(e) => return Err(e),
        };
        let format = match Format::from(tag & 7u32) {
            Ok(f) => f,
            Err(e) => return Err(e),
        };
        Ok((tag >> 3u32, format))
    }

    /// Reads the number of an enum variant: a varint within 32 bits.
    fn read_enum_variant(&mut self) -> (r: Result<u32, Error>)
        ensures
            match varint_at(old(self).unread(), 0) {
                Some((v, q)) => r == Ok::<u32, Error>(v as u32) && final(self).unread() == old(
                    self,
                ).unread().subrange(q, old(self).unread().len() as int),
                None => r matches Err(Error::Io(_)),
            },
    {
        match self.read_varint() {
            Ok(v) => Ok(v as u32),
            Err(e) => Err(e),
        }
    }

    /// Reads an unsigned 32 bit number: a varint within 32 bits.
    fn read_uint32(&mut self) -> (r: Result<u32, Error>)
        ensures
            match varint_at(old(self).unread(), 0) {
                Some((v, q)) => r == Ok::<u32, Error>(v as u32) && final(self).unread() == old(
                    self,
                ).unread().subrange(q, old(self).unread().len() as int),
                None => r matches Err(Error::Io(_)),
            },
    {
        match self.read_varint() {
            Ok(v) => Ok(v as u32),
            Err(e) => Err(e),
        }
    }

    /// Reads an unsigned 64 bit number: a varint.
    fn read_uint64(&mut self) -> (r: Result<u64, Error>)
        ensures
            match varint_at(old(self).unread(), 0) {
                Some((v, q)) => r == Ok::<u64, Error>(v) && final(self).unread() == old(
                    self,
                ).unread().subrange(q, old(self).unread().len() as int),
                None => r matches Err(Error::Io(_)),
            },
    {
        self.read_varint()
    }

    /// Reads a zigzag encoded signed 32 bit number.
    fn read_sint32(&mut self) -> (r: Result<i32, Error>)
        ensures
            match varint_at(old(self).unread(), 0) {
                Some((v, q)) => r == Ok::<i32, Error>(sint32_of(v)) && final(self).unread() == old(
                    self,
                ).unread().subrange(q, old(self).unread().len() as int),
                None => r matches Err(Error::Io(_)),
            },
    {
        match self.read_varint() {
            Ok(v) => {
                let w = v as u32;
                assert(w & 1u32 <= 1u32 && w >> 1u32 <= 0x7FFF_FFFFu32) by (bit_vector);
                Ok(((w >> 1u32) as i32) ^ (-((w & 1u32) as i32)))
            },
            Err(e) => Err(e),
        }
    }

    /// Reads a zigzag encoded signed 64 bit number.
    fn read_sint64(&mut self) -> (r: Result<i64, Error>)
        ensures
            match varint_at(old(self).unread(), 0) {
                Some((v, q)) => r == Ok::<i64, Error>(sint64_of(v)) && final(self).unread() == old(
                    self,
                ).unread().subrange(q, old(self).unread().len() as int),
                None => r matches Err(Error::Io(_)),
            },
    {
        match self.read_varint() {
            Ok(v) => {
                assert(v & 1u64 <= 1u64 && v >> 1u64 <= 0x7FFF_FFFF_FFFF_FFFFu64) by (bit_vector);
                Ok(((v >> 1u64) as i64) ^ (-((v & 1u64) as i64)))
            },
            Err(e) => Err(e),
        }
    }
}

impl<'a> ProtoRead for &'a [u8] {
    open spec fn unread(&self) -> Seq<u8> {
        (*self)@
    }

    fn read_varint(&mut self) -> (r: Result<u64, Error>) {
        let ghost all = (*self)@;
        let mut value: u64 = 0;
        let mut shift: u64 = 0;
        while shift < 64
            invariant
                shift <= 70,
                all.len() >= (*self)@.len(),
                (*self)@ == all.subrange(all.len() - (*self)@.len(), all.len() as int),
                varint_at(all, 0) == varint_from(all, all.len() - (*self)@.len(), shift as nat, value),
                all == old(self)@,
            decreases 70 - shift,
        {
            let ghost p = all.len() - (*self)@.len();
            let read = match read_octet(self) {
                Ok(b) => b,
                Err(e) => return Err(e),
            };
            value = value | (((read & 0x7F) as u64) << shift);
            shift = shift + 7;
            assert((*self)@ =~= all.subrange(all.len() - (*self)@.len(), all.len() as int));
            if read & 0x80 == 0 {
                return Ok(value);
            }
        }
        Ok(value)
    }

    fn read_bytes(&mut self) -> (r: Result<Vec<u8>, Error>) {
        let mut out: Vec<u8> = Vec::new();
        let mut i: usize = 0;
        while i < self.len()
            invariant
                0 <= i <= (*self)@.len(),
                (*self)@ == old(self)@,
                out@ == (*self)@.take(i as int),
            decreases (*self)@.len() - i,
        {
            out.push(self[i]);
            assert(out@ =~= (*self)@.take(i + 1));
            i = i + 1;
        }
        assert((*self)@.take(i as int) =~= (*self)@);
        let (_, rest) = self.split_at(i);
        *self = rest;
        Ok(out)
    }

    fn read_sfixed32(&mut self) -> (r: Result<i32, Error>) {
        if self.len() < 4 {
            return Err(Error::Io(unexpected_eof()));
        }
        let v: u32 = self[0] as u32 + self[1] as u32 * 0x100 + self[2] as u32 * 0x1_0000 + self[3] as u32
            * 0x100_0000;
        let (_, rest) = self.split_at(4);
        *self = rest;
        Ok(v as i32)
    }

    fn read_string(&mut self) -> (r: Result<String, Error>) {
        let bytes = match self.read_bytes() {
            Ok(b) => b,
            Err(e) => return Err(e),
        };
        match string_from_utf8(bytes) {
            Some(s) => Ok(s),
            None => Err(Error::InvalidUtf8Received),
        }
    }
}


// Laws of the wire format.

proof fn lemma_or_shift(acc: u64, x: u64, s: u64)
    by (bit_vector)
    requires
        s < 64,
        acc < (1u64 << s),
    ensures
        acc | (x << s) == acc + (x << s),
{
}

proof fn lemma_varint_from(w: nat, shift: nat, acc: u64, b: Seq<u8>, p: int)
    requires
        shift < 64,
        acc < pow2(shift),
        acc + w * pow2(shift) <= u64::MAX,
        0 <= p,
        p + varint(w).len() <= b.len(),
        b.subrange(p, p + varint(w).len()) == varint(w),
    ensures
        varint_from(b, p, shift, acc) == Some(((acc + w * pow2(shift)) as u64, p + varint(w).len())),
    decreases w,
{
    let byte = b[p];
    assert(byte == varint(w)[0]);
    lemma_u64_pow2_no_overflow(shift);
    lemma_u64_shl_is_mul(1, shift as u64);
    lemma_pow2_pos(shift);
    assert(acc < (1u64 << (shift as u64)));
    if w <= 127 {
        assert(byte == w as u8);
        assert(byte & 0x80 == 0 && (byte & 0x7F) == byte) by (bit_vector)
            requires
                byte <= 127,
        ;
        assert(w * pow2(shift) <= u64::MAX) by (nonlinear_arith)
            requires
                acc + w * pow2(shift) <= u64::MAX,
                acc >= 0,
        ;
        lemma_u64_shl_is_mul(w as u64, shift as u64);
        lemma_or_shift(acc, w as u64, shift as u64);
        assert(varint(w).len() == 1);
    } else {
        let low = w % 128;
        let high = w / 128;
        assert(byte == (low + 128) as u8);
        let low8 = low as u8;
        assert(byte & 0x80 != 0 && (byte & 0x7F) == low8) by (bit_vector)
            requires
                low8 <= 127,
                byte == low8 + 128,
        ;
        assert(w == 128 * high + low);
        lemma_pow2_adds(shift, 7);
        lemma2_to64();
        assert(pow2(shift + 7) == 128 * pow2(shift)) by {
            assert(pow2(7) == 128);
            lemma_mul_is_commutative(pow2(shift) as int, 128);
        }
        assert(w * pow2(shift) == high * pow2(shift + 7) + low * pow2(shift)) by (nonlinear_arith)
            requires
                w == 128 * high + low,
                pow2(shift + 7) == 128 * pow2(shift),
        ;
        assert(low * pow2(shift) <= 127 * pow2(shift)) by (nonlinear_arith)
            requires
                low <= 127,
        ;
        assert(high * pow2(shift + 7) >= pow2(shift + 7)) by (nonlinear_arith)
            requires
                high >= 1,
        ;
        if shift + 7 >= 64 {
            if shift + 7 > 64 {
                lemma_pow2_strictly_increases(64, shift + 7);
            }
            assert(pow2(64) == 0x1_0000_0000_0000_0000);
            assert(false);
        }
        lemma_u64_shl_is_mul(low as u64, shift as u64);
        lemma_or_shift(acc, low as u64, shift as u64);
        let acc2: u64 = (acc + low * pow2(shift)) as u64;
        assert(varint(w) == seq![byte] + varint(high));
        assert(b.subrange(p + 1, p + 1 + varint(high).len()) =~= varint(high)) by {
            assert forall|i: int| 0 <= i < varint(high).len() implies b.subrange(
                p + 1,
                p + 1 + varint(high).len(),
            )[i] == varint(high)[i] by {
                assert(b.subrange(p, p + varint(w).len())[i + 1] == varint(w)[i + 1]);
            }
        }
        lemma_varint_from(high, shift + 7, acc2, b, p + 1);
    }
}

/// A varint written by [`ProtoWrite::write_varint`] is read back by
/// [`ProtoRead::read_varint`], which stops right behind it, whatever follows.
pub proof fn lemma_varint_roundtrip(v: u64, rest: Seq<u8>)
    ensures
        varint_at(varint(v as nat) + rest, 0) == Some((v, varint(v as nat).len() as int)),
{
    let b = varint(v as nat) + rest;
    assert(pow2(0) == 1) by {
        lemma2_to64();
    }
    assert(b.subrange(0, varint(v as nat).len() as int) =~= varint(v as nat));
    lemma_varint_from(v as nat, 0, 0, b, 0);
}

/// Zigzag encoding of a signed 32 bit number is undone by its decoding.
pub proof fn lemma_sint32_roundtrip(v: i32)
    ensures
        sint32_of(sint32_bits(v)) == v,
{
    assert(sint32_of(sint32_bits(v)) == v) by (bit_vector);
}

/// Zigzag encoding of a signed 64 bit number is undone by its decoding.
pub proof fn lemma_sint64_roundtrip(v: i64)
    ensures
        sint64_of(sint64_bits(v)) == v,
{
    assert(sint64_of(sint64_bits(v)) == v) by (bit_vector);
}

/// The tag of a field whose number fits in 29 bits gives the number and the format back.
pub proof fn lemma_tag_roundtrip(field: u32, format: Format)
    requires
        field < 0x2000_0000,
    ensures
        (tag_bits(field, format) as u32) >> 3u32 == field,
        (tag_bits(field, format) as u32) & 7u32 == format_id(format),
{
    let f = format_id(format);
    assert(f <= 7);
    assert((((field << 3u32) | f) as u64) as u32 >> 3u32 == field && (((field << 3u32) | f) as u64)
        as u32 & 7u32 == f) by (bit_vector)
        requires
            field < 0x2000_0000,
            f <= 7,
    ;
}

/// A signed 32 bit number written in four octets is read back from them.
pub proof fn lemma_sfixed32_roundtrip(v: i32, rest: Seq<u8>)
    ensures
        (le_bytes(v as u32) + rest).len() >= 4,
        le_value(le_bytes(v as u32) + rest) as i32 == v,
{
    let x = v as u32;
    let b = le_bytes(x) + rest;
    assert(b[0] == (x % 0x100) as u8 && b[1] == ((x / 0x100) % 0x100) as u8 && b[2] == ((x / 0x1_0000)
        % 0x100) as u8 && b[3] == (x / 0x100_0000) as u8);
    assert((x % 0x100) as u8 as u32 + ((x / 0x100) % 0x100) as u8 as u32 * 0x100 + ((x / 0x1_0000)
        % 0x100) as u8 as u32 * 0x1_0000 + (x / 0x100_0000) as u8 as u32 * 0x100_0000 == x)
        by (bit_vector);
    assert((v as u32) as i32 == v) by (bit_vector);
}

/// The octets that [`ProtoWrite::write_string`] writes behind the length are valid UTF-8 and
/// [`ProtoRead::read_string`] gives the text back from them.
pub proof fn lemma_string_roundtrip(s: &str)
    ensures
        valid_utf8(s.spec_bytes()),
        decode_utf8(s.spec_bytes()) == s@,
{
    broadcast use vstd::utf8::encode_utf8_valid_utf8, vstd::utf8::encode_utf8_decode_utf8;

    assert(valid_utf8(encode_utf8(s@)));
    assert(decode_utf8(encode_utf8(s@)) == s@);
}

/// A boolean written by [`ProtoWrite::write_bool`] is read back by [`ProtoRead::read_bool`].
pub proof fn lemma_bool_roundtrip(value: bool, rest: Seq<u8>)
    ensures
        ({
            let v: u64 = if value { 1 } else { 0 };
            varint_at(varint(v as nat) + rest, 0) == Some((v, 1int)) && (v != 0) == value
        }),
{
    let v: u64 = if value {
        1
    } else {
        0
    };
    lemma_varint_roundtrip(v, rest);
}

} // verus!
