//! The Rust counterpart of ASN.1 definitions, and the conversion into it.
use vstd::prelude::*;
use crate::model::{Asn, ChoiceEntry, Definition, Field, Import, Model, Range};
use crate::parser::chars_of;

verus! {

/// The characters `char::to_uppercase` gives for `c`.
pub uninterp spec fn uppercase_of(c: char) -> Seq<char>;

/// The characters `char::to_lowercase` gives for `c`.
pub uninterp spec fn lowercase_of(c: char) -> Seq<char>;

/// What `char::is_alphabetic` answers for `c`.
pub uninterp spec fn alphabetic(c: char) -> bool;

/// What `char::is_uppercase` answers for `c`.
pub uninterp spec fn uppercase(c: char) -> bool;

/// What `char::is_lowercase` answers for `c`.
pub uninterp spec fn lowercase(c: char) -> bool;

/// `char::to_uppercase`: the upper case mapping of `c`, which Unicode defines; named, not
/// stated.
#[verifier::external_body]
pub(crate) fn to_uppercase(c: char) -> (s: String)
    ensures
        s@ == uppercase_of(c),
{
    c.to_uppercase().collect()
}

/// `char::to_lowercase`: the lower case mapping of `c`, which Unicode defines; named, not
/// stated.
#[verifier::external_body]
pub(crate) fn to_lowercase(c: char) -> (s: String)
    ensures
        s@ == lowercase_of(c),
{
    c.to_lowercase().collect()
}

/// `char::is_alphabetic`: whether `c` has the Unicode property Alphabetic; named, not stated.
#[verifier::external_body]
pub(crate) fn is_alphabetic(c: char) -> (b: bool)
    ensures
        b == alphabetic(c),
{
    c.is_alphabetic()
}

/// `char::is_uppercase`: whether `c` has the Unicode property Uppercase; named, not stated.
#[verifier::external_body]
pub(crate) fn is_uppercase(c: char) -> (b: bool)
    ensures
        b == uppercase(c),
{
    c.is_uppercase()
}

/// `char::is_lowercase`: whether `c` has the Unicode property Lowercase; named, not stated.
#[verifier::external_body]
pub(crate) fn is_lowercase(c: char) -> (b: bool)
    ensures
        b == lowercase(c),
{
    c.is_lowercase()
}

/// Appends the characters of `s` to `out`.
pub(crate) fn push_all(out: &mut String, s: &str)
    ensures
        final(out)@ == old(out)@ + s@,
{
    let n = s.unicode_len();
    let mut i: usize = 0;
    while i < n
        invariant
            0 <= i <= n,
            n == s@.len(),
            out@ == old(out)@ + s@.take(i as int),
        decreases n - i,
    {
        out.push(s.get_char(i));
        assert(out@ =~= old(out)@ + s@.take(i + 1));
        i = i + 1;
    }
    assert(s@.take(n as int) =~= s@);
}

/// The name of a variant after the characters of `name`, and whether the next character is
/// made upper case: each character after a `-` (and the first) is made upper case, the `-`
/// themselves are dropped.
pub open spec fn variant_name_fold(name: Seq<char>) -> (Seq<char>, bool)
    decreases name.len(),
{
    if name.len() == 0 {
        (Seq::empty(), true)
    } else {
        let (out, next_upper) = variant_name_fold(name.drop_last());
        let c = name.last();
        if next_upper {
            (out + uppercase_of(c), false)
        } else if c == '-' {
            (out, true)
        } else {
            (out.push(c), false)
        }
    }
}

/// The Rust name of a variant, struct or enum made of an ASN.1 name.
pub open spec fn variant_name(name: Seq<char>) -> Seq<char> {
    variant_name_fold(name).0
}

/// The name of a module after the first `n` characters of `name`, whether the last character
/// was made lower case, and whether it was alphabetic: an upper case letter is made lower case
/// and, after an alphabetic character, preceded by `_` when the previous one was not made lower
/// case or the next one is lower case; `-` becomes `_`.
pub open spec fn module_name_fold(name: Seq<char>, n: nat) -> (Seq<char>, bool, bool)
    decreases n,
{
    if n == 0 || n > name.len() {
        (Seq::empty(), false, false)
    } else {
        let (out, prev_lowered, prev_alphabetic) = module_name_fold(name, (n - 1) as nat);
        let i = n - 1;
        let c = name[i];
        if uppercase(c) {
            let separate = out.len() > 0 && prev_alphabetic && (!prev_lowered || (i + 1 < name.len()
                && lowercase(name[i + 1])));
            ((if separate {
                out.push('_')
            } else {
                out
            }) + lowercase_of(c), true, alphabetic(c))
        } else if c == '-' {
            (out.push('_'), false, alphabetic(c))
        } else {
            (out.push(c), false, alphabetic(c))
        }
    }
}

/// The Rust name of a module made of an ASN.1 name.
pub open spec fn module_name(name: Seq<char>) -> Seq<char> {
    module_name_fold(name, name.len()).0
}

/// The Rust name of a variant made of `name`: `-` dropped, the first character and every
/// character after a `-` made upper case.
pub fn rust_variant_name(name: &str) -> (out: String)
    ensures
        out@ == variant_name(name@),
{
    let chars = chars_of(name);
    let mut out = String::new();
    let mut next_upper = true;
    let mut i: usize = 0;
    while i < chars.len()
        invariant
            0 <= i <= chars@.len(),
            chars@ == name@,
            (out@, next_upper) == variant_name_fold(name@.take(i as int)),
        decreases chars@.len() - i,
    {
        let c = chars[i];
        proof {
            assert(name@.take(i + 1).drop_last() =~= name@.take(i as int));
        }
        if next_upper {
            let upper = to_uppercase(c);
            push_all(&mut out, upper.as_str());
            next_upper = false;
        } else if c == '-' {
            next_upper = true;
        } else {
            out.push(c);
        }
        i = i + 1;
    }
    assert(name@.take(chars@.len() as int) =~= name@);
    out
}

/// The Rust name of a struct or enum made of `name`, as for a variant.
pub fn rust_struct_or_enum_name(name: &str) -> (out: String)
    ensures
        out@ == variant_name(name@),
{
    rust_variant_name(name)
}

/// The Rust name of a module made of `name`: snake case, as [`module_name`] describes.
pub fn rust_module_name(name: &str) -> (out: String)
    ensures
        out@ == module_name(name@),
{
    let chars = chars_of(name);
    let n = chars.len();
    let mut out = String::new();
    let mut prev_lowered = false;
    let mut prev_alphabetic = false;
    let mut i: usize = 0;
    while i < n
        invariant
            0 <= i <= n,
            n == chars@.len(),
            chars@ == name@,
            (out@, prev_lowered, prev_alphabetic) == module_name_fold(name@, i as nat),
        decreases n - i,
    {
        let c = chars[i];
        let mut lowered = false;
        let alphabetic = is_alphabetic(c);
        if is_uppercase(c) {
            if out.as_str().unicode_len() > 0 && prev_alphabetic {
                if !prev_lowered {
                    out.push('_');
                } else if i + 1 < n && is_lowercase(chars[i + 1]) {
                    out.push('_');
                }
            }
            lowered = true;
            let lower = to_lowercase(c);
            push_all(&mut out, lower.as_str());
        } else if c == '-' {
            out.push('_');
        } else {
            out.push(c);
        }
        prev_lowered = lowered;
        prev_alphabetic = alphabetic;
        i = i + 1;
    }
    out
}

/// The Rust name of a field made of `name`: snake case, as for a module.
pub fn rust_field_name(name: &str) -> (out: String)
    ensures
        out@ == module_name(name@),
{
    rust_module_name(name)
}

/// A Rust type of a field or a definition. Integers are ordered so that a later one holds
/// every value of an earlier one of the same signedness.
#[derive(Debug, PartialOrd, PartialEq)]
pub enum RustType {
    Bool,
    I8(Range<i8>),
    U8(Range<u8>),
    I16(Range<i16>),
    U16(Range<u16>),
    I32(Range<i32>),
    U32(Range<u32>),
    I64(Range<i64>),
    U64(Option<Range<u64>>),
    String,
    VecU8,
    Vec(Box<RustType>),
    Option(Box<RustType>),
    /// A type declared elsewhere, referred to by its name.
    Complex(String),
}

/// A Rust type as a value: names are character sequences.
pub enum RustTypeView {
    Bool,
    I8(Range<i8>),
    U8(Range<u8>),
    I16(Range<i16>),
    U16(Range<u16>),
    I32(Range<i32>),
    U32(Range<u32>),
    I64(Range<i64>),
    U64(Option<Range<u64>>),
    String,
    VecU8,
    Vec(Box<RustTypeView>),
    Option(Box<RustTypeView>),
    Complex(Seq<char>),
}

/// The decimal digit `d` as a character.
pub open spec fn digit_char(d: nat) -> char {
    ((48 + d) as u8) as char
}

/// The decimal digits of `n`, without leading zeros.
pub open spec fn dec_text(n: nat) -> Seq<char>
    decreases n,
{
    if n < 10 {
        seq![digit_char(n)]
    } else {
        dec_text(n / 10).push(digit_char(n % 10))
    }
}

/// An integer in decimal, with a minus sign in front of a negative one.
pub open spec fn int_text(i: int) -> Seq<char> {
    if i < 0 {
        seq!['-'] + dec_text((-i) as nat)
    } else {
        dec_text(i as nat)
    }
}

/// Appends the decimal digits of `n`.
pub(crate) fn push_dec(out: &mut String, n: u64)
    ensures
        final(out)@ == old(out)@ + dec_text(n as nat),
    decreases n,
{
    if n >= 10 {
        push_dec(out, n / 10);
    }
    let d = (n % 10) as u8;
    out.push((48u8 + d) as char);
    assert(out@ =~= old(out)@ + dec_text(n as nat));
}

/// An integer in decimal, as `to_string` writes it.
fn int_to_text(i: i64) -> (s: String)
    ensures
        s@ == int_text(i as int),
{
    let mut out = String::new();
    if i < 0 {
        out.push('-');
        let magnitude: u64 = (-(i + 1)) as u64 + 1;
        push_dec(&mut out, magnitude);
    } else {
        push_dec(&mut out, i as u64);
    }
    out
}

/// An unsigned integer in decimal, as `to_string` writes it.
fn uint_to_text(n: u64) -> (s: String)
    ensures
        s@ == int_text(n as int),
{
    let mut out = String::new();
    push_dec(&mut out, n);
    out
}

/// How a Rust type is written in Rust source.
pub open spec fn rust_type_text(t: RustTypeView) -> Seq<char>
    decreases t,
{
    match t {
        RustTypeView::Bool => "bool"@,
        RustTypeView::U8(_) => "u8"@,
        RustTypeView::I8(_) => "i8"@,
        RustTypeView::U16(_) => "u16"@,
        RustTypeView::I16(_) => "i16"@,
        RustTypeView::U32(_) => "u32"@,
        RustTypeView::I32(_) => "i32"@,
        RustTypeView::U64(_) => "u64"@,
        RustTypeView::I64(_) => "i64"@,
        RustTypeView::String => "String"@,
        RustTypeView::VecU8 => "Vec<u8>"@,
        RustTypeView::Vec(inner) => "Vec<"@ + rust_type_text(*inner) + ">"@,
        RustTypeView::Option(inner) => "Option<"@ + rust_type_text(*inner) + ">"@,
        RustTypeView::Complex(name) => name,
    }
}

/// How the primitive type within vectors and options is written, if there is one.
pub open spec fn inner_text(t: RustTypeView) -> Option<Seq<char>>
    decreases t,
{
    if is_primitive_view(t) {
        Some(rust_type_text(t))
    } else {
        match t {
            RustTypeView::Vec(inner) => inner_text(*inner),
            RustTypeView::Option(inner) => inner_text(*inner),
            _ => None,
        }
    }
}

/// The bounds of the integer within vectors and options, in decimal, if there is one; an
/// unbounded `u64` goes from `0` to the greatest `i64`.
pub open spec fn integer_range_text(t: RustTypeView) -> Option<(Seq<char>, Seq<char>)>
    decreases t,
{
    match t {
        RustTypeView::U8(r) => Some((int_text(r.0 as int), int_text(r.1 as int))),
        RustTypeView::I8(r) => Some((int_text(r.0 as int), int_text(r.1 as int))),
        RustTypeView::U16(r) => Some((int_text(r.0 as int), int_text(r.1 as int))),
        RustTypeView::I16(r) => Some((int_text(r.0 as int), int_text(r.1 as int))),
        RustTypeView::U32(r) => Some((int_text(r.0 as int), int_text(r.1 as int))),
        RustTypeView::I32(r) => Some((int_text(r.0 as int), int_text(r.1 as int))),
        RustTypeView::U64(None) => Some(("0"@, int_text(i64::MAX as int))),
        RustTypeView::U64(Some(r)) => Some((int_text(r.0 as int), int_text(r.1 as int))),
        RustTypeView::I64(r) => Some((int_text(r.0 as int), int_text(r.1 as int))),
        RustTypeView::Vec(inner) => integer_range_text(*inner),
        RustTypeView::Option(inner) => integer_range_text(*inner),
        _ => None,
    }
}

/// The value a Rust type stands for.
pub open spec fn rust_type_view(t: RustType) -> RustTypeView
    decreases t,
{
    match t {
        RustType::Bool => RustTypeView::Bool,
        RustType::I8(r) => RustTypeView::I8(r),
        RustType::U8(r) => RustTypeView::U8(r),
        RustType::I16(r) => RustTypeView::I16(r),
        RustType::U16(r) => RustTypeView::U16(r),
        RustType::I32(r) => RustTypeView::I32(r),
        RustType::U32(r) => RustTypeView::U32(r),
        RustType::I64(r) => RustTypeView::I64(r),
        RustType::U64(r) => RustTypeView::U64(r),
        RustType::String => RustTypeView::String,
        RustType::VecU8 => RustTypeView::VecU8,
        RustType::Vec(inner) => RustTypeView::Vec(Box::new(rust_type_view(*inner))),
        RustType::Option(inner) => RustTypeView::Option(Box::new(rust_type_view(*inner))),
        RustType::Complex(name) => RustTypeView::Complex(name@),
    }
}

impl View for RustType {
    type V = RustTypeView;

    open spec fn view(&self) -> RustTypeView {
        rust_type_view(*self)
    }
}

/// Whether a type is a boolean or an integer.
pub open spec fn is_primitive_view(t: RustTypeView) -> bool {
    match t {
        RustTypeView::Bool | RustTypeView::U8(_) | RustTypeView::I8(_) | RustTypeView::U16(_)
        | RustTypeView::I16(_) | RustTypeView::U32(_) | RustTypeView::I32(_) | RustTypeView::U64(_)
        | RustTypeView::I64(_) => true,
        _ => false,
    }
}

/// The innermost type within vectors and options, unless the type is primitive itself.
pub open spec fn inner_type_view(t: RustTypeView) -> RustTypeView
    decreases t,
{
    if is_primitive_view(t) {
        t
    } else {
        match t {
            RustTypeView::Vec(inner) => inner_type_view(*inner),
            RustTypeView::Option(inner) => inner_type_view(*inner),
            _ => t,
        }
    }
}

/// A type without the options around it.
pub open spec fn no_option_view(t: RustTypeView) -> RustTypeView
    decreases t,
{
    match t {
        RustTypeView::Option(inner) => no_option_view(*inner),
        _ => t,
    }
}

/// Two types are similar when they are the same kind of type, whatever the ranges of
/// integers, with similar inner types and equal names.
pub open spec fn similar_view(a: RustTypeView, b: RustTypeView) -> bool
    decreases a,
{
    match (a, b) {
        (RustTypeView::Bool, RustTypeView::Bool) => true,
        (RustTypeView::U8(_), RustTypeView::U8(_)) => true,
        (RustTypeView::I8(_), RustTypeView::I8(_)) => true,
        (RustTypeView::U16(_), RustTypeView::U16(_)) => true,
        (RustTypeView::I16(_), RustTypeView::I16(_)) => true,
        (RustTypeView::U32(_), RustTypeView::U32(_)) => true,
        (RustTypeView::I32(_), RustTypeView::I32(_)) => true,
        (RustTypeView::U64(_), RustTypeView::U64(_)) => true,
        (RustTypeView::I64(_), RustTypeView::I64(_)) => true,
        (RustTypeView::String, RustTypeView::String) => true,
        (RustTypeView::VecU8, RustTypeView::VecU8) => true,
        (RustTypeView::Vec(x), RustTypeView::Vec(y)) => similar_view(*x, *y),
        (RustTypeView::Option(x), RustTypeView::Option(y)) => similar_view(*x, *y),
        (RustTypeView::Complex(x), RustTypeView::Complex(y)) => x == y,
        _ => false,
    }
}

impl Clone for RustType {
    fn clone(&self) -> (c: Self)
        ensures
            c@ == self@,
        decreases self,
    {
        match self {
            RustType::Bool => RustType::Bool,
            RustType::I8(r) => RustType::I8(*r),
            RustType::U8(r) => RustType::U8(*r),
            RustType::I16(r) => RustType::I16(*r),
            RustType::U16(r) => RustType::U16(*r),
            RustType::I32(r) => RustType::I32(*r),
            RustType::U32(r) => RustType::U32(*r),
            RustType::I64(r) => RustType::I64(*r),
            RustType::U64(r) => RustType::U64(*r),
            RustType::String => RustType::String,
            RustType::VecU8 => RustType::VecU8,
            RustType::Vec(inner) => RustType::Vec(Box::new((**inner).clone())),
            RustType::Option(inner) => RustType::Option(Box::new((**inner).clone())),
            RustType::Complex(name) => RustType::Complex(name.clone()),
        }
    }
}

impl RustType {
    /// How this type is written in Rust source.
    pub fn to_string(&self) -> (s: String)
        ensures
            s@ == rust_type_text(self@),
        decreases self,
    {
        match self {
            RustType::Bool => String::from_str("bool"),
            RustType::U8(_) => String::from_str("u8"),
            RustType::I8(_) => String::from_str("i8"),
            RustType::U16(_) => String::from_str("u16"),
            RustType::I16(_) => String::from_str("i16"),
            RustType::U32(_) => String::from_str("u32"),
            RustType::I32(_) => String::from_str("i32"),
            RustType::U64(_) => String::from_str("u64"),
            RustType::I64(_) => String::from_str("i64"),
            RustType::String => String::from_str("String"),
            RustType::VecU8 => String::from_str("Vec<u8>"),
            RustType::Vec(inner) => {
                let mut out = String::from_str("Vec<");
                let text = inner.to_string();
                push_all(&mut out, text.as_str());
                push_all(&mut out, ">");
                out
            },
            RustType::Option(inner) => {
                let mut out = String::from_str("Option<");
                let text = inner.to_string();
                push_all(&mut out, text.as_str());
                push_all(&mut out, ">");
                out
            },
            RustType::Complex(name) => name.clone(),
        }
    }

    /// How the primitive type within vectors and options is written, if there is one.
    pub fn to_inner(&self) -> (s: Option<String>)
        ensures
            match inner_text(self@) {
                Some(t) => s is Some && s->Some_0@ == t,
                None => s is None,
            },
        decreases self,
    {
        if self.is_primitive() {
            return Some(self.to_string());
        }
        match self {
            RustType::Vec(inner) => inner.to_inner(),
            RustType::Option(inner) => inner.to_inner(),
            _ => None,
        }
    }

    /// How the primitive type within vectors and options is written, or else how this type
    /// is written.
    pub fn to_inner_type_string(&self) -> (s: String)
        ensures
            s@ == match inner_text(self@) {
                Some(t) => t,
                None => rust_type_text(self@),
            },
    {
        match self.to_inner() {
            Some(s) => s,
            None => self.to_string(),
        }
    }

    /// The bounds of the integer within vectors and options, in decimal, if there is one; an
    /// unbounded `u64` goes from `0` to the greatest `i64`.
    pub fn integer_range_str(&self) -> (r: Option<Range<String>>)
        ensures
            match integer_range_text(self@) {
                Some((min, max)) => r is Some && r->Some_0.0@ == min && r->Some_0.1@ == max,
                None => r is None,
            },
        decreases self,
    {
        match self {
            RustType::U8(r) => Some(Range(uint_to_text(r.0 as u64), uint_to_text(r.1 as u64))),
            RustType::I8(r) => Some(Range(int_to_text(r.0 as i64), int_to_text(r.1 as i64))),
            RustType::U16(r) => Some(Range(uint_to_text(r.0 as u64), uint_to_text(r.1 as u64))),
            RustType::I16(r) => Some(Range(int_to_text(r.0 as i64), int_to_text(r.1 as i64))),
            RustType::U32(r) => Some(Range(uint_to_text(r.0 as u64), uint_to_text(r.1 as u64))),
            RustType::I32(r) => Some(Range(int_to_text(r.0 as i64), int_to_text(r.1 as i64))),
            RustType::U64(None) => {
                proof {
                    reveal_strlit("0");
                    assert("0"@ =~= dec_text(0));
                }
                Some(Range(String::from_str("0"), int_to_text(i64::MAX)))
            },
            RustType::U64(Some(r)) => Some(Range(uint_to_text(r.0), uint_to_text(r.1))),
            RustType::I64(r) => Some(Range(int_to_text(r.0), int_to_text(r.1))),
            RustType::Vec(inner) => inner.integer_range_str(),
            RustType::Option(inner) => inner.integer_range_str(),
            _ => None,
        }
    }

    /// Whether this is a boolean or an integer.
    pub fn is_primitive(&self) -> (b: bool)
        ensures
            b == is_primitive_view(self@),
    {
        match self {
            RustType::Bool => true,
            RustType::U8(_) => true,
            RustType::I8(_) => true,
            RustType::U16(_) => true,
            RustType::I16(_) => true,
            RustType::U32(_) => true,
            RustType::I32(_) => true,
            RustType::U64(_) => true,
            RustType::I64(_) => true,
            _ => false,
        }
    }

    /// The innermost type within vectors and options, unless this type is primitive itself.
    pub fn into_inner_type(self) -> (t: RustType)
        ensures
            t@ == inner_type_view(self@),
        decreases self,
    {
        if self.is_primitive() {
            return self;
        }
        match self {
            RustType::Vec(inner) => (*inner).into_inner_type(),
            RustType::Option(inner) => (*inner).into_inner_type(),
            other => other,
        }
    }

    /// This type without the options around it.
    pub fn no_option(self) -> (t: Self)
        ensures
            t@ == no_option_view(self@),
        decreases self,
    {
        match self {
            RustType::Option(inner) => (*inner).no_option(),
            rust => rust,
        }
    }

    /// Whether `other` is the same kind of type, whatever the ranges of integers.
    pub fn similar(&self, other: &Self) -> (b: bool)
        ensures
            b == similar_view(self@, other@),
        decreases self,
    {
        match (self, other) {
            (RustType::Bool, RustType::Bool) => true,
            (RustType::U8(_), RustType::U8(_)) => true,
            (RustType::I8(_), RustType::I8(_)) => true,
            (RustType::U16(_), RustType::U16(_)) => true,
            (RustType::I16(_), RustType::I16(_)) => true,
            (RustType::U32(_), RustType::U32(_)) => true,
            (RustType::I32(_), RustType::I32(_)) => true,
            (RustType::U64(_), RustType::U64(_)) => true,
            (RustType::I64(_), RustType::I64(_)) => true,
            (RustType::String, RustType::String) => true,
            (RustType::VecU8, RustType::VecU8) => true,
            (RustType::Vec(a), RustType::Vec(b)) => a.similar(b),
            (RustType::Option(a), RustType::Option(b)) => a.similar(b),
            (RustType::Complex(a), RustType::Complex(b)) => crate::parser::text_eq(a.as_str(), b.as_str()),
            _ => false,
        }
    }
}

/// A definition in Rust.
#[derive(Debug, PartialOrd, PartialEq)]
pub enum Rust {
    Struct(Vec<(String, RustType)>),
    Enum(Vec<String>),
    DataEnum(Vec<(String, RustType)>),
    /// A single, unnamed inner type.
    TupleStruct(RustType),
}

/// A definition in Rust as a value.
pub enum RustView {
    Struct(Seq<(Seq<char>, RustTypeView)>),
    Enum(Seq<Seq<char>>),
    DataEnum(Seq<(Seq<char>, RustTypeView)>),
    TupleStruct(RustTypeView),
}

/// Named fields or variants as values.
pub open spec fn named_types_view(fields: Seq<(String, RustType)>) -> Seq<(Seq<char>, RustTypeView)> {
    fields.map_values(|f: (String, RustType)| (f.0@, f.1@))
}

/// Names as values.
pub open spec fn names_view(names: Seq<String>) -> Seq<Seq<char>> {
    names.map_values(|n: String| n@)
}

impl View for Rust {
    type V = RustView;

    open spec fn view(&self) -> RustView {
        match self {
            Rust::Struct(fields) => RustView::Struct(named_types_view(fields@)),
            Rust::Enum(variants) => RustView::Enum(names_view(variants@)),
            Rust::DataEnum(variants) => RustView::DataEnum(named_types_view(variants@)),
            Rust::TupleStruct(t) => RustView::TupleStruct(t@),
        }
    }
}

/// A Rust definition as a value: its name and what it defines.
pub type DefinitionView = (Seq<char>, RustView);

/// Rust definitions as values.
pub open spec fn definitions_view(defs: Seq<Definition<Rust>>) -> Seq<DefinitionView> {
    defs.map_values(|d: Definition<Rust>| (d.0@, d.1@))
}

/// The size of an ASN.1 type, counting the types within it.
pub open spec fn asn_size(asn: Asn) -> nat
    decreases asn,
{
    match asn {
        Asn::SequenceOf(inner) => 1 + asn_size(*inner),
        Asn::Sequence(fields) => 1 + fields_size(fields@),
        Asn::Choice(entries) => 1 + entries_size(entries@),
        _ => 1,
    }
}

/// The size of the types of fields.
pub open spec fn fields_size(fields: Seq<Field<Asn>>) -> nat
    decreases fields,
{
    if fields.len() == 0 {
        0
    } else {
        fields_size(fields.subrange(0, fields.len() - 1)) + asn_size(fields[fields.len() - 1].role) + 1
    }
}

/// The size of the types of the entries of a choice.
pub open spec fn entries_size(entries: Seq<ChoiceEntry>) -> nat
    decreases entries,
{
    if entries.len() == 0 {
        0
    } else {
        entries_size(entries.subrange(0, entries.len() - 1)) + asn_size(entries[entries.len() - 1].1) + 1
    }
}

/// Every integer range within an ASN.1 type has a lower bound above `i64::MIN + 1`, so that
/// the distance to the bound below can be taken.
pub open spec fn integers_fit(asn: Asn) -> bool
    decreases asn_size(asn),
{
    match asn {
        Asn::Integer(Some(r)) => r.0 > i64::MIN + 1,
        Asn::SequenceOf(inner) => integers_fit(*inner),
        Asn::Sequence(fields) => fields_fit(fields@),
        Asn::Choice(entries) => entries_fit(entries@),
        _ => true,
    }
}

/// Every integer range within the types of fields fits.
pub open spec fn fields_fit(fields: Seq<Field<Asn>>) -> bool
    decreases fields_size(fields),
{
    if fields.len() == 0 {
        true
    } else {
        fields_fit(fields.drop_last()) && integers_fit(fields.last().role)
    }
}

/// Every integer range within the types of the entries of a choice fits.
pub open spec fn entries_fit(entries: Seq<ChoiceEntry>) -> bool
    decreases entries_size(entries),
{
    if entries.len() == 0 {
        true
    } else {
        entries_fit(entries.drop_last()) && integers_fit(entries.last().1)
    }
}

/// The Rust integer type of an ASN.1 integer between `min` and `max`: without negative values
/// the smallest unsigned type that holds `max`, otherwise the smallest signed type that holds
/// both `max` and the distance of `min - 1` from zero.
pub open spec fn integer_type(min: i64, max: i64) -> RustTypeView {
    if min >= 0 {
        let m = max as u64;
        if m <= 0xFF {
            RustTypeView::U8(Range(min as u8, max as u8))
        } else if m <= 0xFFFF {
            RustTypeView::U16(Range(min as u16, max as u16))
        } else if m <= 0xFFFF_FFFF {
            RustTypeView::U32(Range(min as u32, max as u32))
        } else {
            RustTypeView::U64(Some(Range(min as u64, max as u64)))
        }
    } else {
        let amplitude = if 1 - min > max {
            1 - min
        } else {
            max as int
        };
        if amplitude <= 0x7F {
            RustTypeView::I8(Range(min as i8, max as i8))
        } else if amplitude <= 0x7FFF {
            RustTypeView::I16(Range(min as i16, max as i16))
        } else if amplitude <= 0x7FFF_FFFF {
            RustTypeView::I32(Range(min as i32, max as i32))
        } else {
            RustTypeView::I64(Range(min, max))
        }
    }
}

/// The Rust type of an ASN.1 type that defines nothing new: a boolean, an integer, a string, an
/// octet string, or a reference to another definition.
pub open spec fn simple_type(asn: Asn) -> RustTypeView {
    match asn {
        Asn::Boolean => RustTypeView::Bool,
        Asn::Integer(Some(r)) => integer_type(r.0, r.1),
        Asn::Integer(None) => RustTypeView::U64(None),
        Asn::UTF8String => RustTypeView::String,
        Asn::OctetString => RustTypeView::VecU8,
        Asn::TypeReference(name) => RustTypeView::Complex(name@),
        _ => RustTypeView::Bool,
    }
}

/// The ASN.1 type defines nothing new.
pub open spec fn is_simple(asn: Asn) -> bool {
    asn is Boolean || asn is Integer || asn is UTF8String || asn is OctetString || asn is TypeReference
}

/// The Rust type standing for `asn` as the type of a field named `name` (written in a rusty
/// way), and the definitions after those it needs are added to `defs`: a sequence of values is
/// a vector, and a sequence, enumeration or choice gets a definition of its own, named after
/// `name`.
pub open spec fn type_defs(name: Seq<char>, asn: Asn, defs: Seq<DefinitionView>) -> (
    RustTypeView,
    Seq<DefinitionView>,
)
    decreases asn_size(asn), 2nat,
{
    match asn {
        Asn::SequenceOf(inner) => {
            let (t, d) = type_defs(name, *inner, defs);
            (RustTypeView::Vec(Box::new(t)), d)
        },
        Asn::Sequence(_) | Asn::Enumerated(_) | Asn::Choice(_) => {
            let n = variant_name(name);
            (RustTypeView::Complex(n), def_defs(n, asn, defs))
        },
        _ => (simple_type(asn), defs),
    }
}

/// The definitions after `asn` is defined as `name` (written in a rusty way), behind the
/// definitions it needs, at the end of `defs`.
pub open spec fn def_defs(name: Seq<char>, asn: Asn, defs: Seq<DefinitionView>) -> Seq<DefinitionView>
    decreases asn_size(asn), 1nat,
{
    match asn {
        Asn::Sequence(fields) => {
            let (fs, d) = fields_defs(name, fields@, defs);
            d.push((name, RustView::Struct(fs)))
        },
        Asn::SequenceOf(inner) => {
            let (t, d) = type_defs(name, *inner, defs);
            d.push((name, RustView::TupleStruct(RustTypeView::Vec(Box::new(t)))))
        },
        Asn::Choice(entries) => {
            let (es, d) = entries_defs(name, entries@, defs);
            d.push((name, RustView::DataEnum(es)))
        },
        Asn::Enumerated(e) => defs.push(
            (name, RustView::Enum(e.variants_spec().map_values(|v: crate::model::EnumeratedVariant| variant_name(v.name_spec())))),
        ),
        _ => defs.push((name, RustView::TupleStruct(simple_type(asn)))),
    }
}

/// The fields of a struct named `name` made of ASN.1 fields, and the definitions after those
/// their types need: each field is named in snake case, its type named after the struct and
/// the field, and an optional field is an option.
pub open spec fn fields_defs(name: Seq<char>, fields: Seq<Field<Asn>>, defs: Seq<DefinitionView>) -> (
    Seq<(Seq<char>, RustTypeView)>,
    Seq<DefinitionView>,
)
    decreases fields_size(fields), 0nat,
{
    if fields.len() == 0 {
        (Seq::empty(), defs)
    } else {
        let (fs, d) = fields_defs(name, fields.subrange(0, fields.len() - 1), defs);
        let f = fields[fields.len() - 1];
        let (t, d2) = type_defs(name + variant_name(f.name@), f.role, d);
        (fs.push((module_name(f.name@), if f.optional {
            RustTypeView::Option(Box::new(t))
        } else {
            t
        })), d2)
    }
}

/// The variants of a data enum named `name` made of the entries of a choice, and the
/// definitions after those their types need: each variant is named as a variant, its type named
/// after the enum and the entry.
pub open spec fn entries_defs(name: Seq<char>, entries: Seq<ChoiceEntry>, defs: Seq<DefinitionView>) -> (
    Seq<(Seq<char>, RustTypeView)>,
    Seq<DefinitionView>,
)
    decreases entries_size(entries), 0nat,
{
    if entries.len() == 0 {
        (Seq::empty(), defs)
    } else {
        let (es, d) = entries_defs(name, entries.subrange(0, entries.len() - 1), defs);
        let e = entries[entries.len() - 1];
        let (t, d2) = type_defs(name + variant_name(e.0@), e.1, d);
        (es.push((variant_name(e.0@), t)), d2)
    }
}

/// A field's type is smaller than the types of all fields, and fits when they do.
proof fn lemma_field_within(fields: Seq<Field<Asn>>, i: int)
    requires
        0 <= i < fields.len(),
    ensures
        asn_size(fields[i].role) < fields_size(fields),
        fields_fit(fields) ==> integers_fit(fields[i].role),
    decreases fields.len(),
{
    let init = fields.subrange(0, fields.len() - 1);
    assert(init =~= fields.drop_last());
    if i < fields.len() - 1 {
        lemma_field_within(init, i);
        assert(init[i] == fields[i]);
    }
}

/// An entry's type is smaller than the types of all entries, and fits when they do.
proof fn lemma_entry_within(entries: Seq<ChoiceEntry>, i: int)
    requires
        0 <= i < entries.len(),
    ensures
        asn_size(entries[i].1) < entries_size(entries),
        entries_fit(entries) ==> integers_fit(entries[i].1),
    decreases entries.len(),
{
    let init = entries.subrange(0, entries.len() - 1);
    assert(init =~= entries.drop_last());
    if i < entries.len() - 1 {
        lemma_entry_within(init, i);
        assert(init[i] == entries[i]);
    }
}

/// The Rust integer type of an ASN.1 integer between `min` and `max`.
fn integer_rust_type(min: i64, max: i64) -> (t: RustType)
    requires
        min > i64::MIN + 1,
    ensures
        t@ == integer_type(min, max),
{
    if min >= 0 {
        let m = max as u64;
        if m <= 0xFF {
            RustType::U8(Range(min as u8, max as u8))
        } else if m <= 0xFFFF {
            RustType::U16(Range(min as u16, max as u16))
        } else if m <= 0xFFFF_FFFF {
            RustType::U32(Range(min as u32, max as u32))
        } else {
            RustType::U64(Some(Range(min as u64, max as u64)))
        }
    } else {
        let below = 1 - min;
        let amplitude = if below > max {
            below
        } else {
            max
        };
        if amplitude <= 0x7F {
            RustType::I8(Range(min as i8, max as i8))
        } else if amplitude <= 0x7FFF {
            RustType::I16(Range(min as i16, max as i16))
        } else if amplitude <= 0x7FFF_FFFF {
            RustType::I32(Range(min as i32, max as i32))
        } else {
            RustType::I64(Range(min, max))
        }
    }
}

/// The Rust type of an ASN.1 type that defines nothing new.
fn simple_rust_type(asn: &Asn) -> (t: RustType)
    requires
        is_simple(*asn),
        integers_fit(*asn),
    ensures
        t@ == simple_type(*asn),
{
    match asn {
        Asn::Boolean => RustType::Bool,
        Asn::Integer(Some(range)) => integer_rust_type(range.0, range.1),
        Asn::Integer(None) => RustType::U64(None),
        Asn::UTF8String => RustType::String,
        Asn::OctetString => RustType::VecU8,
        Asn::TypeReference(name) => RustType::Complex(name.clone()),
        _ => RustType::Bool,
    }
}

/// `name` followed by the struct name made of `suffix`.
fn joined_name(name: &str, suffix: &str) -> (out: String)
    ensures
        out@ == name@ + variant_name(suffix@),
{
    let mut out = name.to_owned();
    let tail = rust_struct_or_enum_name(suffix);
    push_all(&mut out, tail.as_str());
    out
}

impl Model<Rust> {
    /// The Rust type standing for `asn` as the type of a field named `name` (written in a rusty
    /// way), adding to `defs` the definitions it needs, as [`type_defs`] describes.
    pub fn definition_type_to_rust_type(name: &str, asn: &Asn, defs: &mut Vec<Definition<Rust>>) -> (t:
        RustType)
        requires
            integers_fit(*asn),
        ensures
            (t@, definitions_view(final(defs)@)) == type_defs(name@, *asn, definitions_view(old(defs)@)),
        decreases asn_size(*asn), 2nat,
    {
        match asn {
            Asn::SequenceOf(inner) => {
                let t = Self::definition_type_to_rust_type(name, &**inner, defs);
                RustType::Vec(Box::new(t))
            },
            Asn::Sequence(_) | Asn::Enumerated(_) | Asn::Choice(_) => {
                let n = rust_struct_or_enum_name(name);
                Self::definition_to_rust(n.as_str(), asn, defs);
                RustType::Complex(n)
            },
            _ => simple_rust_type(asn),
        }
    }

    /// Defines `asn` as `name` (written in a rusty way), adding to `defs` the definitions it
    /// needs and then its own, as [`def_defs`] describes. Inner types that Rust cannot write
    /// inline get definitions of their own.
    pub fn definition_to_rust(name: &str, asn: &Asn, defs: &mut Vec<Definition<Rust>>)
        requires
            integers_fit(*asn),
        ensures
            definitions_view(final(defs)@) == def_defs(name@, *asn, definitions_view(old(defs)@)),
        decreases asn_size(*asn), 1nat,
    {
        let ghost d0 = definitions_view(old(defs)@);
        match asn {
            Asn::Sequence(fields) => {
                let mut rust_fields: Vec<(String, RustType)> = Vec::new();
                let mut i: usize = 0;
                while i < fields.len()
                    invariant
                        0 <= i <= fields@.len(),
                        *asn == Asn::Sequence(*fields),
                        rust_fields@.len() == i,
                        integers_fit(*asn),
                        d0 == definitions_view(old(defs)@),
                        (named_types_view(rust_fields@), definitions_view(defs@)) == fields_defs(
                            name@,
                            fields@.take(i as int),
                            d0,
                        ),
                    decreases fields@.len() - i,
                {
                    let field = &fields[i];
                    proof {
                        lemma_field_within(fields@, i as int);
                        let taken = fields@.take(i + 1);
                        assert(taken.subrange(0, taken.len() - 1) =~= fields@.take(i as int));
                        assert(taken[taken.len() - 1] == fields@[i as int]);
                    }
                    let rust_name = joined_name(name, field.name.as_str());
                    let rust_role = Self::definition_type_to_rust_type(rust_name.as_str(), &field.role, defs);
                    let field_name = rust_field_name(field.name.as_str());
                    let ghost before = rust_fields@;
                    if field.optional {
                        rust_fields.push((field_name, RustType::Option(Box::new(rust_role))));
                    } else {
                        rust_fields.push((field_name, rust_role));
                    }
                    proof {
                        assert(named_types_view(rust_fields@) =~= named_types_view(before).push(
                            (rust_fields@[i as int].0@, rust_fields@[i as int].1@),
                        ));
                    }
                    i = i + 1;
                }
                assert(fields@.take(fields@.len() as int) =~= fields@);
                let ghost d1 = defs@;
                let ghost fs = rust_fields@;
                defs.push(Definition(name.to_owned(), Rust::Struct(rust_fields)));
                assert(definitions_view(defs@) =~= definitions_view(d1).push(
                    (name@, RustView::Struct(named_types_view(fs))),
                ));
            },
            Asn::SequenceOf(inner) => {
                let t = Self::definition_type_to_rust_type(name, &**inner, defs);
                let ghost d1 = defs@;
                let ghost tv = t@;
                defs.push(Definition(name.to_owned(), Rust::TupleStruct(RustType::Vec(Box::new(t)))));
                assert(definitions_view(defs@) =~= definitions_view(d1).push(
                    (name@, RustView::TupleStruct(RustTypeView::Vec(Box::new(tv)))),
                ));
            },
            Asn::Choice(entries) => {
                let mut rust_entries: Vec<(String, RustType)> = Vec::new();
                let mut i: usize = 0;
                while i < entries.len()
                    invariant
                        0 <= i <= entries@.len(),
                        *asn == Asn::Choice(*entries),
                        rust_entries@.len() == i,
                        integers_fit(*asn),
                        d0 == definitions_view(old(defs)@),
                        (named_types_view(rust_entries@), definitions_view(defs@)) == entries_defs(
                            name@,
                            entries@.take(i as int),
                            d0,
                        ),
                    decreases entries@.len() - i,
                {
                    let entry = &entries[i];
                    proof {
                        lemma_entry_within(entries@, i as int);
                        let taken = entries@.take(i + 1);
                        assert(taken.subrange(0, taken.len() - 1) =~= entries@.take(i as int));
                        assert(taken[taken.len() - 1] == entries@[i as int]);
                    }
                    let rust_name = joined_name(name, entry.0.as_str());
                    let rust_role = Self::definition_type_to_rust_type(rust_name.as_str(), &entry.1, defs);
                    let variant = rust_variant_name(entry.0.as_str());
                    let ghost before = rust_entries@;
                    rust_entries.push((variant, rust_role));
                    proof {
                        assert(named_types_view(rust_entries@) =~= named_types_view(before).push(
                            (rust_entries@[i as int].0@, rust_entries@[i as int].1@),
                        ));
                    }
                    i = i + 1;
                }
                assert(entries@.take(entries@.len() as int) =~= entries@);
                let ghost d1 = defs@;
                let ghost es = rust_entries@;
                defs.push(Definition(name.to_owned(), Rust::DataEnum(rust_entries)));
                assert(definitions_view(defs@) =~= definitions_view(d1).push(
                    (name@, RustView::DataEnum(named_types_view(es))),
                ));
            },
            Asn::Enumerated(enumerated) => {
                let variants = enumerated.variants();
                let mut rust_variants: Vec<String> = Vec::new();
                let mut i: usize = 0;
                while i < variants.len()
                    invariant
                        0 <= i <= variants@.len(),
                        variants@ == enumerated.variants_spec(),
                        rust_variants@.len() == i,
                        names_view(rust_variants@) == variants@.take(i as int).map_values(
                            |v: crate::model::EnumeratedVariant| variant_name(v.name_spec()),
                        ),
                    decreases variants@.len() - i,
                {
                    let ghost before = rust_variants@;
                    rust_variants.push(rust_variant_name(variants[i].name()));
                    proof {
                        let f = |v: crate::model::EnumeratedVariant| variant_name(v.name_spec());
                        assert(names_view(rust_variants@) =~= names_view(before).push(
                            rust_variants@[i as int]@,
                        ));
                        assert(variants@.take(i + 1).map_values(f) =~= variants@.take(i as int).map_values(
                            f,
                        ).push(f(variants@[i as int])));
                        assert(rust_variants@[i as int]@ == f(variants@[i as int]));
                    }
                    i = i + 1;
                }
                assert(variants@.take(variants@.len() as int) =~= variants@);
                let ghost d1 = defs@;
                let ghost vs = rust_variants@;
                defs.push(Definition(name.to_owned(), Rust::Enum(rust_variants)));
                assert(definitions_view(defs@) =~= definitions_view(d1).push(
                    (name@, RustView::Enum(names_view(vs))),
                ));
            },
            _ => {
                let t = simple_rust_type(asn);
                let ghost d1 = defs@;
                let ghost tv = t@;
                defs.push(Definition(name.to_owned(), Rust::TupleStruct(t)));
                assert(definitions_view(defs@) =~= definitions_view(d1).push(
                    (name@, RustView::TupleStruct(tv)),
                ));
            },
        }
    }
}

/// The definitions of a Rust model made of the definitions of an ASN.1 model, in order, each
/// named as a struct or enum.
pub open spec fn model_defs(defs: Seq<Definition<Asn>>) -> Seq<DefinitionView>
    decreases defs.len(),
{
    if defs.len() == 0 {
        Seq::empty()
    } else {
        let d = defs.last();
        def_defs(variant_name(d.0@), d.1, model_defs(defs.drop_last()))
    }
}

/// An import as a value: the names imported and the module they come from.
pub open spec fn import_view(i: Import) -> (Seq<Seq<char>>, Seq<char>) {
    (names_view(i.what@), i.from@)
}

/// The Rust import made of an ASN.1 import: struct or enum names from a module name.
pub open spec fn rust_import(i: Import) -> (Seq<Seq<char>>, Seq<char>) {
    (i.what@.map_values(|w: String| variant_name(w@)), module_name(i.from@))
}

/// Every integer range of every definition fits.
pub open spec fn model_fits(defs: Seq<Definition<Asn>>) -> bool {
    forall|i: int| 0 <= i < defs.len() ==> integers_fit(#[trigger] defs[i].1)
}

/// The Rust import made of `import`.
fn import_to_rust(import: &Import) -> (r: Import)
    ensures
        import_view(r) == rust_import(*import),
{
    let mut what: Vec<String> = Vec::new();
    let mut i: usize = 0;
    while i < import.what.len()
        invariant
            0 <= i <= import.what@.len(),
            what@.len() == i,
            names_view(what@) == import.what@.take(i as int).map_values(|w: String| variant_name(w@)),
        decreases import.what@.len() - i,
    {
        let ghost before = what@;
        what.push(rust_struct_or_enum_name(import.what[i].as_str()));
        proof {
            let f = |w: String| variant_name(w@);
            assert(names_view(what@) =~= names_view(before).push(what@[i as int]@));
            assert(import.what@.take(i + 1).map_values(f) =~= import.what@.take(i as int).map_values(f).push(
                f(import.what@[i as int]),
            ));
        }
        i = i + 1;
    }
    assert(import.what@.take(import.what@.len() as int) =~= import.what@);
    Import { what, from: rust_module_name(import.from.as_str()) }
}

impl Model<Rust> {
    /// The Rust model made of an ASN.1 model: the module name in snake case, the imports
    /// renamed, and the definitions as [`model_defs`] describes them.
    pub fn convert_asn_to_rust(asn_model: &Model<Asn>) -> (model: Model<Rust>)
        requires
            model_fits(asn_model.definitions@),
        ensures
            model.name@ == module_name(asn_model.name@),
            model.imports@.map_values(|i: Import| import_view(i)) == asn_model.imports@.map_values(
                |i: Import| rust_import(i),
            ),
            definitions_view(model.definitions@) == model_defs(asn_model.definitions@),
    {
        let mut imports: Vec<Import> = Vec::new();
        let mut i: usize = 0;
        while i < asn_model.imports.len()
            invariant
                0 <= i <= asn_model.imports@.len(),
                imports@.len() == i,
                imports@.map_values(|i: Import| import_view(i)) == asn_model.imports@.take(
                    i as int,
                ).map_values(|i: Import| rust_import(i)),
            decreases asn_model.imports@.len() - i,
        {
            let ghost before = imports@;
            imports.push(import_to_rust(&asn_model.imports[i]));
            proof {
                let f = |i: Import| import_view(i);
                let g = |i: Import| rust_import(i);
                assert(imports@.map_values(f) =~= before.map_values(f).push(f(imports@[i as int])));
                assert(asn_model.imports@.take(i + 1).map_values(g) =~= asn_model.imports@.take(
                    i as int,
                ).map_values(g).push(g(asn_model.imports@[i as int])));
            }
            i = i + 1;
        }
        assert(asn_model.imports@.take(asn_model.imports@.len() as int) =~= asn_model.imports@);
        let mut definitions: Vec<Definition<Rust>> = Vec::new();
        let mut k: usize = 0;
        while k < asn_model.definitions.len()
            invariant
                0 <= k <= asn_model.definitions@.len(),
                model_fits(asn_model.definitions@),
                definitions_view(definitions@) == model_defs(asn_model.definitions@.take(k as int)),
            decreases asn_model.definitions@.len() - k,
        {
            let definition = &asn_model.definitions[k];
            proof {
                let taken = asn_model.definitions@.take(k + 1);
                assert(taken.drop_last() =~= asn_model.definitions@.take(k as int));
                assert(integers_fit(asn_model.definitions@[k as int].1));
            }
            let rust_name = rust_struct_or_enum_name(definition.0.as_str());
            Self::definition_to_rust(rust_name.as_str(), &definition.1, &mut definitions);
            k = k + 1;
        }
        assert(asn_model.definitions@.take(asn_model.definitions@.len() as int) =~= asn_model.definitions@);
        Model { name: rust_module_name(asn_model.name.as_str()), imports, definitions }
    }
}

impl Model<Asn> {
    /// The Rust model made of this model, as [`Model::convert_asn_to_rust`] makes it.
    pub fn to_rust(&self) -> (model: Model<Rust>)
        requires
            model_fits(self.definitions@),
        ensures
            model.name@ == module_name(self.name@),
            model.imports@.map_values(|i: Import| import_view(i)) == self.imports@.map_values(
                |i: Import| rust_import(i),
            ),
            definitions_view(model.definitions@) == model_defs(self.definitions@),
    {
        Model::<Rust>::convert_asn_to_rust(self)
    }
}


/// Whether every integer range within `asn` fits (see [`integers_fit`]).
fn asn_integers_fit(asn: &Asn) -> (b: bool)
    ensures
        b == integers_fit(*asn),
    decreases asn_size(*asn),
{
    match asn {
        Asn::Integer(Some(r)) => r.0 > i64::MIN + 1,
        Asn::SequenceOf(inner) => asn_integers_fit(inner),
        Asn::Sequence(fields) => {
            let mut ok = true;
            let mut i: usize = 0;
            while i < fields.len()
                invariant
                    0 <= i <= fields@.len(),
                    asn_size(*asn) == 1 + fields_size(fields@),
                    ok == fields_fit(fields@.take(i as int)),
                decreases fields@.len() - i,
            {
                proof {
                    lemma_field_within(fields@, i as int);
                    assert(fields@.take(i + 1).drop_last() =~= fields@.take(i as int));
                }
                let fits = asn_integers_fit(&fields[i].role);
                ok = ok && fits;
                i = i + 1;
            }
            assert(fields@.take(i as int) =~= fields@);
            ok
        },
        Asn::Choice(entries) => {
            let mut ok = true;
            let mut i: usize = 0;
            while i < entries.len()
                invariant
                    0 <= i <= entries@.len(),
                    asn_size(*asn) == 1 + entries_size(entries@),
                    ok == entries_fit(entries@.take(i as int)),
                decreases entries@.len() - i,
            {
                proof {
                    lemma_entry_within(entries@, i as int);
                    assert(entries@.take(i + 1).drop_last() =~= entries@.take(i as int));
                }
                let fits = asn_integers_fit(&entries[i].1);
                ok = ok && fits;
                i = i + 1;
            }
            assert(entries@.take(i as int) =~= entries@);
            ok
        },
        _ => true,
    }
}

impl Model<Asn> {
    /// Whether every integer range of every definition fits (see [`model_fits`]), as
    /// [`Model::to_rust`] requires.
    pub fn integers_fit(&self) -> (b: bool)
        ensures
            b == model_fits(self.definitions@),
    {
        let mut i: usize = 0;
        while i < self.definitions.len()
            invariant
                0 <= i <= self.definitions@.len(),
                forall|j: int| 0 <= j < i ==> integers_fit(#[trigger] self.definitions@[j].1),
            decreases self.definitions@.len() - i,
        {
            if !asn_integers_fit(&self.definitions[i].1) {
                return false;
            }
            i = i + 1;
        }
        true
    }
}


/// The range a Rust integer type carries, if it carries one.
pub open spec fn rust_range_of(t: RustTypeView) -> Option<(int, int)> {
    match t {
        RustTypeView::U8(r) => Some((r.0 as int, r.1 as int)),
        RustTypeView::I8(r) => Some((r.0 as int, r.1 as int)),
        RustTypeView::U16(r) => Some((r.0 as int, r.1 as int)),
        RustTypeView::I16(r) => Some((r.0 as int, r.1 as int)),
        RustTypeView::U32(r) => Some((r.0 as int, r.1 as int)),
        RustTypeView::I32(r) => Some((r.0 as int, r.1 as int)),
        RustTypeView::U64(Some(r)) => Some((r.0 as int, r.1 as int)),
        RustTypeView::I64(r) => Some((r.0 as int, r.1 as int)),
        _ => None,
    }
}

/// The Rust integer type of an ASN.1 integer between `min` and `max` keeps both bounds: its
/// range is exactly `min..=max`.
pub proof fn lemma_integer_type_keeps_bounds(min: i64, max: i64)
    requires
        min <= max,
        min > i64::MIN + 1,
    ensures
        rust_range_of(integer_type(min, max)) == Some((min as int, max as int)),
{
}

} // verus!
