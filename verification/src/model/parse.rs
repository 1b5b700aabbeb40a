//! Reading a module of ASN.1 definitions from its tokens.
//!
//! The grammar is stated over token values by the spec functions ending in `_at`; each takes the
//! tokens and a position and gives what is read there with the position behind it, or the error.
use vstd::prelude::*;

use super::{
    nice_name, Asn, ChoiceEntry, Definition, Enumerated, EnumeratedVariant, Error, Field, Import,
    Model, Range,
};
use crate::parser::{ascii_lower, eq_ignore_ascii_case, text_eq_ignore_ascii_case as eq_ic, Token, TokenView};

verus! {

/// An ASN.1 type as a value.
pub enum AsnView {
    Boolean,
    Integer(Option<(i64, i64)>),
    UTF8String,
    OctetString,
    SequenceOf(Box<AsnView>),
    Sequence(Seq<FieldView>),
    Enumerated(Seq<(Seq<char>, Option<usize>)>, Option<usize>),
    Choice(Seq<(Seq<char>, AsnView)>),
    TypeReference(Seq<char>),
}

/// A field of a sequence as a value.
pub struct FieldView {
    pub name: Seq<char>,
    pub role: AsnView,
    pub optional: bool,
}

/// An import as a value.
pub struct ImportView {
    pub what: Seq<Seq<char>>,
    pub from: Seq<char>,
}

/// A module of ASN.1 definitions as a value.
pub struct ModelView {
    pub name: Seq<char>,
    pub imports: Seq<ImportView>,
    pub definitions: Seq<(Seq<char>, AsnView)>,
}

/// An error of reading tokens as a value.
pub enum ErrorView {
    ExpectedText(TokenView),
    ExpectedTextGot(Seq<char>, TokenView),
    ExpectedSeparator(TokenView),
    ExpectedSeparatorGot(char, TokenView),
    UnexpectedToken(TokenView),
    MissingModuleName,
    UnexpectedEndOfStream,
    InvalidRangeValue(TokenView),
    InvalidNumberForEnumVariant(TokenView),
}

/// The value of an ASN.1 type.
pub open spec fn asn_view(a: Asn) -> AsnView
    decreases a,
{
    match a {
        Asn::Boolean => AsnView::Boolean,
        Asn::Integer(r) => AsnView::Integer(
            match r {
                Some(range) => Some((range.0, range.1)),
                None => None,
            },
        ),
        Asn::UTF8String => AsnView::UTF8String,
        Asn::OctetString => AsnView::OctetString,
        Asn::SequenceOf(inner) => AsnView::SequenceOf(Box::new(asn_view(*inner))),
        Asn::Sequence(fields) => AsnView::Sequence(fields_view(fields@)),
        Asn::Enumerated(e) => AsnView::Enumerated(variants_view(e.variants_spec()), e.default_spec()),
        Asn::Choice(entries) => AsnView::Choice(entries_view(entries@)),
        Asn::TypeReference(name) => AsnView::TypeReference(name@),
    }
}

/// The values of the fields of a sequence.
pub open spec fn fields_view(fields: Seq<Field<Asn>>) -> Seq<FieldView>
    decreases fields,
{
    if fields.len() == 0 {
        Seq::empty()
    } else {
        let f = fields[fields.len() - 1];
        fields_view(fields.subrange(0, fields.len() - 1)).push(
            FieldView { name: f.name@, role: asn_view(f.role), optional: f.optional },
        )
    }
}

/// The values of the entries of a choice.
pub open spec fn entries_view(entries: Seq<ChoiceEntry>) -> Seq<(Seq<char>, AsnView)>
    decreases entries,
{
    if entries.len() == 0 {
        Seq::empty()
    } else {
        let e = entries[entries.len() - 1];
        entries_view(entries.subrange(0, entries.len() - 1)).push((e.0@, asn_view(e.1)))
    }
}

/// The names and numbers of the variants of an enumeration.
pub open spec fn variants_view(variants: Seq<EnumeratedVariant>) -> Seq<(Seq<char>, Option<usize>)> {
    variants.map_values(|v: EnumeratedVariant| (v.name_spec(), v.number_spec()))
}

/// The value of an import.
pub open spec fn import_value(i: Import) -> ImportView {
    ImportView { what: i.what@.map_values(|s: String| s@), from: i.from@ }
}

/// The value of a module of ASN.1 definitions.
pub open spec fn model_view(m: Model<Asn>) -> ModelView {
    ModelView {
        name: m.name@,
        imports: m.imports@.map_values(|i: Import| import_value(i)),
        definitions: m.definitions@.map_values(|d: Definition<Asn>| (d.0@, asn_view(d.1))),
    }
}

/// The value of an error.
pub open spec fn error_view(e: Error) -> ErrorView {
    match e {
        Error::ExpectedText(t) => ErrorView::ExpectedText(t@),
        Error::ExpectedTextGot(s, t) => ErrorView::ExpectedTextGot(s@, t@),
        Error::ExpectedSeparator(t) => ErrorView::ExpectedSeparator(t@),
        Error::ExpectedSeparatorGot(c, t) => ErrorView::ExpectedSeparatorGot(c, t@),
        Error::UnexpectedToken(t) => ErrorView::UnexpectedToken(t@),
        Error::MissingModuleName => ErrorView::MissingModuleName,
        Error::UnexpectedEndOfStream => ErrorView::UnexpectedEndOfStream,
        Error::InvalidRangeValue(t) => ErrorView::InvalidRangeValue(t@),
        Error::InvalidNumberForEnumVariant(t) => ErrorView::InvalidNumberForEnumVariant(t@),
    }
}

/// A module with its name and the modules it imports from made nice (see [`nice_name`]).
pub open spec fn nice_model(m: ModelView) -> ModelView {
    ModelView {
        name: nice_name(m.name),
        imports: m.imports.map_values(|i: ImportView| ImportView { what: i.what, from: nice_name(i.from) }),
        definitions: m.definitions,
    }
}

// Numbers in text.

/// Whether `c` is a decimal digit.
pub open spec fn is_digit(c: char) -> bool {
    '0' <= c <= '9'
}

/// Whether `s` holds decimal digits only.
pub open spec fn all_digits(s: Seq<char>) -> bool {
    forall|i: int| 0 <= i < s.len() ==> is_digit(#[trigger] s[i])
}

/// The number that the decimal digits `s` write.
pub open spec fn digits_value(s: Seq<char>) -> nat
    decreases s.len(),
{
    if s.len() == 0 {
        0
    } else {
        digits_value(s.drop_last()) * 10 + ((s.last() as nat) - ('0' as nat)) as nat
    }
}

/// The digits of a number in text behind an optional sign, and whether the sign is a minus.
pub open spec fn unsigned_part(s: Seq<char>, signed: bool) -> (bool, Seq<char>) {
    if s.len() > 0 && s[0] == '-' && signed {
        (true, s.drop_first())
    } else if s.len() > 0 && s[0] == '+' {
        (false, s.drop_first())
    } else {
        (false, s)
    }
}

/// The `i64` that a text writes in decimal, with an optional sign, if it writes one.
pub open spec fn parse_i64(s: Seq<char>) -> Option<i64> {
    let (negative, digits) = unsigned_part(s, true);
    if digits.len() > 0 && all_digits(digits) && (if negative {
        digits_value(digits) <= 0x8000_0000_0000_0000
    } else {
        digits_value(digits) <= i64::MAX
    }) {
        Some(
            if negative {
                (0 - digits_value(digits)) as i64
            } else {
                digits_value(digits) as i64
            },
        )
    } else {
        None
    }
}

/// The `usize` that a text writes in decimal, with an optional plus sign, if it writes one.
pub open spec fn parse_usize(s: Seq<char>) -> Option<usize> {
    let (_, digits) = unsigned_part(s, false);
    if digits.len() > 0 && all_digits(digits) && digits_value(digits) <= usize::MAX {
        Some(digits_value(digits) as usize)
    } else {
        None
    }
}

// Tokens.

/// Whether a token is the separator `c`.
pub open spec fn is_sep(t: TokenView, c: char) -> bool {
    t matches TokenView::Separator(_, s) && s == c
}

/// Whether a token is the text `s` when ASCII letters are compared without their case.
pub open spec fn is_text_ic(t: TokenView, s: Seq<char>) -> bool {
    t matches TokenView::Text(_, x) && eq_ignore_ascii_case(x, s)
}

/// The token at `p`.
pub open spec fn next_at(t: Seq<TokenView>, p: int) -> Result<(TokenView, int), ErrorView> {
    if 0 <= p < t.len() {
        Ok((t[p], p + 1))
    } else {
        Err(ErrorView::UnexpectedEndOfStream)
    }
}

/// The separator `c` at `p`, its case aside.
pub open spec fn separator_at(t: Seq<TokenView>, p: int, c: char) -> Result<int, ErrorView> {
    match next_at(t, p) {
        Ok((tok, q)) => if tok matches TokenView::Separator(_, s) && ascii_lower(s) == ascii_lower(
            c,
        ) {
            Ok(q)
        } else {
            Err(ErrorView::ExpectedSeparatorGot(c, tok))
        },
        Err(e) => Err(e),
    }
}

/// The text at `p`.
pub open spec fn text_at(t: Seq<TokenView>, p: int) -> Result<(Seq<char>, int), ErrorView> {
    match next_at(t, p) {
        Ok((tok, q)) => match tok {
            TokenView::Text(_, s) => Ok((s, q)),
            TokenView::Separator(_, _) => Err(ErrorView::ExpectedText(tok)),
        },
        Err(e) => Err(e),
    }
}

/// The number that a token writes as a bound of a range.
pub open spec fn bound_of(tok: TokenView) -> Option<i64> {
    match tok {
        TokenView::Text(_, s) => parse_i64(s),
        TokenView::Separator(_, _) => None,
    }
}

/// `INTEGER` read, its range at `p`: `(lower..upper)`, where `(0..MAX)` stands for no range.
pub open spec fn integer_at(t: Seq<TokenView>, p: int) -> Result<(AsnView, int), ErrorView> {
    match separator_at(t, p, '(') {
        Err(e) => Err(e),
        Ok(p1) => match next_at(t, p1) {
            Err(e) => Err(e),
            Ok((start, p2)) => match separator_at(t, p2, '.') {
                Err(e) => Err(e),
                Ok(p3) => match separator_at(t, p3, '.') {
                    Err(e) => Err(e),
                    Ok(p4) => match next_at(t, p4) {
                        Err(e) => Err(e),
                        Ok((end, p5)) => match separator_at(t, p5, ')') {
                            Err(e) => Err(e),
                            Ok(p6) => if start matches TokenView::Text(_, s) && s == "0"@
                                && is_text_ic(end, "MAX"@) {
                                Ok((AsnView::Integer(None), p6))
                            } else {
                                match bound_of(start) {
                                    None => Err(ErrorView::InvalidRangeValue(start)),
                                    Some(lower) => match bound_of(end) {
                                        None => Err(ErrorView::InvalidRangeValue(end)),
                                        Some(upper) => Ok(
                                            (AsnView::Integer(Some((lower, upper))), p6),
                                        ),
                                    },
                                }
                            },
                        },
                    },
                },
            },
        },
    }
}

/// `OCTET` read, `STRING` at `p`.
pub open spec fn octet_string_at(t: Seq<TokenView>, p: int) -> Result<(AsnView, int), ErrorView> {
    match next_at(t, p) {
        Err(e) => Err(e),
        Ok((tok, q)) => if tok matches TokenView::Text(_, s) && s == "STRING"@ {
            Ok((AsnView::OctetString, q))
        } else {
            Err(ErrorView::UnexpectedToken(tok))
        },
    }
}

/// A type at `p`: its name, then what that name asks for.
pub open spec fn role_at(t: Seq<TokenView>, p: int) -> Result<(AsnView, int), ErrorView>
    decreases t.len() - p, 0nat,
{
    if 0 <= p < t.len() {
        match text_at(t, p) {
            Ok((s, q)) => role_given_at(t, q, s),
            Err(e) => Err(e),
        }
    } else {
        Err(ErrorView::UnexpectedEndOfStream)
    }
}

/// The type named `s`, with what the name asks for at `p`.
pub open spec fn role_given_at(t: Seq<TokenView>, p: int, s: Seq<char>) -> Result<
    (AsnView, int),
    ErrorView,
>
    decreases t.len() - p, 1nat,
{
    if !(0 <= p <= t.len()) {
        Err(ErrorView::UnexpectedEndOfStream)
    } else if eq_ignore_ascii_case(s, "INTEGER"@) {
        integer_at(t, p)
    } else if eq_ignore_ascii_case(s, "BOOLEAN"@) {
        Ok((AsnView::Boolean, p))
    } else if eq_ignore_ascii_case(s, "UTF8String"@) {
        Ok((AsnView::UTF8String, p))
    } else if eq_ignore_ascii_case(s, "OCTET"@) {
        octet_string_at(t, p)
    } else if eq_ignore_ascii_case(s, "CHOICE"@) {
        choice_at(t, p)
    } else if eq_ignore_ascii_case(s, "ENUMERATED"@) {
        enumerated_at(t, p)
    } else if eq_ignore_ascii_case(s, "SEQUENCE"@) {
        sequence_at(t, p)
    } else {
        Ok((AsnView::TypeReference(s), p))
    }
}

/// `SEQUENCE` read, what follows at `p`: `OF` and a type, or fields in braces.
pub open spec fn sequence_at(t: Seq<TokenView>, p: int) -> Result<(AsnView, int), ErrorView>
    decreases t.len() - p, 0nat,
{
    if !(0 <= p < t.len()) {
        Err(ErrorView::UnexpectedEndOfStream)
    } else {
        let tok = t[p];
        if is_text_ic(tok, "OF"@) {
            match role_at(t, p + 1) {
                Ok((r, q)) => Ok((AsnView::SequenceOf(Box::new(r)), q)),
                Err(e) => Err(e),
            }
        } else if is_sep(tok, '{') {
            match fields_at(t, p + 1, Seq::empty()) {
                Ok((fields, q)) => Ok((AsnView::Sequence(fields), q)),
                Err(e) => Err(e),
            }
        } else {
            Err(ErrorView::UnexpectedToken(tok))
        }
    }
}

/// `CHOICE` read, its entries in braces at `p`.
pub open spec fn choice_at(t: Seq<TokenView>, p: int) -> Result<(AsnView, int), ErrorView>
    decreases t.len() - p, 0nat,
{
    match separator_at(t, p, '{') {
        Err(e) => Err(e),
        Ok(q) => if 0 <= q <= t.len() && q > p {
            match fields_at(t, q, Seq::empty()) {
                Ok((fields, r)) => Ok(
                    (
                        AsnView::Choice(
                            fields.map_values(|f: FieldView| (f.name, f.role)),
                        ),
                        r,
                    ),
                ),
                Err(e) => Err(e),
            }
        } else {
            Err(ErrorView::UnexpectedEndOfStream)
        },
    }
}

/// The fields at `p` behind those read already, `read`, up to the closing brace.
pub open spec fn fields_at(t: Seq<TokenView>, p: int, read: Seq<FieldView>) -> Result<
    (Seq<FieldView>, int),
    ErrorView,
>
    decreases t.len() - p, 1nat,
{
    if !(0 <= p <= t.len()) {
        Err(ErrorView::UnexpectedEndOfStream)
    } else {
        match field_at(t, p) {
            Err(e) => Err(e),
            Ok((f, continues, q)) => if !continues {
                Ok((read.push(f), q))
            } else if p < q <= t.len() {
                fields_at(t, q, read.push(f))
            } else {
                Err(ErrorView::UnexpectedEndOfStream)
            },
        }
    }
}

/// A field at `p`: its name, its type, a text that makes it optional, and a comma or a closing
/// brace, which says whether more fields follow.
pub open spec fn field_at(t: Seq<TokenView>, p: int) -> Result<(FieldView, bool, int), ErrorView>
    decreases t.len() - p, 0nat,
{
    if !(0 <= p < t.len()) {
        Err(ErrorView::UnexpectedEndOfStream)
    } else {
        match text_at(t, p) {
            Err(e) => Err(e),
            Ok((name, p1)) => match role_at(t, p1) {
                Err(e) => Err(e),
                Ok((role, p2)) => match next_at(t, p2) {
                    Err(e) => Err(e),
                    Ok((tok, p3)) => {
                        let after = if tok is Text {
                            match next_at(t, p3) {
                                Err(e) => Err(e),
                                Ok((tok2, p4)) => Ok((tok2, p4)),
                            }
                        } else {
                            Ok((tok, p3))
                        };
                        match after {
                            Err(e) => Err(e),
                            Ok((end, q)) => {
                                let f = FieldView { name, role, optional: tok is Text };
                                if is_sep(end, ',') {
                                    Ok((f, true, q))
                                } else if is_sep(end, '}') {
                                    Ok((f, false, q))
                                } else {
                                    Err(ErrorView::UnexpectedToken(end))
                                }
                            },
                        }
                    },
                },
            },
        }
    }
}

/// `ENUMERATED` read, its variants in braces at `p`.
pub open spec fn enumerated_at(t: Seq<TokenView>, p: int) -> Result<(AsnView, int), ErrorView> {
    match separator_at(t, p, '{') {
        Err(e) => Err(e),
        Ok(q) => match variants_at(t, q, Seq::empty(), None) {
            Err(e) => Err(e),
            Ok((variants, default, r)) => Ok((AsnView::Enumerated(variants, default), r)),
        },
    }
}

/// What follows a variant or an extension marker at `p`: a comma for more, or the closing
/// brace.
pub open spec fn variant_end_at(t: Seq<TokenView>, p: int) -> Result<(bool, int), ErrorView> {
    match next_at(t, p) {
        Err(e) => Err(e),
        Ok((tok, q)) => if is_sep(tok, ',') {
            Ok((true, q))
        } else if is_sep(tok, '}') {
            Ok((false, q))
        } else {
            Err(ErrorView::UnexpectedToken(tok))
        },
    }
}

/// The variants at `p` behind those read already, `read`, and the index of the variant before
/// the extension marker `...`, up to the closing brace.
pub open spec fn variants_at(
    t: Seq<TokenView>,
    p: int,
    read: Seq<(Seq<char>, Option<usize>)>,
    default: Option<usize>,
) -> Result<(Seq<(Seq<char>, Option<usize>)>, Option<usize>, int), ErrorView>
    decreases t.len() - p,
{
    if !(0 <= p < t.len()) {
        Err(ErrorView::UnexpectedEndOfStream)
    } else {
        let tok = t[p];
        if is_sep(tok, '.') && read.len() > 0 {
            match separator_at(t, p + 1, '.') {
                Err(e) => Err(e),
                Ok(p2) => match separator_at(t, p2, '.') {
                    Err(e) => Err(e),
                    Ok(p3) => {
                        let d = Some((read.len() - 1) as usize);
                        match variant_end_at(t, p3) {
                            Err(e) => Err(e),
                            Ok((more, q)) => if !more {
                                Ok((read, d, q))
                            } else if q <= t.len() {
                                variants_at(t, q, read, d)
                            } else {
                                Err(ErrorView::UnexpectedEndOfStream)
                            },
                        }
                    },
                },
            }
        } else {
            match tok {
                TokenView::Separator(_, _) => Err(ErrorView::ExpectedText(tok)),
                TokenView::Text(_, name) => match next_at(t, p + 1) {
                    Err(e) => Err(e),
                    Ok((tok2, p2)) => {
                        let numbered = if is_sep(tok2, ',') || is_sep(tok2, '}') {
                            Ok((None, p + 1))
                        } else if is_sep(tok2, '(') {
                            match next_at(t, p2) {
                                Err(e) => Err(e),
                                Ok((num, p3)) => match (
                                    match num {
                                        TokenView::Text(_, s) => parse_usize(s),
                                        TokenView::Separator(_, _) => None,
                                    }
                                ) {
                                    None => Err(ErrorView::InvalidNumberForEnumVariant(num)),
                                    Some(n) => match separator_at(t, p3, ')') {
                                        Err(e) => Err(e),
                                        Ok(p4) => Ok((Some(n), p4)),
                                    },
                                },
                            }
                        } else {
                            Err(ErrorView::UnexpectedToken(tok2))
                        };
                        match numbered {
                            Err(e) => Err(e),
                            Ok((number, p5)) => {
                                let read2 = read.push((name, number));
                                match variant_end_at(t, p5) {
                                    Err(e) => Err(e),
                                    Ok((more, q)) => if !more {
                                        Ok((read2, default, q))
                                    } else if p < q <= t.len() {
                                        variants_at(t, q, read2, default)
                                    } else {
                                        Err(ErrorView::UnexpectedEndOfStream)
                                    },
                                }
                            },
                        }
                    },
                },
            }
        }
    }
}


/// A definition named `name`, at `p`: `::=` and its type.
pub open spec fn definition_at(t: Seq<TokenView>, p: int, name: Seq<char>) -> Result<
    ((Seq<char>, AsnView), int),
    ErrorView,
> {
    match separator_at(t, p, ':') {
        Err(e) => Err(e),
        Ok(p1) => match separator_at(t, p1, ':') {
            Err(e) => Err(e),
            Ok(p2) => match separator_at(t, p2, '=') {
                Err(e) => Err(e),
                Ok(p3) => match next_at(t, p3) {
                    Err(e) => Err(e),
                    Ok((tok, q)) => {
                        let role = match tok {
                            TokenView::Text(_, s) => if s == "SEQUENCE"@ {
                                sequence_at(t, q)
                            } else if eq_ignore_ascii_case(s, "ENUMERATED"@) {
                                enumerated_at(t, q)
                            } else if eq_ignore_ascii_case(s, "CHOICE"@) {
                                choice_at(t, q)
                            } else {
                                role_given_at(t, q, s)
                            },
                            TokenView::Separator(_, _) => Err(ErrorView::UnexpectedToken(tok)),
                        };
                        match role {
                            Err(e) => Err(e),
                            Ok((r, end)) => Ok(((name, r), end)),
                        }
                    },
                },
            },
        },
    }
}

/// An import that names nothing yet.
pub open spec fn no_import() -> ImportView {
    ImportView { what: Seq::empty(), from: Seq::empty() }
}

/// The imports at `p` behind those read already, `read`, and the names of the one being read,
/// `current`, up to the semicolon. A name is followed by a comma, by `FROM` and the module's
/// name, which ends an import, or by another token, which is passed over.
pub open spec fn imports_at(
    t: Seq<TokenView>,
    p: int,
    read: Seq<ImportView>,
    current: ImportView,
) -> Result<(Seq<ImportView>, int), ErrorView>
    decreases t.len() - p,
{
    if !(0 <= p < t.len()) {
        Err(ErrorView::UnexpectedEndOfStream)
    } else {
        let tok = t[p];
        if is_sep(tok, ';') {
            Ok((read, p + 1))
        } else {
            match tok {
                TokenView::Separator(_, _) => Err(ErrorView::UnexpectedToken(tok)),
                TokenView::Text(_, name) => {
                    let current2 = ImportView { what: current.what.push(name), from: current.from };
                    match next_at(t, p + 1) {
                        Err(e) => Err(e),
                        Ok((tok2, p2)) => if is_text_ic(tok2, "FROM"@) {
                            match next_at(t, p2) {
                                Err(e) => Err(e),
                                Ok((tok3, p3)) => match tok3 {
                                    TokenView::Separator(_, _) => Err(
                                        ErrorView::UnexpectedToken(tok3),
                                    ),
                                    TokenView::Text(_, from) => imports_at(
                                        t,
                                        p3,
                                        read.push(ImportView { what: current2.what, from }),
                                        no_import(),
                                    ),
                                },
                            }
                        } else {
                            imports_at(t, p2, read, current2)
                        },
                    }
                },
            }
        }
    }
}

/// The position behind the first `BEGIN` at or after `p`.
pub open spec fn begin_at(t: Seq<TokenView>, p: int) -> Result<int, ErrorView>
    decreases t.len() - p,
{
    if !(0 <= p < t.len()) {
        Err(ErrorView::UnexpectedEndOfStream)
    } else if is_text_ic(t[p], "BEGIN"@) {
        Ok(p + 1)
    } else {
        begin_at(t, p + 1)
    }
}

/// The module read so far, `m`, completed by the imports and definitions at `p` up to `END`.
pub open spec fn body_at(t: Seq<TokenView>, p: int, m: ModelView) -> Result<ModelView, ErrorView>
    decreases t.len() - p,
{
    if !(0 <= p < t.len()) {
        Err(ErrorView::UnexpectedEndOfStream)
    } else {
        let tok = t[p];
        if is_text_ic(tok, "END"@) {
            Ok(nice_model(m))
        } else if is_text_ic(tok, "IMPORTS"@) {
            match imports_at(t, p + 1, Seq::empty(), no_import()) {
                Err(e) => Err(e),
                Ok((imports, q)) => if p < q <= t.len() {
                    body_at(
                        t,
                        q,
                        ModelView {
                            name: m.name,
                            imports: m.imports + imports,
                            definitions: m.definitions,
                        },
                    )
                } else {
                    Err(ErrorView::UnexpectedEndOfStream)
                },
            }
        } else {
            match tok {
                TokenView::Separator(_, _) => Err(ErrorView::UnexpectedToken(tok)),
                TokenView::Text(_, name) => match definition_at(t, p + 1, name) {
                    Err(e) => Err(e),
                    Ok((d, q)) => if p < q <= t.len() {
                        body_at(
                            t,
                            q,
                            ModelView {
                                name: m.name,
                                imports: m.imports,
                                definitions: m.definitions.push(d),
                            },
                        )
                    } else {
                        Err(ErrorView::UnexpectedEndOfStream)
                    },
                },
            }
        }
    }
}

/// The module that the tokens `t` define: its name, then, behind `BEGIN`, its imports and
/// definitions up to `END`, with the names made nice.
pub open spec fn model_at(t: Seq<TokenView>) -> Result<ModelView, ErrorView> {
    if t.len() > 0 && t[0] is Text {
        match begin_at(t, 1) {
            Err(e) => Err(e),
            Ok(p) => body_at(
                t,
                p,
                ModelView { name: t[0]->Text_1, imports: Seq::empty(), definitions: Seq::empty() },
            ),
        }
    } else {
        Err(ErrorView::MissingModuleName)
    }
}


// Reading numbers.

proof fn lemma_digits_prefix(s: Seq<char>, k: int)
    requires
        all_digits(s),
        0 <= k <= s.len(),
    ensures
        digits_value(s.take(k)) <= digits_value(s),
    decreases s.len(),
{
    if k < s.len() {
        assert(all_digits(s.drop_last()));
        lemma_digits_prefix(s.drop_last(), k);
        assert(s.drop_last().take(k) =~= s.take(k));
    } else {
        assert(s.take(k) =~= s);
    }
}

/// The number that the decimal digits from `start` on write, if there are some, they are
/// digits only, and the number is at most `limit`.
fn digits_from(chars: &Vec<char>, start: usize, limit: u64) -> (r: Option<u64>)
    requires
        start <= chars@.len(),
    ensures
        ({
            let d = chars@.subrange(start as int, chars@.len() as int);
            r == if d.len() > 0 && all_digits(d) && digits_value(d) <= limit {
                Some(digits_value(d) as u64)
            } else {
                None::<u64>
            }
        }),
{
    let n = chars.len();
    let ghost d = chars@.subrange(start as int, n as int);
    if start == n {
        return None;
    }
    let mut v: u64 = 0;
    let mut i: usize = start;
    while i < n
        invariant
            n == chars@.len(),
            d == chars@.subrange(start as int, n as int),
            start <= i <= n,
            all_digits(chars@.subrange(start as int, i as int)),
            v == digits_value(chars@.subrange(start as int, i as int)),
            v <= limit,
        decreases n - i,
    {
        let c = chars[i];
        let ghost prefix = chars@.subrange(start as int, i + 1);
        proof {
            assert(prefix.drop_last() =~= chars@.subrange(start as int, i as int));
            assert(d.take(i + 1 - start) =~= prefix);
        }
        if !('0' <= c && c <= '9') {
            assert(!is_digit(d[i - start]));
            return None;
        }
        let digit = (c as u32 - '0' as u32) as u64;
        let next = match v.checked_mul(10) {
            Some(m) => m.checked_add(digit),
            None => None,
        };
        match next {
            Some(x) if x <= limit => {
                v = x;
            },
            _ => {
                proof {
                    if all_digits(d) {
                        lemma_digits_prefix(d, i + 1 - start);
                    }
                }
                return None;
            },
        }
        proof {
            assert forall|j: int| 0 <= j < prefix.len() implies is_digit(#[trigger] prefix[j]) by {
                if j < prefix.len() - 1 {
                    assert(prefix[j] == chars@.subrange(start as int, i as int)[j]);
                }
            }
        }
        i = i + 1;
    }
    Some(v)
}

/// The `i64` that `text` writes in decimal, with an optional sign, if it writes one.
fn parse_i64_text(text: &str) -> (r: Option<i64>)
    ensures
        r == parse_i64(text@),
{
    let chars = crate::parser::chars_of(text);
    let n = chars.len();
    if n > 0 && chars[0] == '-' {
        assert(text@.drop_first() =~= chars@.subrange(1, n as int));
        match digits_from(&chars, 1, 0x8000_0000_0000_0000) {
            Some(v) => if v == 0x8000_0000_0000_0000 {
                Some(i64::MIN)
            } else {
                Some(-(v as i64))
            },
            None => None,
        }
    } else if n > 0 && chars[0] == '+' {
        assert(text@.drop_first() =~= chars@.subrange(1, n as int));
        match digits_from(&chars, 1, 0x7FFF_FFFF_FFFF_FFFF) {
            Some(v) => Some(v as i64),
            None => None,
        }
    } else {
        assert(text@ =~= chars@.subrange(0, n as int));
        match digits_from(&chars, 0, 0x7FFF_FFFF_FFFF_FFFF) {
            Some(v) => Some(v as i64),
            None => None,
        }
    }
}

/// The `usize` that `text` writes in decimal, with an optional plus sign, if it writes one.
fn parse_usize_text(text: &str) -> (r: Option<usize>)
    ensures
        r == parse_usize(text@),
{
    let chars = crate::parser::chars_of(text);
    let n = chars.len();
    let start: usize = if n > 0 && chars[0] == '+' {
        assert(text@.drop_first() =~= chars@.subrange(1, n as int));
        1
    } else {
        assert(text@ =~= chars@.subrange(0, n as int));
        0
    };
    match digits_from(&chars, start, usize::MAX as u64) {
        Some(v) => Some(v as usize),
        None => None,
    }
}


// Reading tokens.

/// The tokens not read yet, the next one last, and all tokens as values.
struct Tokens {
    rev: Vec<Token>,
    all: Ghost<Seq<TokenView>>,
}

impl Tokens {
    /// The position of the next token among all.
    spec fn pos(&self) -> int {
        self.all@.len() - self.rev@.len()
    }

    spec fn wf(&self) -> bool {
        &&& self.rev@.len() <= self.all@.len()
        &&& forall|i: int| 0 <= i < self.rev@.len() ==> #[trigger] self.rev@[i]@ == self.all@[self.all@.len() - 1 - i]
    }

    fn new(tokens: Vec<Token>) -> (s: Self)
        ensures
            s.wf(),
            s.all@ == tokens@.map_values(|t: Token| t@),
            s.pos() == 0,
    {
        let ghost all = tokens@.map_values(|t: Token| t@);
        let mut tokens = tokens;
        let mut rev: Vec<Token> = Vec::new();
        while tokens.len() > 0
            invariant
                all.len() == tokens@.len() + rev@.len(),
                forall|i: int| 0 <= i < tokens@.len() ==> #[trigger] tokens@[i]@ == all[i],
                forall|i: int| 0 <= i < rev@.len() ==> #[trigger] rev@[i]@ == all[all.len() - 1 - i],
            decreases tokens@.len(),
        {
            let t = tokens.pop().unwrap();
            rev.push(t);
        }
        Tokens { rev, all: Ghost(all) }
    }

    /// The next token.
    fn next(&mut self) -> (r: Result<Token, Error>)
        requires
            old(self).wf(),
        ensures
            final(self).wf(),
            final(self).all@ == old(self).all@,
            match next_at(old(self).all@, old(self).pos()) {
                Ok((tok, q)) => r is Ok && r->Ok_0@ == tok && final(self).pos() == q,
                Err(e) => r is Err && error_view(r->Err_0) == e && final(self).pos() == old(self).pos(),
            },
    {
        match self.rev.pop() {
            Some(t) => Ok(t),
            None => Err(Error::UnexpectedEndOfStream),
        }
    }

    /// The separator `c` as the next token, its case aside.
    fn separator(&mut self, c: char) -> (r: Result<(), Error>)
        requires
            old(self).wf(),
        ensures
            final(self).wf(),
            final(self).all@ == old(self).all@,
            match separator_at(old(self).all@, old(self).pos(), c) {
                Ok(q) => r is Ok && final(self).pos() == q,
                Err(e) => r is Err && error_view(r->Err_0) == e,
            },
    {
        let tok = match self.next() {
            Ok(t) => t,
            Err(e) => return Err(e),
        };
        match tok {
            Token::Separator(l, s) => if crate::parser::to_ascii_lower(s)
                == crate::parser::to_ascii_lower(c) {
                Ok(())
            } else {
                Err(Error::ExpectedSeparatorGot(c, Token::Separator(l, s)))
            },
            _ => Err(Error::ExpectedSeparatorGot(c, tok)),
        }
    }

    /// The next token, which is to be a text.
    fn text(&mut self) -> (r: Result<String, Error>)
        requires
            old(self).wf(),
        ensures
            final(self).wf(),
            final(self).all@ == old(self).all@,
            match text_at(old(self).all@, old(self).pos()) {
                Ok((t, q)) => r is Ok && r->Ok_0@ == t && final(self).pos() == q,
                Err(e) => r is Err && error_view(r->Err_0) == e,
            },
    {
        match self.next() {
            Ok(Token::Text(_, t)) => Ok(t),
            Ok(tok) => Err(Error::ExpectedText(tok)),
            Err(e) => Err(e),
        }
    }
}


proof fn lemma_fields_view_push(fields: Seq<Field<Asn>>, f: Field<Asn>)
    ensures
        fields_view(fields.push(f)) == fields_view(fields).push(
            FieldView { name: f.name@, role: asn_view(f.role), optional: f.optional },
        ),
{
    assert(fields.push(f).subrange(0, fields.len() as int) =~= fields);
}

proof fn lemma_entries_view_push(entries: Seq<ChoiceEntry>, e: ChoiceEntry)
    ensures
        entries_view(entries.push(e)) == entries_view(entries).push((e.0@, asn_view(e.1))),
{
    assert(entries.push(e).subrange(0, entries.len() as int) =~= entries);
}

/// `INTEGER` read, its range.
fn read_integer(s: &mut Tokens) -> (r: Result<Asn, Error>)
    requires
        old(s).wf(),
    ensures
        final(s).wf(),
        final(s).all@ == old(s).all@,
        match integer_at(old(s).all@, old(s).pos()) {
            Ok((a, q)) => r is Ok && asn_view(r->Ok_0) == a && final(s).pos() == q,
            Err(e) => r is Err && error_view(r->Err_0) == e,
        },
{
    if let Err(e) = s.separator('(') {
        return Err(e);
    }
    let start = match s.next() {
        Ok(t) => t,
        Err(e) => return Err(e),
    };
    if let Err(e) = s.separator('.') {
        return Err(e);
    }
    if let Err(e) = s.separator('.') {
        return Err(e);
    }
    let end = match s.next() {
        Ok(t) => t,
        Err(e) => return Err(e),
    };
    if let Err(e) = s.separator(')') {
        return Err(e);
    }
    if start.eq_text("0") && end.eq_text_ignore_ascii_case("MAX") {
        return Ok(Asn::Integer(None));
    }
    let lower = match &start {
        Token::Text(_, t) => parse_i64_text(t.as_str()),
        Token::Separator(_, _) => None,
    };
    let lower = match lower {
        Some(v) => v,
        None => return Err(Error::InvalidRangeValue(start)),
    };
    let upper = match &end {
        Token::Text(_, t) => parse_i64_text(t.as_str()),
        Token::Separator(_, _) => None,
    };
    let upper = match upper {
        Some(v) => v,
        None => return Err(Error::InvalidRangeValue(end)),
    };
    Ok(Asn::Integer(Some(Range(lower, upper))))
}

/// `OCTET` read, `STRING`.
fn read_octet_string(s: &mut Tokens) -> (r: Result<Asn, Error>)
    requires
        old(s).wf(),
    ensures
        final(s).wf(),
        final(s).all@ == old(s).all@,
        match octet_string_at(old(s).all@, old(s).pos()) {
            Ok((a, q)) => r is Ok && asn_view(r->Ok_0) == a && final(s).pos() == q,
            Err(e) => r is Err && error_view(r->Err_0) == e,
        },
{
    let tok = match s.next() {
        Ok(t) => t,
        Err(e) => return Err(e),
    };
    if tok.eq_text("STRING") {
        Ok(Asn::OctetString)
    } else {
        Err(Error::UnexpectedToken(tok))
    }
}

/// A type: its name, then what that name asks for.
fn read_role(s: &mut Tokens) -> (r: Result<Asn, Error>)
    requires
        old(s).wf(),
    ensures
        final(s).wf(),
        final(s).all@ == old(s).all@,
        match role_at(old(s).all@, old(s).pos()) {
            Ok((a, q)) => r is Ok && asn_view(r->Ok_0) == a && final(s).pos() == q,
            Err(e) => r is Err && error_view(r->Err_0) == e,
        },
        r is Ok ==> final(s).pos() > old(s).pos(),
    decreases old(s).rev@.len(), 0nat,
{
    let text = match s.text() {
        Ok(t) => t,
        Err(e) => return Err(e),
    };
    read_role_given_text(s, text)
}

/// The type named `text`, with what the name asks for.
fn read_role_given_text(s: &mut Tokens, text: String) -> (r: Result<Asn, Error>)
    requires
        old(s).wf(),
    ensures
        final(s).wf(),
        final(s).all@ == old(s).all@,
        match role_given_at(old(s).all@, old(s).pos(), text@) {
            Ok((a, q)) => r is Ok && asn_view(r->Ok_0) == a && final(s).pos() == q,
            Err(e) => r is Err && error_view(r->Err_0) == e,
        },
        r is Ok ==> final(s).pos() >= old(s).pos(),
    decreases old(s).rev@.len(), 1nat,
{
    let t = text.as_str();
    if eq_ic(t, "INTEGER") {
        read_integer(s)
    } else if eq_ic(t, "BOOLEAN") {
        Ok(Asn::Boolean)
    } else if eq_ic(t, "UTF8String") {
        Ok(Asn::UTF8String)
    } else if eq_ic(t, "OCTET") {
        read_octet_string(s)
    } else if eq_ic(t, "CHOICE") {
        match read_choice(s) {
            Ok(entries) => Ok(Asn::Choice(entries)),
            Err(e) => Err(e),
        }
    } else if eq_ic(t, "ENUMERATED") {
        match read_enumerated(s) {
            Ok(e) => Ok(Asn::Enumerated(e)),
            Err(e) => Err(e),
        }
    } else if eq_ic(t, "SEQUENCE") {
        read_sequence_or_sequence_of(s)
    } else {
        Ok(Asn::TypeReference(text))
    }
}

/// `SEQUENCE` read, `OF` and a type, or fields in braces.
fn read_sequence_or_sequence_of(s: &mut Tokens) -> (r: Result<Asn, Error>)
    requires
        old(s).wf(),
    ensures
        final(s).wf(),
        final(s).all@ == old(s).all@,
        match sequence_at(old(s).all@, old(s).pos()) {
            Ok((a, q)) => r is Ok && asn_view(r->Ok_0) == a && final(s).pos() == q,
            Err(e) => r is Err && error_view(r->Err_0) == e,
        },
        r is Ok ==> final(s).pos() > old(s).pos(),
    decreases old(s).rev@.len(), 0nat,
{
    let tok = match s.next() {
        Ok(t) => t,
        Err(e) => return Err(e),
    };
    if tok.eq_text_ignore_ascii_case("OF") {
        match read_role(s) {
            Ok(inner) => Ok(Asn::SequenceOf(Box::new(inner))),
            Err(e) => Err(e),
        }
    } else if tok.eq_separator('{') {
        let ghost t = s.all@;
        let ghost p0 = s.pos();
        let ghost len0 = s.rev@.len();
        let mut fields: Vec<Field<Asn>> = Vec::new();
        loop
            invariant
                s.wf(),
                s.all@ == t,
                t == old(s).all@,
                p0 <= s.pos(),
                p0 == old(s).pos() + 1,
                0 <= old(s).pos() < t.len(),
                is_sep(t[old(s).pos()], '{'),
                s.rev@.len() <= len0,
                len0 < old(s).rev@.len(),
                fields_at(t, p0, Seq::empty()) == fields_at(t, s.pos(), fields_view(fields@)),
            decreases s.rev@.len(),
        {
            let ghost p = s.pos();
            let (field, continues) = match read_field(s) {
                Ok(fc) => fc,
                Err(e) => {
                    return Err(e);
                },
            };
            proof {
                lemma_fields_view_push(fields@, field);
            }
            fields.push(field);
            if !continues {
                return Ok(Asn::Sequence(fields));
            }
            assert(p < s.pos());
        }
    } else {
        Err(Error::UnexpectedToken(tok))
    }
}

/// `CHOICE` read, its entries in braces.
fn read_choice(s: &mut Tokens) -> (r: Result<Vec<ChoiceEntry>, Error>)
    requires
        old(s).wf(),
    ensures
        final(s).wf(),
        final(s).all@ == old(s).all@,
        match choice_at(old(s).all@, old(s).pos()) {
            Ok((a, q)) => r is Ok && AsnView::Choice(entries_view(r->Ok_0@)) == a && final(s).pos() == q,
            Err(e) => r is Err && error_view(r->Err_0) == e,
        },
        r is Ok ==> final(s).pos() > old(s).pos(),
    decreases old(s).rev@.len(), 0nat,
{
    if let Err(e) = s.separator('{') {
        return Err(e);
    }
    let ghost t = s.all@;
    let ghost p0 = s.pos();
    let ghost len0 = s.rev@.len();
    let ghost mut read: Seq<FieldView> = Seq::empty();
    let mut entries: Vec<ChoiceEntry> = Vec::new();
    loop
        invariant
            s.wf(),
            s.all@ == t,
            t == old(s).all@,
            p0 <= s.pos(),
            s.rev@.len() <= len0,
            len0 < old(s).rev@.len(),
            p0 == old(s).pos() + 1,
            separator_at(t, old(s).pos(), '{') == Ok::<int, ErrorView>(p0),
            fields_at(t, p0, Seq::empty()) == fields_at(t, s.pos(), read),
            entries_view(entries@) == read.map_values(|f: FieldView| (f.name, f.role)),
        decreases s.rev@.len(),
    {
        let ghost p = s.pos();
        let (field, continues) = match read_field(s) {
            Ok(fc) => fc,
            Err(e) => return Err(e),
        };
        let ghost fv = FieldView { name: field.name@, role: asn_view(field.role), optional: field.optional };
        let entry = ChoiceEntry(field.name, field.role);
        proof {
            lemma_entries_view_push(entries@, entry);
            assert(read.push(fv).map_values(|f: FieldView| (f.name, f.role)) =~= read.map_values(
                |f: FieldView| (f.name, f.role),
            ).push((fv.name, fv.role)));
            read = read.push(fv);
        }
        entries.push(entry);
        if !continues {
            return Ok(entries);
        }
        assert(p < s.pos());
    }
}

/// A field: its name, its type, a text that makes it optional, and a comma or a closing brace,
/// which says whether more fields follow.
fn read_field(s: &mut Tokens) -> (r: Result<(Field<Asn>, bool), Error>)
    requires
        old(s).wf(),
    ensures
        final(s).wf(),
        final(s).all@ == old(s).all@,
        match field_at(old(s).all@, old(s).pos()) {
            Ok((f, continues, q)) => r is Ok && r->Ok_0.1 == continues && FieldView {
                name: r->Ok_0.0.name@,
                role: asn_view(r->Ok_0.0.role),
                optional: r->Ok_0.0.optional,
            } == f && final(s).pos() == q,
            Err(e) => r is Err && error_view(r->Err_0) == e,
        },
        r is Ok ==> final(s).pos() > old(s).pos(),
    decreases old(s).rev@.len(), 0nat,
{
    let name = match s.text() {
        Ok(t) => t,
        Err(e) => return Err(e),
    };
    let role = match read_role(s) {
        Ok(r) => r,
        Err(e) => return Err(e),
    };
    let mut token = match s.next() {
        Ok(t) => t,
        Err(e) => return Err(e),
    };
    let mut optional = false;
    if token.is_text() {
        optional = true;
        token = match s.next() {
            Ok(t) => t,
            Err(e) => return Err(e),
        };
    }
    let continues = token.eq_separator(',');
    let ends = token.eq_separator('}');
    if continues || ends {
        Ok((Field { name, role, optional }, continues))
    } else {
        Err(Error::UnexpectedToken(token))
    }
}

/// `ENUMERATED` read, its variants in braces.
fn read_enumerated(s: &mut Tokens) -> (r: Result<Enumerated, Error>)
    requires
        old(s).wf(),
    ensures
        final(s).wf(),
        final(s).all@ == old(s).all@,
        match enumerated_at(old(s).all@, old(s).pos()) {
            Ok((a, q)) => r is Ok && AsnView::Enumerated(
                variants_view(r->Ok_0.variants_spec()),
                r->Ok_0.default_spec(),
            ) == a && final(s).pos() == q,
            Err(e) => r is Err && error_view(r->Err_0) == e,
        },
        r is Ok ==> final(s).pos() > old(s).pos(),
{
    if let Err(e) = s.separator('{') {
        return Err(e);
    }
    let ghost t = s.all@;
    let ghost p0 = s.pos();
    let mut variants: Vec<EnumeratedVariant> = Vec::new();
    let mut default: Option<usize> = None;
    assert(variants_view(variants@) =~= Seq::empty());
    loop
        invariant
            s.wf(),
            s.all@ == t,
            t == old(s).all@,
            p0 <= s.pos(),
            p0 == old(s).pos() + 1,
            separator_at(t, old(s).pos(), '{') == Ok::<int, ErrorView>(p0),
            variants_at(t, p0, Seq::empty(), None) == variants_at(
                t,
                s.pos(),
                variants_view(variants@),
                default,
            ),
        decreases s.rev@.len(),
    {
        let ghost p = s.pos();
        let ghost read = variants_view(variants@);
        let token = match s.next() {
            Ok(t) => t,
            Err(e) => return Err(e),
        };
        let more;
        if token.eq_separator('.') && variants.len() > 0 {
            if let Err(e) = s.separator('.') {
                return Err(e);
            }
            if let Err(e) = s.separator('.') {
                return Err(e);
            }
            default = Some(variants.len() - 1);
            let ctrl = match s.next() {
                Ok(t) => t,
                Err(e) => return Err(e),
            };
            if ctrl.eq_separator(',') {
                more = true;
            } else if ctrl.eq_separator('}') {
                more = false;
            } else {
                return Err(Error::UnexpectedToken(ctrl));
            }
        } else {
            let name = match token {
                Token::Text(_, t) => t,
                tok => return Err(Error::ExpectedText(tok)),
            };
            let token = match s.next() {
                Ok(t) => t,
                Err(e) => return Err(e),
            };
            let ctrl;
            if token.eq_separator(',') || token.eq_separator('}') {
                let v = EnumeratedVariant { name, number: None };
                proof {
                    assert(variants_view(variants@.push(v)) =~= read.push((v.name@, None)));
                }
                variants.push(v);
                ctrl = token;
            } else if token.eq_separator('(') {
                let num = match s.next() {
                    Ok(t) => t,
                    Err(e) => return Err(e),
                };
                let number = match &num {
                    Token::Text(_, t) => parse_usize_text(t.as_str()),
                    Token::Separator(_, _) => None,
                };
                let number = match number {
                    Some(n) => n,
                    None => return Err(Error::InvalidNumberForEnumVariant(num)),
                };
                if let Err(e) = s.separator(')') {
                    return Err(e);
                }
                let v = EnumeratedVariant { name, number: Some(number) };
                proof {
                    assert(variants_view(variants@.push(v)) =~= read.push((v.name@, Some(number))));
                }
                variants.push(v);
                ctrl = match s.next() {
                    Ok(t) => t,
                    Err(e) => return Err(e),
                };
            } else {
                return Err(Error::UnexpectedToken(token));
            }
            if ctrl.eq_separator(',') {
                more = true;
            } else if ctrl.eq_separator('}') {
                more = false;
            } else {
                return Err(Error::UnexpectedToken(ctrl));
            }
        }
        if !more {
            return Ok(Enumerated { variants, default });
        }
        assert(p < s.pos());
    }
}


/// A definition named `name`: `::=` and its type.
fn read_definition(s: &mut Tokens, name: String) -> (r: Result<Definition<Asn>, Error>)
    requires
        old(s).wf(),
    ensures
        final(s).wf(),
        final(s).all@ == old(s).all@,
        match definition_at(old(s).all@, old(s).pos(), name@) {
            Ok((d, q)) => r is Ok && (r->Ok_0.0@, asn_view(r->Ok_0.1)) == d && final(s).pos() == q,
            Err(e) => r is Err && error_view(r->Err_0) == e,
        },
        r is Ok ==> final(s).pos() > old(s).pos(),
{
    if let Err(e) = s.separator(':') {
        return Err(e);
    }
    if let Err(e) = s.separator(':') {
        return Err(e);
    }
    if let Err(e) = s.separator('=') {
        return Err(e);
    }
    let token = match s.next() {
        Ok(t) => t,
        Err(e) => return Err(e),
    };
    let text = match token {
        Token::Text(_, t) => t,
        tok => return Err(Error::UnexpectedToken(tok)),
    };
    let role = if crate::parser::text_eq(text.as_str(), "SEQUENCE") {
        read_sequence_or_sequence_of(s)
    } else if eq_ic(text.as_str(), "ENUMERATED") {
        match read_enumerated(s) {
            Ok(e) => Ok(Asn::Enumerated(e)),
            Err(e) => Err(e),
        }
    } else if eq_ic(text.as_str(), "CHOICE") {
        match read_choice(s) {
            Ok(entries) => Ok(Asn::Choice(entries)),
            Err(e) => Err(e),
        }
    } else {
        read_role_given_text(s, text)
    };
    match role {
        Ok(r) => Ok(Definition(name, r)),
        Err(e) => Err(e),
    }
}

/// The imports up to the semicolon, added to `imports`.
fn read_imports(s: &mut Tokens, imports: &mut Vec<Import>) -> (r: Result<(), Error>)
    requires
        old(s).wf(),
    ensures
        final(s).wf(),
        final(s).all@ == old(s).all@,
        match imports_at(old(s).all@, old(s).pos(), Seq::empty(), no_import()) {
            Ok((read, q)) => r is Ok && final(imports)@.map_values(|i: Import| import_value(i))
                == old(imports)@.map_values(|i: Import| import_value(i)) + read && final(s).pos()
                == q,
            Err(e) => r is Err && error_view(r->Err_0) == e,
        },
        r is Ok ==> final(s).pos() > old(s).pos(),
{
    let ghost t = s.all@;
    let ghost p0 = s.pos();
    let ghost before = imports@.map_values(|i: Import| import_value(i));
    let ghost mut read: Seq<ImportView> = Seq::empty();
    let mut import = Import { what: Vec::new(), from: String::new() };
    assert(import_value(import) == no_import()) by {
        assert(import.what@.map_values(|s: String| s@) =~= Seq::<Seq<char>>::empty());
    }
    loop
        invariant
            s.wf(),
            s.all@ == t,
            t == old(s).all@,
            p0 == old(s).pos(),
            p0 <= s.pos(),
            before == old(imports)@.map_values(|i: Import| import_value(i)),
            imports@.map_values(|i: Import| import_value(i)) == before + read,
            imports_at(t, p0, Seq::empty(), no_import()) == imports_at(
                t,
                s.pos(),
                read,
                import_value(import),
            ),
        decreases s.rev@.len(),
    {
        let ghost p = s.pos();
        let token = match s.next() {
            Ok(t) => t,
            Err(e) => return Err(e),
        };
        if token.eq_separator(';') {
            return Ok(());
        }
        let text = match token {
            Token::Text(_, t) => t,
            tok => return Err(Error::UnexpectedToken(tok)),
        };
        let ghost what = import.what@;
        import.what.push(text);
        proof {
            assert(import.what@.map_values(|s: String| s@) =~= what.map_values(|s: String| s@).push(
                text@,
            ));
        }
        let token = match s.next() {
            Ok(t) => t,
            Err(e) => return Err(e),
        };
        if token.eq_separator(',') {
        } else if token.eq_text_ignore_ascii_case("FROM") {
            let from = match s.next() {
                Ok(t) => t,
                Err(e) => return Err(e),
            };
            let from = match from {
                Token::Text(_, t) => t,
                tok => return Err(Error::UnexpectedToken(tok)),
            };
            import.from = from;
            let ghost done = import_value(import);
            let ghost old_imports = imports@;
            imports.push(import);
            proof {
                assert(imports@.map_values(|i: Import| import_value(i)) =~= old_imports.map_values(
                    |i: Import| import_value(i),
                ).push(done));
                assert(before + read.push(done) =~= (before + read).push(done));
                read = read.push(done);
            }
            import = Import { what: Vec::new(), from: String::new() };
            assert(import_value(import) == no_import()) by {
                assert(import.what@.map_values(|s: String| s@) =~= Seq::<Seq<char>>::empty());
            }
        }
        assert(p < s.pos());
    }
}

/// Passes over the tokens up to the first `BEGIN`.
fn skip_until_after_begin(s: &mut Tokens) -> (r: Result<(), Error>)
    requires
        old(s).wf(),
    ensures
        final(s).wf(),
        final(s).all@ == old(s).all@,
        match begin_at(old(s).all@, old(s).pos()) {
            Ok(q) => r is Ok && final(s).pos() == q,
            Err(e) => r is Err && error_view(r->Err_0) == e,
        },
{
    let ghost t = s.all@;
    let ghost p0 = s.pos();
    loop
        invariant
            s.wf(),
            s.all@ == t,
            t == old(s).all@,
            p0 == old(s).pos(),
            begin_at(t, p0) == begin_at(t, s.pos()),
        decreases s.rev@.len(),
    {
        let token = match s.next() {
            Ok(t) => t,
            Err(e) => return Err(e),
        };
        if token.eq_text_ignore_ascii_case("BEGIN") {
            return Ok(());
        }
    }
}

impl Model<Asn> {
    /// Reads a module of ASN.1 definitions from its tokens: its name, then, behind `BEGIN`, its
    /// imports and definitions up to `END`, with the names made nice (see
    /// [`Model::make_names_nice`]).
    pub fn try_from(value: Vec<Token>) -> (res: Result<Self, Error>)
        ensures
            match model_at(value@.map_values(|t: Token| t@)) {
                Ok(m) => res is Ok && model_view(res->Ok_0) == m,
                Err(e) => res is Err && error_view(res->Err_0) == e,
            },
    {
        let mut s = Tokens::new(value);
        let ghost t = s.all@;
        let name = match s.next() {
            Ok(Token::Text(_, name)) => name,
            _ => return Err(Error::MissingModuleName),
        };
        if let Err(e) = skip_until_after_begin(&mut s) {
            return Err(e);
        }
        let mut model = Model { name, imports: Vec::new(), definitions: Vec::new() };
        proof {
            assert(model_view(model).imports =~= Seq::<ImportView>::empty());
            assert(model_view(model).definitions =~= Seq::<(Seq<char>, AsnView)>::empty());
            assert(model_view(model) == ModelView {
                name: t[0]->Text_1,
                imports: Seq::empty(),
                definitions: Seq::empty(),
            });
        }
        let ghost p0 = s.pos();
        loop
            invariant
                s.wf(),
                s.all@ == t,
                t == value@.map_values(|t: Token| t@),
                model_at(t) == body_at(t, s.pos(), model_view(model)),
            decreases s.rev@.len(),
        {
            let ghost p = s.pos();
            let ghost before = model_view(model);
            let token = match s.next() {
                Ok(t) => t,
                Err(e) => return Err(e),
            };
            if token.eq_text_ignore_ascii_case("END") {
                model.make_names_nice();
                proof {
                    let after = model_view(model);
                    assert(after.imports =~= nice_model(before).imports);
                    assert(after.definitions =~= before.definitions);
                }
                return Ok(model);
            } else if token.eq_text_ignore_ascii_case("IMPORTS") {
                if let Err(e) = read_imports(&mut s, &mut model.imports) {
                    return Err(e);
                }
            } else {
                let name = match token {
                    Token::Text(_, t) => t,
                    tok => return Err(Error::UnexpectedToken(tok)),
                };
                let definition = match read_definition(&mut s, name) {
                    Ok(d) => d,
                    Err(e) => return Err(e),
                };
                let ghost defs = model.definitions@;
                model.definitions.push(definition);
                proof {
                    assert(model.definitions@.map_values(|d: Definition<Asn>| (d.0@, asn_view(d.1)))
                        =~= defs.map_values(|d: Definition<Asn>| (d.0@, asn_view(d.1))).push(
                        (definition.0@, asn_view(definition.1)),
                    ));
                }
            }
            assert(p < s.pos());
        }
    }
}

} // verus!
