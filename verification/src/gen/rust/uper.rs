//! The generator of UPER serialisation code: the bodies of the functions that read and write a
//! definition's values through a UPER reader and writer.
use vstd::prelude::*;

use crate::gen::rust::code::{block_of, block_view, codes_view, Block, CodeView, Function};
use crate::gen::rust::{generated_field_name, generator_field_name};
use crate::model::rust::{
    dec_text, inner_text, is_primitive_view, push_all, push_dec, rust_type_text, Rust, RustType,
    RustTypeView, RustView,
};
use crate::model::Definition;
use crate::parser::text_eq;

verus! {

/// The generator of UPER serialisation code.
pub struct UperSerializer;

/// A value that generated code refers to: a local variable, a constant of `Self` or a field of
/// `self`, each with its name and whether it is borrowed (`&`) and dereferenced (`*`).
#[derive(PartialEq, PartialOrd)]
pub enum Member {
    Local(String, bool, bool),
    Static(String, bool, bool),
    Instance(String, bool, bool),
}

/// A member as a value.
pub enum MemberView {
    Local(Seq<char>, bool, bool),
    Static(Seq<char>, bool, bool),
    Instance(Seq<char>, bool, bool),
}

impl View for Member {
    type V = MemberView;

    open spec fn view(&self) -> MemberView {
        match self {
            Member::Local(name, r, d) => MemberView::Local(name@, *r, *d),
            Member::Static(name, r, d) => MemberView::Static(name@, *r, *d),
            Member::Instance(name, r, d) => MemberView::Instance(name@, *r, *d),
        }
    }
}

/// The name of a member.
pub open spec fn member_name(m: MemberView) -> Seq<char> {
    match m {
        MemberView::Local(name, _, _) => name,
        MemberView::Static(name, _, _) => name,
        MemberView::Instance(name, _, _) => name,
    }
}

/// Whether a member is borrowed.
pub open spec fn member_prefix_ref(m: MemberView) -> bool {
    match m {
        MemberView::Local(_, prefix, _) => prefix,
        MemberView::Static(_, prefix, _) => prefix,
        MemberView::Instance(_, prefix, _) => prefix,
    }
}

/// Whether a member is dereferenced.
pub open spec fn member_prefix_deref(m: MemberView) -> bool {
    match m {
        MemberView::Local(_, _, prefix) => prefix,
        MemberView::Static(_, _, prefix) => prefix,
        MemberView::Instance(_, _, prefix) => prefix,
    }
}

/// A member with another name.
pub open spec fn member_named(m: MemberView, name: Seq<char>) -> MemberView {
    match m {
        MemberView::Local(_, r, d) => MemberView::Local(name, r, d),
        MemberView::Static(_, r, d) => MemberView::Static(name, r, d),
        MemberView::Instance(_, r, d) => MemberView::Instance(name, r, d),
    }
}

/// A member, not borrowed.
pub open spec fn member_no_ref(m: MemberView) -> MemberView {
    match m {
        MemberView::Local(name, _, d) => MemberView::Local(name, false, d),
        MemberView::Static(name, _, d) => MemberView::Static(name, false, d),
        MemberView::Instance(name, _, d) => MemberView::Instance(name, false, d),
    }
}

/// How generated code refers to a member: `&` if borrowed, `*` if dereferenced, then the name,
/// behind `Self::` for a constant and `self.` for a field.
pub open spec fn member_text(m: MemberView) -> Seq<char> {
    (if member_prefix_ref(m) {
        "&"@
    } else {
        ""@
    }) + (if member_prefix_deref(m) {
        "*"@
    } else {
        ""@
    }) + match m {
        MemberView::Local(_, _, _) => ""@,
        MemberView::Static(_, _, _) => "Self::"@,
        MemberView::Instance(_, _, _) => "self."@,
    } + member_name(m)
}

impl Clone for Member {
    fn clone(&self) -> (c: Self)
        ensures
            c@ == self@,
    {
        match self {
            Member::Local(name, r, d) => Member::Local(name.clone(), *r, *d),
            Member::Static(name, r, d) => Member::Static(name.clone(), *r, *d),
            Member::Instance(name, r, d) => Member::Instance(name.clone(), *r, *d),
        }
    }
}

impl Member {
    /// The name.
    pub fn name(&self) -> (n: &str)
        ensures
            n@ == member_name(self@),
    {
        match self {
            Member::Local(name, _, _) => name.as_str(),
            Member::Static(name, _, _) => name.as_str(),
            Member::Instance(name, _, _) => name.as_str(),
        }
    }

    /// Gives the member the name `name`, keeping its kind and prefixes.
    pub fn name_mut(&mut self, name: String)
        ensures
            final(self)@ == member_named(old(self)@, name@),
    {
        *self = match self {
            Member::Local(_, r, d) => Member::Local(name, *r, *d),
            Member::Static(_, r, d) => Member::Static(name, *r, *d),
            Member::Instance(_, r, d) => Member::Instance(name, *r, *d),
        };
    }

    /// Whether the member is borrowed.
    pub fn prefix_ref(&self) -> (b: bool)
        ensures
            b == member_prefix_ref(self@),
    {
        match self {
            Member::Local(_, prefix, _) => *prefix,
            Member::Static(_, prefix, _) => *prefix,
            Member::Instance(_, prefix, _) => *prefix,
        }
    }

    /// Whether the member is dereferenced.
    pub fn prefix_deref(&self) -> (b: bool)
        ensures
            b == member_prefix_deref(self@),
    {
        match self {
            Member::Local(_, _, prefix) => *prefix,
            Member::Static(_, _, prefix) => *prefix,
            Member::Instance(_, _, prefix) => *prefix,
        }
    }

    /// The member, not borrowed.
    pub fn no_ref(self) -> (m: Self)
        ensures
            m@ == member_no_ref(self@),
    {
        match self {
            Member::Local(name, _, d) => Member::Local(name, false, d),
            Member::Static(name, _, d) => Member::Static(name, false, d),
            Member::Instance(name, _, d) => Member::Instance(name, false, d),
        }
    }

    /// How generated code refers to the member.
    pub fn to_string(&self) -> (s: String)
        ensures
            s@ == member_text(self@),
    {
        let mut out = String::new();
        if self.prefix_ref() {
            push_all(&mut out, "&");
        }
        if self.prefix_deref() {
            push_all(&mut out, "*");
        }
        match self {
            Member::Local(_, _, _) => {},
            Member::Static(_, _, _) => push_all(&mut out, "Self::"),
            Member::Instance(_, _, _) => push_all(&mut out, "self."),
        }
        push_all(&mut out, self.name());
        proof {
            reveal_strlit("");
            assert(""@ =~= Seq::<char>::empty());
        }
        assert(out@ =~= member_text(self@));
        out
    }
}

/// An optional member as a value.
pub open spec fn opt_member(m: Option<Member>) -> Option<MemberView> {
    match m {
        Some(m) => Some(m@),
        None => None,
    }
}

/// How generated code refers to a member, or `value` where there is none.
pub open spec fn text_or_value(m: Option<MemberView>) -> Seq<char> {
    match m {
        Some(m) => member_text(m),
        None => "value"@,
    }
}

/// The name of a member, or `value` where there is none.
pub open spec fn name_or_value(m: Option<MemberView>) -> Seq<char> {
    match m {
        Some(m) => member_name(m),
        None => "value"@,
    }
}

/// The prefix of the bound functions of a member's range: its name and `_`, or nothing.
pub open spec fn range_prefix(m: Option<MemberView>) -> Seq<char> {
    match m {
        Some(m) => member_name(m) + "_"@,
        None => ""@,
    }
}

/// How the primitive type within vectors and options is written, or else the type.
pub open spec fn inner_type_text(t: RustTypeView) -> Seq<char> {
    match inner_text(t) {
        Some(s) => s,
        None => rust_type_text(t),
    }
}

/// The code that writes a value of type `t`, which `m` refers to (`value` without one).
pub open spec fn write_code(m: Option<MemberView>, t: RustTypeView) -> Seq<CodeView>
    decreases t,
{
    match t {
        RustTypeView::Bool => seq![CodeView::Line("writer.write_bit("@ + text_or_value(m) + ")?;"@)],
        RustTypeView::U64(None) => seq![
            CodeView::Line("writer.write_int_max("@ + text_or_value(m) + ")?;"@),
        ],
        RustTypeView::String => seq![
            CodeView::Line("writer.write_utf8_string(&"@ + text_or_value(m) + ")?;"@),
        ],
        RustTypeView::VecU8 => seq![
            CodeView::Line("writer.write_octet_string(&"@ + text_or_value(m) + "[..], None)?;"@),
        ],
        RustTypeView::Vec(inner) => {
            let no_ref = match m {
                Some(mm) => member_text(member_no_ref(mm)),
                None => "value"@,
            };
            let local = match m {
                Some(mm) => if member_name(mm) != "0"@ {
                    member_name(mm)
                } else {
                    "value"@
                },
                None => "value"@,
            };
            let is_local = match m {
                Some(mm) => mm is Local,
                None => false,
            };
            seq![
                CodeView::Line("writer.write_length_determinant("@ + no_ref + ".len())?;"@),
                block_of(
                    "for "@ + local + " in "@ + (if is_local {
                        ""@
                    } else {
                        "&"@
                    }) + no_ref,
                    write_code(
                        Some(MemberView::Local(local, false, is_primitive_view(*inner))),
                        *inner,
                    ),
                ),
            ]
        },
        RustTypeView::Option(inner) => seq![
            block_of(
                "if let Some("@ + (if is_primitive_view(*inner) {
                    ""@
                } else {
                    "ref "@
                }) + name_or_value(m) + ") = "@ + text_or_value(m),
                write_code(Some(MemberView::Local(name_or_value(m), false, false)), *inner),
            ),
        ],
        RustTypeView::Complex(_) => seq![
            CodeView::Line(
                match m {
                    Some(mm) => member_text(
                        member_named(mm, generated_field_name(member_name(mm), true)),
                    ),
                    None => "value"@,
                } + ".write_uper(writer)?;"@,
            ),
        ],
        _ => seq![
            CodeView::Line(
                "writer.write_int(i64::from("@ + text_or_value(m) + "), (i64::from(Self::"@
                    + range_prefix(m) + "min()), i64::from(Self::"@ + range_prefix(m)
                    + "max())))?;"@,
            ),
        ],
    }
}

/// The code that reads a value of type `t`, named `type_string`, for which `m` stands.
pub open spec fn read_code(type_string: Seq<char>, m: Option<MemberView>, t: RustTypeView) -> Seq<
    CodeView,
>
    decreases t,
{
    match t {
        RustTypeView::Bool => seq![CodeView::Line("reader.read_bit()?"@)],
        RustTypeView::U64(None) => seq![CodeView::Line("reader.read_int_max()?"@)],
        RustTypeView::String => seq![CodeView::Line("reader.read_utf8_string()?"@)],
        RustTypeView::VecU8 => seq![CodeView::Line("reader.read_octet_string(None)?"@)],
        RustTypeView::Vec(inner) => seq![
            CodeView::Line("let len = reader.read_length_determinant()?;"@),
            CodeView::Line("let mut values = Vec::with_capacity(len);"@),
            block_of(
                "for _ in 0..len"@,
                seq![
                    CodeView::Block(
                        "values.push("@,
                        read_code(
                            inner_type_text(*inner),
                            Some(MemberView::Local(name_or_value(m), false, false)),
                            *inner,
                        ),
                        Some(");"@),
                    ),
                ],
            ),
            CodeView::Line("values"@),
        ],
        RustTypeView::Option(inner) => seq![
            block_of(
                "if "@ + name_or_value(m),
                seq![
                    CodeView::Block(
                        "Some("@,
                        read_code(inner_type_text(*inner), m, *inner),
                        Some(")"@),
                    ),
                ],
            ),
            block_of("else"@, seq![CodeView::Line("None"@)]),
        ],
        RustTypeView::Complex(_) => seq![CodeView::Line(type_string + "::read_uper(reader)?"@)],
        _ => seq![
            CodeView::Line(
                "reader.read_int((i64::from(Self::"@ + range_prefix(m) + "min()), i64::from(Self::"@
                    + range_prefix(m) + "max())))? as "@ + rust_type_text(t),
            ),
        ],
    }
}

/// The line that reads whether an optional field is present.
pub open spec fn read_header(name: Seq<char>, t: RustTypeView) -> Seq<CodeView> {
    if t is Option {
        seq![CodeView::Line("let "@ + generated_field_name(name, true) + " = reader.read_bit()?;"@)]
    } else {
        Seq::empty()
    }
}

/// The line that writes whether an optional field is present.
pub open spec fn write_header(name: Seq<char>, t: RustTypeView) -> Seq<CodeView> {
    if t is Option {
        seq![
            CodeView::Line(
                "writer.write_bit(self."@ + generated_field_name(name, true) + ".is_some())?;"@,
            ),
        ]
    } else {
        Seq::empty()
    }
}

/// The presence lines of the optional fields.
pub open spec fn read_headers(fields: Seq<(Seq<char>, RustTypeView)>) -> Seq<CodeView>
    decreases fields.len(),
{
    if fields.len() == 0 {
        Seq::empty()
    } else {
        read_headers(fields.drop_last()) + read_header(fields.last().0, fields.last().1)
    }
}

/// The presence lines of the optional fields.
pub open spec fn write_headers(fields: Seq<(Seq<char>, RustTypeView)>) -> Seq<CodeView>
    decreases fields.len(),
{
    if fields.len() == 0 {
        Seq::empty()
    } else {
        write_headers(fields.drop_last()) + write_header(fields.last().0, fields.last().1)
    }
}

/// The blocks that read each field into `me`.
pub open spec fn struct_reads(fields: Seq<(Seq<char>, RustTypeView)>) -> Seq<CodeView>
    decreases fields.len(),
{
    if fields.len() == 0 {
        Seq::empty()
    } else {
        let (name, t) = fields.last();
        struct_reads(fields.drop_last()).push(
            CodeView::Block(
                "me."@ + generated_field_name(name, true) + " = "@,
                read_code(inner_type_text(t), Some(MemberView::Instance(name, false, false)), t),
                Some(";"@),
            ),
        )
    }
}

/// The code that writes each field.
pub open spec fn struct_writes(fields: Seq<(Seq<char>, RustTypeView)>) -> Seq<CodeView>
    decreases fields.len(),
{
    if fields.len() == 0 {
        Seq::empty()
    } else {
        let (name, t) = fields.last();
        struct_writes(fields.drop_last()) + write_code(Some(MemberView::Instance(name, false, false)), t)
    }
}

/// The arms that give the variants of an enum for their indices.
pub open spec fn enum_read_arms(name: Seq<char>, variants: Seq<Seq<char>>) -> Seq<CodeView>
    decreases variants.len(),
{
    if variants.len() == 0 {
        Seq::empty()
    } else {
        enum_read_arms(name, variants.drop_last()).push(
            CodeView::Line(
                dec_text((variants.len() - 1) as nat) + " => Ok("@ + name + "::"@ + variants.last()
                    + "),"@,
            ),
        )
    }
}

/// The arms that write the indices of the first `n` variants of an enum.
pub open spec fn enum_write_arms(name: Seq<char>, variants: Seq<Seq<char>>, n: nat) -> Seq<CodeView>
    decreases n,
{
    if n == 0 || n > variants.len() {
        Seq::empty()
    } else {
        enum_write_arms(name, variants, (n - 1) as nat).push(
            CodeView::Line(
                name + "::"@ + variants[n - 1] + " => writer.write_int("@ + dec_text((n - 1) as nat)
                    + ", (0, "@ + dec_text((variants.len() - 1) as nat) + "))?,"@,
            ),
        )
    }
}

/// The arms that read the variants of a data enum for their indices.
pub open spec fn data_enum_read_arms(name: Seq<char>, variants: Seq<(Seq<char>, RustTypeView)>) -> Seq<
    CodeView,
>
    decreases variants.len(),
{
    if variants.len() == 0 {
        Seq::empty()
    } else {
        let (variant, t) = variants.last();
        data_enum_read_arms(name, variants.drop_last()).push(
            CodeView::Block(
                dec_text((variants.len() - 1) as nat) + " => Ok("@ + name + "::"@ + variant + "("@,
                read_code(inner_type_text(t), None, t),
                Some(")),"@),
            ),
        )
    }
}

/// The arms that write the first `n` variants of a data enum: the index where there is more
/// than one variant, then the value.
pub open spec fn data_enum_write_arms(
    name: Seq<char>,
    variants: Seq<(Seq<char>, RustTypeView)>,
    n: nat,
) -> Seq<CodeView>
    decreases n,
{
    if n == 0 || n > variants.len() {
        Seq::empty()
    } else {
        let (variant, t) = variants[n - 1];
        data_enum_write_arms(name, variants, (n - 1) as nat).push(
            block_of(
                name + "::"@ + variant + "(value) =>"@,
                (if variants.len() > 1 {
                    seq![
                        CodeView::Line(
                            "writer.write_int("@ + dec_text((n - 1) as nat) + ", (0, "@ + dec_text(
                                (variants.len() - 1) as nat,
                            ) + "))?;"@,
                        ),
                    ]
                } else {
                    Seq::empty()
                }) + write_code(Some(MemberView::Local("value"@, false, is_primitive_view(t))), t),
            ),
        )
    }
}

/// The body of the function that reads a value of the definition `name`.
pub open spec fn read_fn_code(name: Seq<char>, rust: RustView) -> Seq<CodeView> {
    match rust {
        RustView::TupleStruct(aliased) => read_header(name, aliased) + seq![
            CodeView::Block(
                "Ok("@ + name + "("@,
                read_code(inner_type_text(aliased), None, aliased),
                Some("))"@),
            ),
        ],
        RustView::Struct(fields) => read_headers(fields) + seq![
            CodeView::Line("let mut me = Self::default();"@),
        ] + struct_reads(fields) + seq![CodeView::Line("Ok(me)"@)],
        RustView::Enum(variants) => seq![
            CodeView::Line(
                "let id = reader.read_int((0, "@ + dec_text((variants.len() - 1) as nat) + "))?;"@,
            ),
            block_of(
                "match id"@,
                enum_read_arms(name, variants).push(
                    CodeView::Line(
                        "_ => Err(UperError::ValueNotInRange(id, 0, "@ + dec_text(
                            (variants.len() - 1) as nat,
                        ) + "))"@,
                    ),
                ),
            ),
        ],
        RustView::DataEnum(variants) => (if variants.len() > 1 {
            seq![
                CodeView::Line(
                    "let variant = reader.read_int((0, "@ + dec_text((variants.len() - 1) as nat)
                        + "))?;"@,
                ),
            ]
        } else {
            seq![CodeView::Line("let variant = 0"@)]
        }) + seq![
            block_of(
                "match variant"@,
                data_enum_read_arms(name, variants).push(
                    CodeView::Line(
                        "_ => Err(UperError::ValueNotInRange(variant, 0, "@ + dec_text(
                            (variants.len() - 1) as nat,
                        ) + "))"@,
                    ),
                ),
            ),
        ],
    }
}

/// The body of the function that writes a value of the definition `name`.
pub open spec fn write_fn_code(name: Seq<char>, rust: RustView) -> Seq<CodeView> {
    match rust {
        RustView::TupleStruct(aliased) => write_header("self.0"@, aliased) + seq![
            block_of(
                ""@,
                write_code(
                    Some(MemberView::Instance("0"@, !is_primitive_view(aliased), false)),
                    aliased,
                ),
            ),
            CodeView::Line("Ok(())"@),
        ],
        RustView::Struct(fields) => write_headers(fields) + seq![
            block_of(""@, struct_writes(fields)),
            CodeView::Line("Ok(())"@),
        ],
        RustView::Enum(variants) => seq![
            block_of("match self"@, enum_write_arms(name, variants, variants.len())),
            CodeView::Line("Ok(())"@),
        ],
        RustView::DataEnum(variants) => seq![
            block_of("match self"@, data_enum_write_arms(name, variants, variants.len())),
            CodeView::Line("Ok(())"@),
        ],
    }
}

/// Whether the function that reads values of a definition can be made: an enum or a data enum
/// needs a variant, whose greatest index the function names.
pub open spec fn readable(rust: RustView) -> bool {
    match rust {
        RustView::Enum(variants) => variants.len() > 0,
        RustView::DataEnum(variants) => variants.len() > 0,
        _ => true,
    }
}


/// How generated code refers to a member, or `value` where there is none.
fn text_or_value_of(m: &Option<Member>) -> (s: String)
    ensures
        s@ == text_or_value(opt_member(*m)),
{
    match m {
        Some(m) => m.to_string(),
        None => String::from_str("value"),
    }
}

/// The name of a member, or `value` where there is none.
fn name_or_value_of(m: &Option<Member>) -> (s: String)
    ensures
        s@ == name_or_value(opt_member(*m)),
{
    match m {
        Some(m) => String::from_str(m.name()),
        None => String::from_str("value"),
    }
}

/// The prefix of the bound functions of a member's range: its name and `_`, or nothing.
fn range_prefix_of(m: &Option<Member>) -> (s: String)
    ensures
        s@ == range_prefix(opt_member(*m)),
{
    proof {
        reveal_strlit("");
        assert(""@ =~= Seq::<char>::empty());
    }
    match m {
        Some(m) => {
            let mut s = String::from_str(m.name());
            push_all(&mut s, "_");
            s
        },
        None => String::new(),
    }
}

/// `a`, `b` and `c` one after another.
fn concat3(a: &str, b: &str, c: &str) -> (s: String)
    ensures
        s@ == a@ + b@ + c@,
{
    let mut s = String::from_str(a);
    push_all(&mut s, b);
    push_all(&mut s, c);
    s
}

/// The digits of `n`.
fn dec_string(n: usize) -> (s: String)
    ensures
        s@ == dec_text(n as nat),
{
    let mut s = String::new();
    push_dec(&mut s, n as u64);
    assert(s@ =~= dec_text(n as nat));
    s
}

impl UperSerializer {
    /// Appends to `block` the code that writes a value of type `rust`, which `field_name`
    /// refers to (`value` without one); see [`write_code`].
    pub fn impl_write_fn_for_type(block: &mut Block, field_name: Option<Member>, rust: &RustType)
        ensures
            final(block).before == old(block).before,
            final(block).after == old(block).after,
            codes_view(final(block).body@) == codes_view(old(block).body@) + write_code(
                opt_member(field_name),
                rust@,
            ),
        decreases rust,
    {
        proof {
            reveal_strlit("");
            assert(""@ =~= Seq::<char>::empty());
        }
        let ghost m = opt_member(field_name);
        let ghost start = codes_view(block.body@);
        match rust {
            RustType::Bool => {
                let value = text_or_value_of(&field_name);
                block.line(concat3("writer.write_bit(", value.as_str(), ")?;"));
            },
            RustType::U64(None) => {
                let value = text_or_value_of(&field_name);
                block.line(concat3("writer.write_int_max(", value.as_str(), ")?;"));
            },
            RustType::String => {
                let value = text_or_value_of(&field_name);
                block.line(concat3("writer.write_utf8_string(&", value.as_str(), ")?;"));
            },
            RustType::VecU8 => {
                let value = text_or_value_of(&field_name);
                block.line(concat3("writer.write_octet_string(&", value.as_str(), "[..], None)?;"));
            },
            RustType::Vec(inner) => {
                let no_ref = match &field_name {
                    Some(f) => f.clone().no_ref().to_string(),
                    None => String::from_str("value"),
                };
                block.line(concat3("writer.write_length_determinant(", no_ref.as_str(), ".len())?;"));
                let local = match &field_name {
                    Some(f) => if !text_eq(f.name(), "0") {
                        String::from_str(f.name())
                    } else {
                        String::from_str("value")
                    },
                    None => String::from_str("value"),
                };
                let is_local = match &field_name {
                    Some(Member::Local(..)) => true,
                    _ => false,
                };
                let mut header = concat3("for ", local.as_str(), " in ");
                if !is_local {
                    push_all(&mut header, "&");
                }
                push_all(&mut header, no_ref.as_str());
                let mut for_block = Block::new(header.as_str());
                let primitive = inner.is_primitive();
                Self::impl_write_fn_for_type(
                    &mut for_block,
                    Some(Member::Local(local, false, primitive)),
                    inner,
                );
                block.push_block(for_block);
            },
            RustType::Option(inner) => {
                let name = name_or_value_of(&field_name);
                let value = text_or_value_of(&field_name);
                let mut header = String::from_str("if let Some(");
                if !inner.is_primitive() {
                    push_all(&mut header, "ref ");
                }
                push_all(&mut header, name.as_str());
                push_all(&mut header, ") = ");
                push_all(&mut header, value.as_str());
                let mut if_block = Block::new(header.as_str());
                Self::impl_write_fn_for_type(&mut if_block, Some(Member::Local(name, false, false)), inner);
                block.push_block(if_block);
            },
            RustType::Complex(_) => {
                let target = match field_name {
                    Some(f) => {
                        let mut f = f;
                        let renamed = generator_field_name(f.name(), true);
                        f.name_mut(renamed);
                        f.to_string()
                    },
                    None => String::from_str("value"),
                };
                let mut line = target;
                push_all(&mut line, ".write_uper(writer)?;");
                block.line(line);
            },
            _ => {
                let value = text_or_value_of(&field_name);
                let prefix = range_prefix_of(&field_name);
                let mut line = concat3("writer.write_int(i64::from(", value.as_str(), "), (i64::from(Self::");
                push_all(&mut line, prefix.as_str());
                push_all(&mut line, "min()), i64::from(Self::");
                push_all(&mut line, prefix.as_str());
                push_all(&mut line, "max())))?;");
                block.line(line);
            },
        }
        assert(codes_view(block.body@) =~= start + write_code(m, rust@));
    }
}


impl UperSerializer {
    /// Appends to `block` the code that reads a value of type `rust`, named `type_string`,
    /// for which `field_name` stands; see [`read_code`].
    pub fn impl_read_fn_for_type(
        block: &mut Block,
        type_string: &str,
        field_name: Option<Member>,
        rust: &RustType,
    )
        ensures
            final(block).before == old(block).before,
            final(block).after == old(block).after,
            codes_view(final(block).body@) == codes_view(old(block).body@) + read_code(
                type_string@,
                opt_member(field_name),
                rust@,
            ),
        decreases rust,
    {
        let ghost m = opt_member(field_name);
        let ghost start = codes_view(block.body@);
        match rust {
            RustType::Bool => block.line(String::from_str("reader.read_bit()?")),
            RustType::U64(None) => block.line(String::from_str("reader.read_int_max()?")),
            RustType::String => block.line(String::from_str("reader.read_utf8_string()?")),
            RustType::VecU8 => block.line(String::from_str("reader.read_octet_string(None)?")),
            RustType::Vec(inner) => {
                block.line(String::from_str("let len = reader.read_length_determinant()?;"));
                block.line(String::from_str("let mut values = Vec::with_capacity(len);"));
                let mut for_block = Block::new("for _ in 0..len");
                let mut inner_block = Block::new("values.push(");
                let name = name_or_value_of(&field_name);
                let inner_type = inner.to_inner_type_string();
                Self::impl_read_fn_for_type(
                    &mut inner_block,
                    inner_type.as_str(),
                    Some(Member::Local(name, false, false)),
                    inner,
                );
                inner_block.after(");");
                for_block.push_block(inner_block);
                block.push_block(for_block);
                block.line(String::from_str("values"));
            },
            RustType::Option(inner) => {
                let name = name_or_value_of(&field_name);
                let header = concat3("if ", name.as_str(), "");
                let mut if_block = Block::new(header.as_str());
                let mut if_true_block = Block::new("Some(");
                let inner_type = inner.to_inner_type_string();
                Self::impl_read_fn_for_type(&mut if_true_block, inner_type.as_str(), field_name, inner);
                if_true_block.after(")");
                if_block.push_block(if_true_block);
                let mut else_block = Block::new("else");
                else_block.line(String::from_str("None"));
                block.push_block(if_block);
                block.push_block(else_block);
                proof {
                    reveal_strlit("");
                    assert(""@ =~= Seq::<char>::empty());
                }
            },
            RustType::Complex(_) => {
                block.line(concat3(type_string, "::read_uper(reader)?", ""));
                proof {
                    reveal_strlit("");
                    assert(""@ =~= Seq::<char>::empty());
                }
            },
            _ => {
                let prefix = range_prefix_of(&field_name);
                let mut line = concat3("reader.read_int((i64::from(Self::", prefix.as_str(), "min()), i64::from(Self::");
                push_all(&mut line, prefix.as_str());
                push_all(&mut line, "max())))? as ");
                let t = rust.to_string();
                push_all(&mut line, t.as_str());
                block.line(line);
            },
        }
        assert(codes_view(block.body@) =~= start + read_code(type_string@, m, rust@));
    }

    /// Appends to `function` the line that reads whether an optional field is present.
    fn impl_read_fn_header_for_type(function: &mut Function, name: &str, aliased: &RustType)
        ensures
            codes_view(final(function).body@) == codes_view(old(function).body@) + read_header(
                name@,
                aliased@,
            ),
    {
        if let RustType::Option(_) = aliased {
            let field = generator_field_name(name, true);
            function.line(concat3("let ", field.as_str(), " = reader.read_bit()?;"));
        }
        assert(codes_view(function.body@) =~= codes_view(old(function).body@) + read_header(
            name@,
            aliased@,
        ));
    }

    /// Appends to `function` the line that writes whether an optional field is present.
    fn impl_write_fn_header_for_type(function: &mut Function, name: &str, aliased: &RustType)
        ensures
            codes_view(final(function).body@) == codes_view(old(function).body@) + write_header(
                name@,
                aliased@,
            ),
    {
        if let RustType::Option(_) = aliased {
            let field = generator_field_name(name, true);
            function.line(concat3("writer.write_bit(self.", field.as_str(), ".is_some())?;"));
        }
        assert(codes_view(function.body@) =~= codes_view(old(function).body@) + write_header(
            name@,
            aliased@,
        ));
    }

    /// Appends to `function` the body that reads a value of `definition` (see
    /// [`read_fn_code`]).
    pub fn impl_read_fn(function: &mut Function, definition: &Definition<Rust>)
        requires
            readable(definition.1@),
        ensures
            codes_view(final(function).body@) == codes_view(old(function).body@) + read_fn_code(
                definition.0@,
                definition.1@,
            ),
    {
        let name = definition.0.as_str();
        let ghost start = codes_view(function.body@);
        match &definition.1 {
            Rust::TupleStruct(aliased) => {
                Self::impl_read_fn_header_for_type(function, name, aliased);
                let header = concat3("Ok(", name, "(");
                let mut block = Block::new(header.as_str());
                let inner_type = aliased.to_inner_type_string();
                Self::impl_read_fn_for_type(&mut block, inner_type.as_str(), None, aliased);
                block.after("))");
                function.push_block(block);
            },
            Rust::Struct(fields) => {
                let ghost fv = crate::model::rust::named_types_view(fields@);
                let mut i: usize = 0;
                while i < fields.len()
                    invariant
                        0 <= i <= fields@.len(),
                        fv == crate::model::rust::named_types_view(fields@),
                        codes_view(function.body@) == start + read_headers(fv.take(i as int)),
                    decreases fields@.len() - i,
                {
                    Self::impl_read_fn_header_for_type(function, fields[i].0.as_str(), &fields[i].1);
                    assert(fv.take(i + 1).drop_last() =~= fv.take(i as int));
                    i = i + 1;
                }
                assert(fv.take(i as int) =~= fv);
                Self::impl_read_fn_for_struct(function, fields.as_slice());
            },
            Rust::Enum(variants) => {
                Self::impl_read_fn_for_enum(function, name, variants.as_slice());
            },
            Rust::DataEnum(variants) => {
                Self::impl_read_fn_for_data_enum(function, name, variants.as_slice());
            },
        }
        assert(codes_view(function.body@) =~= start + read_fn_code(definition.0@, definition.1@));
    }

    /// Appends to `function` the code that reads each field into `me`, which it returns.
    fn impl_read_fn_for_struct(function: &mut Function, fields: &[(String, RustType)])
        ensures
            codes_view(final(function).body@) == codes_view(old(function).body@) + seq![
                CodeView::Line("let mut me = Self::default();"@),
            ] + struct_reads(crate::model::rust::named_types_view(fields@)) + seq![
                CodeView::Line("Ok(me)"@),
            ],
    {
        let ghost fv = crate::model::rust::named_types_view(fields@);
        function.line(String::from_str("let mut me = Self::default();"));
        let ghost start = codes_view(function.body@);
        let mut i: usize = 0;
        while i < fields.len()
            invariant
                0 <= i <= fields@.len(),
                fv == crate::model::rust::named_types_view(fields@),
                codes_view(function.body@) == start + struct_reads(fv.take(i as int)),
            decreases fields@.len() - i,
        {
            let (field_name, field_type) = &fields[i];
            let field = generator_field_name(field_name.as_str(), true);
            let header = concat3("me.", field.as_str(), " = ");
            let mut block = Block::new(header.as_str());
            let inner_type = field_type.to_inner_type_string();
            Self::impl_read_fn_for_type(
                &mut block,
                inner_type.as_str(),
                Some(Member::Instance(field_name.clone(), false, false)),
                field_type,
            );
            block.after(";");
            function.push_block(block);
            proof {
                assert(fv.take(i + 1).drop_last() =~= fv.take(i as int));
                assert(fv.take(i + 1).last() == (field_name@, field_type@));
            }
            i = i + 1;
        }
        assert(fv.take(i as int) =~= fv);
        function.line(String::from_str("Ok(me)"));
    }

    /// Appends to `function` the code that reads the index of a variant of an enum and gives
    /// the variant.
    fn impl_read_fn_for_enum(function: &mut Function, name: &str, variants: &[String])
        requires
            variants@.len() > 0,
        ensures
            codes_view(final(function).body@) == codes_view(old(function).body@) + read_fn_code(
                name@,
                RustView::Enum(crate::model::rust::names_view(variants@)),
            ),
    {
        let ghost vs = crate::model::rust::names_view(variants@);
        let last = dec_string(variants.len() - 1);
        function.line(concat3("let id = reader.read_int((0, ", last.as_str(), "))?;"));
        let mut block_match = Block::new("match id");
        let mut i: usize = 0;
        while i < variants.len()
            invariant
                0 <= i <= variants@.len(),
                vs == crate::model::rust::names_view(variants@),
                block_match.after is None,
                block_match.before@ == "match id"@,
                codes_view(block_match.body@) == enum_read_arms(name@, vs.take(i as int)),
            decreases variants@.len() - i,
        {
            let index = dec_string(i);
            let mut line = concat3(index.as_str(), " => Ok(", name);
            push_all(&mut line, "::");
            push_all(&mut line, variants[i].as_str());
            push_all(&mut line, "),");
            block_match.line(line);
            assert(vs.take(i + 1).drop_last() =~= vs.take(i as int));
            i = i + 1;
        }
        assert(vs.take(i as int) =~= vs);
        block_match.line(concat3("_ => Err(UperError::ValueNotInRange(id, 0, ", last.as_str(), "))"));
        function.push_block(block_match);
        assert(codes_view(function.body@) =~= codes_view(old(function).body@) + read_fn_code(
            name@,
            RustView::Enum(vs),
        ));
    }

    /// Appends to `function` the code that reads the index of a variant of a data enum and
    /// then its value.
    fn impl_read_fn_for_data_enum(function: &mut Function, name: &str, variants: &[(String, RustType)])
        requires
            variants@.len() > 0,
        ensures
            codes_view(final(function).body@) == codes_view(old(function).body@) + read_fn_code(
                name@,
                RustView::DataEnum(crate::model::rust::named_types_view(variants@)),
            ),
    {
        let ghost vs = crate::model::rust::named_types_view(variants@);
        let last = dec_string(variants.len() - 1);
        if variants.len() > 1 {
            function.line(concat3("let variant = reader.read_int((0, ", last.as_str(), "))?;"));
        } else {
            function.line(String::from_str("let variant = 0"));
        }
        let mut block = Block::new("match variant");
        let mut i: usize = 0;
        while i < variants.len()
            invariant
                0 <= i <= variants@.len(),
                vs == crate::model::rust::named_types_view(variants@),
                block.after is None,
                block.before@ == "match variant"@,
                codes_view(block.body@) == data_enum_read_arms(name@, vs.take(i as int)),
            decreases variants@.len() - i,
        {
            let (variant, role) = &variants[i];
            let index = dec_string(i);
            let mut header = concat3(index.as_str(), " => Ok(", name);
            push_all(&mut header, "::");
            push_all(&mut header, variant.as_str());
            push_all(&mut header, "(");
            let mut block_case = Block::new(header.as_str());
            let inner_type = role.to_inner_type_string();
            Self::impl_read_fn_for_type(&mut block_case, inner_type.as_str(), None, role);
            block_case.after(")),");
            block.push_block(block_case);
            proof {
                assert(vs.take(i + 1).drop_last() =~= vs.take(i as int));
                assert(vs.take(i + 1).last() == (variant@, role@));
            }
            i = i + 1;
        }
        assert(vs.take(i as int) =~= vs);
        block.line(concat3("_ => Err(UperError::ValueNotInRange(variant, 0, ", last.as_str(), "))"));
        function.push_block(block);
        assert(codes_view(function.body@) =~= codes_view(old(function).body@) + read_fn_code(
            name@,
            RustView::DataEnum(vs),
        ));
    }

    /// Appends to `function` the body that writes a value of `definition` (see
    /// [`write_fn_code`]).
    pub fn impl_write_fn(function: &mut Function, definition: &Definition<Rust>)
        ensures
            codes_view(final(function).body@) == codes_view(old(function).body@) + write_fn_code(
                definition.0@,
                definition.1@,
            ),
    {
        let name = definition.0.as_str();
        let ghost start = codes_view(function.body@);
        match &definition.1 {
            Rust::TupleStruct(inner) => {
                Self::impl_write_fn_header_for_type(function, "self.0", inner);
                let mut block = Block::new("");
                let primitive = inner.is_primitive();
                Self::impl_write_fn_for_type(
                    &mut block,
                    Some(Member::Instance(String::from_str("0"), !primitive, false)),
                    inner,
                );
                function.push_block(block);
                function.line(String::from_str("Ok(())"));
            },
            Rust::Struct(fields) => {
                let ghost fv = crate::model::rust::named_types_view(fields@);
                let mut i: usize = 0;
                while i < fields.len()
                    invariant
                        0 <= i <= fields@.len(),
                        fv == crate::model::rust::named_types_view(fields@),
                        codes_view(function.body@) == start + write_headers(fv.take(i as int)),
                    decreases fields@.len() - i,
                {
                    Self::impl_write_fn_header_for_type(function, fields[i].0.as_str(), &fields[i].1);
                    assert(fv.take(i + 1).drop_last() =~= fv.take(i as int));
                    i = i + 1;
                }
                assert(fv.take(i as int) =~= fv);
                Self::impl_write_fn_for_struct(function, fields.as_slice());
            },
            Rust::Enum(variants) => {
                Self::impl_write_fn_for_enum(function, name, variants.as_slice());
            },
            Rust::DataEnum(variants) => {
                Self::impl_write_fn_for_data_enum(function, name, variants.as_slice());
            },
        }
        assert(codes_view(function.body@) =~= start + write_fn_code(definition.0@, definition.1@));
    }

    /// Appends to `function` a block that writes each field, and the result.
    fn impl_write_fn_for_struct(function: &mut Function, fields: &[(String, RustType)])
        ensures
            codes_view(final(function).body@) == codes_view(old(function).body@) + seq![
                block_of(""@, struct_writes(crate::model::rust::named_types_view(fields@))),
                CodeView::Line("Ok(())"@),
            ],
    {
        let ghost fv = crate::model::rust::named_types_view(fields@);
        let mut block = Block::new("");
        let mut i: usize = 0;
        while i < fields.len()
            invariant
                0 <= i <= fields@.len(),
                fv == crate::model::rust::named_types_view(fields@),
                block.after is None,
                block.before@ == ""@,
                codes_view(block.body@) == struct_writes(fv.take(i as int)),
            decreases fields@.len() - i,
        {
            let (field_name, field_type) = &fields[i];
            Self::impl_write_fn_for_type(
                &mut block,
                Some(Member::Instance(field_name.clone(), false, false)),
                field_type,
            );
            proof {
                assert(fv.take(i + 1).drop_last() =~= fv.take(i as int));
                assert(fv.take(i + 1).last() == (field_name@, field_type@));
            }
            i = i + 1;
        }
        assert(fv.take(i as int) =~= fv);
        function.push_block(block);
        function.line(String::from_str("Ok(())"));
    }

    /// Appends to `function` the code that writes the index of the variant of an enum.
    fn impl_write_fn_for_enum(function: &mut Function, name: &str, variants: &[String])
        ensures
            codes_view(final(function).body@) == codes_view(old(function).body@) + write_fn_code(
                name@,
                RustView::Enum(crate::model::rust::names_view(variants@)),
            ),
    {
        let ghost vs = crate::model::rust::names_view(variants@);
        let mut block = Block::new("match self");
        let mut i: usize = 0;
        while i < variants.len()
            invariant
                0 <= i <= variants@.len(),
                vs == crate::model::rust::names_view(variants@),
                block.after is None,
                block.before@ == "match self"@,
                codes_view(block.body@) == enum_write_arms(name@, vs, i as nat),
            decreases variants@.len() - i,
        {
            let index = dec_string(i);
            let last = dec_string(variants.len() - 1);
            let mut line = concat3(name, "::", variants[i].as_str());
            push_all(&mut line, " => writer.write_int(");
            push_all(&mut line, index.as_str());
            push_all(&mut line, ", (0, ");
            push_all(&mut line, last.as_str());
            push_all(&mut line, "))?,");
            block.line(line);
            i = i + 1;
        }
        function.push_block(block);
        function.line(String::from_str("Ok(())"));
        assert(codes_view(function.body@) =~= codes_view(old(function).body@) + write_fn_code(
            name@,
            RustView::Enum(vs),
        ));
    }

    /// Appends to `function` the code that writes the index of the variant of a data enum,
    /// where there is more than one, and then its value.
    fn impl_write_fn_for_data_enum(function: &mut Function, name: &str, variants: &[(String, RustType)])
        ensures
            codes_view(final(function).body@) == codes_view(old(function).body@) + write_fn_code(
                name@,
                RustView::DataEnum(crate::model::rust::named_types_view(variants@)),
            ),
    {
        let ghost vs = crate::model::rust::named_types_view(variants@);
        let mut block = Block::new("match self");
        let mut i: usize = 0;
        while i < variants.len()
            invariant
                0 <= i <= variants@.len(),
                vs == crate::model::rust::named_types_view(variants@),
                block.after is None,
                block.before@ == "match self"@,
                codes_view(block.body@) == data_enum_write_arms(name@, vs, i as nat),
            decreases variants@.len() - i,
        {
            let (variant, role) = &variants[i];
            let mut header = concat3(name, "::", variant.as_str());
            push_all(&mut header, "(value) =>");
            let mut block_case = Block::new(header.as_str());
            if variants.len() > 1 {
                let index = dec_string(i);
                let last = dec_string(variants.len() - 1);
                let mut line = concat3("writer.write_int(", index.as_str(), ", (0, ");
                push_all(&mut line, last.as_str());
                push_all(&mut line, "))?;");
                block_case.line(line);
            }
            let primitive = role.is_primitive();
            Self::impl_write_fn_for_type(
                &mut block_case,
                Some(Member::Local(String::from_str("value"), false, primitive)),
                role,
            );
            block.push_block(block_case);
            proof {
                assert(vs[i as int] == (variant@, role@));
            }
            i = i + 1;
        }
        function.push_block(block);
        function.line(String::from_str("Ok(())"));
        assert(codes_view(function.body@) =~= codes_view(old(function).body@) + write_fn_code(
            name@,
            RustView::DataEnum(vs),
        ));
    }
}


/// Whether `s` begins with `p`.
pub open spec fn starts_with(s: Seq<char>, p: Seq<char>) -> bool {
    p.len() <= s.len() && s.subrange(0, p.len() as int) == p
}

/// The text of the first line of code, if the code begins with a line.
pub open spec fn first_line(code: Seq<CodeView>) -> Seq<char> {
    if code.len() > 0 && code[0] is Line {
        code[0]->Line_0
    } else {
        Seq::empty()
    }
}

/// Whether the UPER writer call that a line beginning with `w` makes is undone by the reader
/// call that a line beginning with `r` makes: bits by bits, whole numbers within bounds by
/// whole numbers within bounds, unbounded numbers by unbounded numbers, texts by texts, octets
/// by octets, length determinants by length determinants.
pub open spec fn uper_inverse_calls(w: Seq<char>, r: Seq<char>) -> bool {
    ||| w == "writer.write_bit("@ && r == "reader.read_bit()?"@
    ||| w == "writer.write_int(i64::from("@ && r == "reader.read_int((i64::from(Self::"@
    ||| w == "writer.write_int_max("@ && r == "reader.read_int_max()?"@
    ||| w == "writer.write_utf8_string(&"@ && r == "reader.read_utf8_string()?"@
    ||| w == "writer.write_octet_string(&"@ && r == "reader.read_octet_string(None)?"@
    ||| w == "writer.write_length_determinant("@ && r
        == "let len = reader.read_length_determinant()?;"@
}

proof fn lemma_starts_with_concat(a: Seq<char>, b: Seq<char>)
    ensures
        starts_with(a + b, a),
{
    assert((a + b).subrange(0, a.len() as int) =~= a);
}

/// For every type but options and named types, the generated code that reads a value begins
/// with the reader call that undoes the writer call the generated code that writes it begins
/// with.
pub proof fn lemma_uper_read_undoes_write(type_string: Seq<char>, m: Option<MemberView>, t: RustTypeView)
    requires
        !(t is Option),
        !(t is Complex),
    ensures
        exists|w: Seq<char>, r: Seq<char>|
            #![trigger uper_inverse_calls(w, r)]
            uper_inverse_calls(w, r) && starts_with(first_line(write_code(m, t)), w) && starts_with(
                first_line(read_code(type_string, m, t)),
                r,
            ),
{
    let wl = first_line(write_code(m, t));
    let rl = first_line(read_code(type_string, m, t));
    let (w, r) = match t {
        RustTypeView::Bool => ("writer.write_bit("@, "reader.read_bit()?"@),
        RustTypeView::U64(None) => ("writer.write_int_max("@, "reader.read_int_max()?"@),
        RustTypeView::String => ("writer.write_utf8_string(&"@, "reader.read_utf8_string()?"@),
        RustTypeView::VecU8 => ("writer.write_octet_string(&"@, "reader.read_octet_string(None)?"@),
        RustTypeView::Vec(_) => (
            "writer.write_length_determinant("@,
            "let len = reader.read_length_determinant()?;"@,
        ),
        _ => ("writer.write_int(i64::from("@, "reader.read_int((i64::from(Self::"@),
    };
    match t {
        RustTypeView::Bool => {
            lemma_starts_with_concat(w, text_or_value(m) + ")?;"@);
            assert(wl == w + (text_or_value(m) + ")?;"@));
            lemma_starts_with_concat(r, Seq::empty());
            assert(rl =~= r + Seq::<char>::empty());
        },
        RustTypeView::U64(None) => {
            lemma_starts_with_concat(w, text_or_value(m) + ")?;"@);
            assert(wl == w + (text_or_value(m) + ")?;"@));
            lemma_starts_with_concat(r, Seq::empty());
            assert(rl =~= r + Seq::<char>::empty());
        },
        RustTypeView::String => {
            lemma_starts_with_concat(w, text_or_value(m) + ")?;"@);
            assert(wl == w + (text_or_value(m) + ")?;"@));
            lemma_starts_with_concat(r, Seq::empty());
            assert(rl =~= r + Seq::<char>::empty());
        },
        RustTypeView::VecU8 => {
            lemma_starts_with_concat(w, text_or_value(m) + "[..], None)?;"@);
            assert(wl == w + (text_or_value(m) + "[..], None)?;"@));
            lemma_starts_with_concat(r, Seq::empty());
            assert(rl =~= r + Seq::<char>::empty());
        },
        RustTypeView::Vec(_) => {
            let no_ref = match m {
                Some(mm) => member_text(member_no_ref(mm)),
                None => "value"@,
            };
            lemma_starts_with_concat(w, no_ref + ".len())?;"@);
            assert(wl == w + (no_ref + ".len())?;"@));
            lemma_starts_with_concat(r, Seq::empty());
            assert(rl =~= r + Seq::<char>::empty());
        },
        _ => {
            let wrest = text_or_value(m) + "), (i64::from(Self::"@ + range_prefix(m)
                + "min()), i64::from(Self::"@ + range_prefix(m) + "max())))?;"@;
            let rrest = range_prefix(m) + "min()), i64::from(Self::"@ + range_prefix(m)
                + "max())))? as "@ + rust_type_text(t);
            lemma_starts_with_concat(w, wrest);
            lemma_starts_with_concat(r, rrest);
            assert(wl =~= w + wrest);
            assert(rl =~= r + rrest);
        },
    }
    assert(uper_inverse_calls(w, r));
}


/// For a whole number within bounds, the generated code that writes it and the generated code
/// that reads it name the same bounds.
pub proof fn lemma_uper_int_bounds_agree(type_string: Seq<char>, m: Option<MemberView>, t: RustTypeView)
    requires
        !(t is Bool),
        !(t is U64 && t->U64_0 is None),
        !(t is String),
        !(t is VecU8),
        !(t is Vec),
        !(t is Option),
        !(t is Complex),
    ensures
        exists|bounds: Seq<char>|
            #![trigger "reader.read_int("@ + bounds]
            first_line(write_code(m, t)) == "writer.write_int(i64::from("@ + text_or_value(m) + "), "@
                + bounds + ")?;"@ && first_line(read_code(type_string, m, t)) == "reader.read_int("@
                + bounds + ")? as "@ + rust_type_text(t),
{
    reveal_strlit("), (i64::from(Self::");
    reveal_strlit("), ");
    reveal_strlit("(i64::from(Self::");
    reveal_strlit("max())))?;");
    reveal_strlit("max()))");
    reveal_strlit(")?;");
    reveal_strlit("reader.read_int((i64::from(Self::");
    reveal_strlit("reader.read_int(");
    reveal_strlit("max())))? as ");
    reveal_strlit(")? as ");
    let p = range_prefix(m);
    let bounds = "(i64::from(Self::"@ + p + "min()), i64::from(Self::"@ + p + "max()))"@;
    assert("), (i64::from(Self::"@ =~= "), "@ + "(i64::from(Self::"@);
    assert("max())))?;"@ =~= "max()))"@ + ")?;"@);
    assert("reader.read_int((i64::from(Self::"@ =~= "reader.read_int("@ + "(i64::from(Self::"@);
    assert("max())))? as "@ =~= "max()))"@ + ")? as "@);
    assert(first_line(write_code(m, t)) =~= "writer.write_int(i64::from("@ + text_or_value(m) + "), "@
        + bounds + ")?;"@);
    assert(first_line(read_code(type_string, m, t)) =~= "reader.read_int("@ + bounds + ")? as "@
        + rust_type_text(t));
}

} // verus!
