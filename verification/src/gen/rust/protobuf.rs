//! The generator of protobuf serialisation code: the bodies of the functions that read and
//! write a struct's fields through a protobuf reader and writer.
use vstd::prelude::*;

use crate::gen::rust::code::{block_of, block_view, codes_view, Block, CodeView, Function};
use crate::gen::rust::{generated_field_name, generator_field_name};
use crate::model::protobuf::{protobuf_type_of, protobuf_type_text, ProtobufType, ProtobufTypeView};
use crate::model::rust::{
    dec_text, inner_type_view, named_types_view, no_option_view, push_all, push_dec,
    rust_type_text, similar_view, RustType, RustTypeView,
};
use crate::model::{Model, Range};
use crate::model::protobuf::Protobuf;
use crate::parser::text_eq;

verus! {

/// The generator of protobuf serialisation code.
pub struct ProtobufSerializer;

/// The Rust type that a protobuf field type is read into: unsigned 32 bit numbers as `u32`,
/// 64 bit ones as `u64`, signed ones as `i32` or `i64`, bytes as `Vec<u8>`, repeated fields as
/// vectors.
pub open spec fn rust_of_protobuf(p: ProtobufTypeView) -> RustTypeView
    decreases p,
{
    match p {
        ProtobufTypeView::Bool => RustTypeView::Bool,
        ProtobufTypeView::SFixed32 => RustTypeView::I32(Range(0, i32::MAX)),
        ProtobufTypeView::SFixed64 => RustTypeView::I64(Range(0, i64::MAX)),
        ProtobufTypeView::UInt32 => RustTypeView::U32(Range(0, u32::MAX)),
        ProtobufTypeView::UInt64 => RustTypeView::U64(None),
        ProtobufTypeView::SInt32 => RustTypeView::I32(Range(0, i32::MAX)),
        ProtobufTypeView::SInt64 => RustTypeView::I64(Range(0, i64::MAX)),
        ProtobufTypeView::String => RustTypeView::String,
        ProtobufTypeView::Bytes => RustTypeView::VecU8,
        ProtobufTypeView::Repeated(inner) => RustTypeView::Vec(Box::new(rust_of_protobuf(*inner))),
        ProtobufTypeView::Complex(name) => RustTypeView::Complex(name),
        ProtobufTypeView::OneOf(_) => RustTypeView::Bool,
    }
}

/// The protobuf field type of a Rust type, as written in generated code.
pub open spec fn proto_text(t: RustTypeView) -> Seq<char> {
    protobuf_type_text(protobuf_type_of(t))
}

/// What converts a value read as its protobuf type into the Rust type `t`: ` as ` and the type,
/// where the types differ.
pub open spec fn as_rust_suffix(t: RustTypeView) -> Seq<char> {
    if t != rust_of_protobuf(protobuf_type_of(t)) {
        " as "@ + rust_type_text(t)
    } else {
        ""@
    }
}

/// What converts the value `s` of the Rust type `t` into its protobuf type: the protobuf's Rust
/// type's `from`, where the types are not similar.
pub open spec fn as_protobuf_expr(s: Seq<char>, t: RustTypeView) -> Seq<char> {
    let p = rust_of_protobuf(protobuf_type_of(t));
    if !similar_view(t, p) {
        rust_type_text(p) + "::from("@ + s + ")"@
    } else {
        s
    }
}

/// The wire format of values of the Rust type `t`; a named type is asked for its own, as the
/// value `complex_name`.
pub open spec fn format_text(t: RustTypeView, complex_name: Seq<char>) -> Seq<char> {
    match protobuf_type_of(t) {
        ProtobufTypeView::Bool | ProtobufTypeView::UInt32 | ProtobufTypeView::UInt64
        | ProtobufTypeView::SInt32 | ProtobufTypeView::SInt64 => "ProtobufFormat::VarInt"@,
        ProtobufTypeView::SFixed32 => "ProtobufFormat::Fixed32"@,
        ProtobufTypeView::SFixed64 => "ProtobufFormat::Fixed64"@,
        ProtobufTypeView::Complex(_) => complex_name + ".protobuf_format(),"@,
        _ => "ProtobufFormat::LengthDelimited"@,
    }
}

/// The lines that declare an empty result for each field.
pub open spec fn read_declarations(fields: Seq<(Seq<char>, RustTypeView)>) -> Seq<CodeView>
    decreases fields.len(),
{
    if fields.len() == 0 {
        Seq::empty()
    } else {
        read_declarations(fields.drop_last()).push(
            CodeView::Line("let mut read_"@ + generated_field_name(fields.last().0, false) + " = None;"@),
        )
    }
}

/// How the value of a field is kept where it was read: pushed to a vector, or as the value.
pub open spec fn keep_text(t: RustTypeView) -> Seq<char> {
    if no_option_view(t) is Vec {
        ".get_or_insert_with(Vec::default).push"@
    } else {
        " = Some"@
    }
}

/// The arm that reads the field `name` of type `t` with the number `tag`.
pub open spec fn read_arm(name: Seq<char>, t: RustTypeView, tag: nat) -> CodeView {
    match inner_type_view(t) {
        RustTypeView::Complex(complex) => CodeView::Block(
            dec_text(tag) + " => read_"@ + generated_field_name(name, false) + keep_text(t) + "("@,
            seq![
                block_of(
                    "if tag.1 == ProtobufFormat::LengthDelimited"@,
                    seq![
                        CodeView::Line("let bytes = reader.read_bytes()?;"@),
                        CodeView::Line(
                            complex + "::read_protobuf(&mut &bytes[..] as &mut ProtobufReader)?"@,
                        ),
                    ],
                ),
                block_of("else"@, seq![CodeView::Line(complex + "::read_protobuf(reader)?"@)]),
            ],
            Some("),"@),
        ),
        inner => CodeView::Line(
            dec_text(tag) + " => read_"@ + generated_field_name(name, false) + (if no_option_view(t) is Vec {
                ".get_or_insert_with(Vec::default).push("@
            } else {
                " = Some("@
            }) + "reader.read_"@ + proto_text(inner) + "()?),"@,
        ),
    }
}

/// The arms that read the fields, numbered from one.
pub open spec fn read_arms(fields: Seq<(Seq<char>, RustTypeView)>) -> Seq<CodeView>
    decreases fields.len(),
{
    if fields.len() == 0 {
        Seq::empty()
    } else {
        read_arms(fields.drop_last()).push(
            read_arm(fields.last().0, fields.last().1, fields.len()),
        )
    }
}

/// The line that gives the field `name` of type `t` its value: what was read, converted, or
/// the default.
pub open spec fn result_line(name: Seq<char>, t: RustTypeView) -> CodeView {
    let suffix = as_rust_suffix(inner_type_view(t));
    CodeView::Line(
        generated_field_name(name, true) + ": read_"@ + generated_field_name(name, false) + (if suffix.len()
            == 0 {
            ""@
        } else if no_option_view(t) is Vec {
            ".map(|v| v.into_iter().map(|v| v"@ + suffix + ").collect())"@
        } else {
            ".map(|v| v"@ + suffix + ")"@
        }) + (if t is Option {
            ""@
        } else {
            ".unwrap_or_default()"@
        }) + ","@,
    )
}

/// The lines that give each field its value.
pub open spec fn result_lines(fields: Seq<(Seq<char>, RustTypeView)>) -> Seq<CodeView>
    decreases fields.len(),
{
    if fields.len() == 0 {
        Seq::empty()
    } else {
        result_lines(fields.drop_last()).push(result_line(fields.last().0, fields.last().1))
    }
}

/// The code that reads a struct named `name` with the fields `fields`: tag by tag, each field
/// by its number, until the end or the tag zero, then the struct of what was read.
pub open spec fn proto_read_struct_code(name: Seq<char>, fields: Seq<(Seq<char>, RustTypeView)>) -> Seq<
    CodeView,
> {
    read_declarations(fields) + seq![
        block_of(
            "while let Ok(tag) = reader.read_tag()"@,
            seq![
                block_of(
                    "match tag.0"@,
                    seq![CodeView::Line("0 => break,"@)] + read_arms(fields) + seq![
                        CodeView::Line("_ => return Err(ProtobufError::invalid_tag_received(tag.0)),"@),
                    ],
                ),
            ],
        ),
        CodeView::Block("Ok("@ + name, result_lines(fields), Some(")"@)),
    ]
}

/// The block that writes each item of the vector field `attribute` of type `t` with the
/// number `tag`, each as length-delimited bytes.
pub open spec fn vec_write_block(t: RustTypeView, attribute: Seq<char>, tag: nat) -> CodeView {
    block_of(
        "for value in "@ + (if t is Option {
            attribute
        } else {
            "&self."@ + attribute
        }),
        seq![
            CodeView::Line("writer.write_tag("@ + dec_text(tag) + ", "@ + format_text(t, "value"@) + ")?;"@),
            CodeView::Line("let mut bytes = Vec::new();"@),
            match inner_type_view(t) {
                RustTypeView::Complex(_) => CodeView::Line(
                    "value.write_protobuf(&mut bytes as &mut ProtobufWriter)?;"@,
                ),
                r => CodeView::Line(
                    "(&mut bytes as &mut ProtobufWriter).write_"@ + proto_text(r) + "("@
                        + as_protobuf_expr("*value"@, r) + ")?;"@,
                ),
            },
            CodeView::Line("writer.write_bytes(&bytes[..])?;"@),
        ],
    )
}

/// How the value of the field `field` of type `t` is referred to when it is written as a
/// scalar: a text or bytes by reference, an optional value through its binding.
pub open spec fn scalar_target(field: Seq<char>, t: RustTypeView) -> Seq<char> {
    let r = no_option_view(t);
    (if protobuf_type_of(r) == ProtobufTypeView::String || rust_of_protobuf(protobuf_type_of(r))
        == RustTypeView::VecU8 {
        if t is Option {
            ""@
        } else {
            "&self."@
        }
    } else if t is Option {
        "*"@
    } else {
        "self."@
    }) + field
}

/// The code within the block that writes the field `name` of type `t` with the number `tag`.
pub open spec fn write_field_body(name: Seq<char>, t: RustTypeView, tag: nat) -> Seq<CodeView> {
    let field = generated_field_name(name, true);
    let prefix = if t is Option {
        ""@
    } else {
        "self."@
    };
    match no_option_view(t) {
        RustTypeView::Vec(_) => seq![vec_write_block(t, field, tag)],
        RustTypeView::Complex(_) => {
            let format_line = prefix + field + ".protobuf_format()"@;
            seq![
                CodeView::Line("writer.write_tag("@ + dec_text(tag) + ", "@ + format_line + ")?;"@),
                block_of(
                    "if "@ + format_line + " == ProtobufFormat::LengthDelimited"@,
                    seq![
                        CodeView::Line("let mut vec = Vec::new();"@),
                        CodeView::Line(
                            prefix + field + ".write_protobuf(&mut vec as &mut ProtobufWriter)?;"@,
                        ),
                        CodeView::Line("writer.write_bytes(&vec[..])?;"@),
                    ],
                ),
                block_of("else"@, seq![CodeView::Line(prefix + field + ".write_protobuf(writer)?;"@)]),
            ]
        },
        r => seq![
            CodeView::Line(
                "writer.write_tagged_"@ + proto_text(r) + "("@ + dec_text(tag) + ", "@
                    + as_protobuf_expr(scalar_target(field, t), r) + ")?;"@,
            ),
        ],
    }
}

/// The block that writes the field `name` of type `t` with the number `tag`; an optional one
/// only when present.
pub open spec fn write_field_block(name: Seq<char>, t: RustTypeView, tag: nat) -> CodeView {
    let field = generated_field_name(name, true);
    block_of(
        if t is Option {
            "if let Some(ref "@ + field + ") = self."@ + field
        } else {
            ""@
        },
        write_field_body(name, t, tag),
    )
}

/// The code that writes the fields of a struct, numbered from one.
pub open spec fn proto_write_struct_code(fields: Seq<(Seq<char>, RustTypeView)>) -> Seq<CodeView>
    decreases fields.len(),
{
    if fields.len() == 0 {
        Seq::empty()
    } else {
        proto_write_struct_code(fields.drop_last()).push(
            write_field_block(fields.last().0, fields.last().1, fields.len()),
        )
    }
}


/// Whether a protobuf field type holds no `oneof`.
pub open spec fn no_one_of(p: ProtobufTypeView) -> bool
    decreases p,
{
    match p {
        ProtobufTypeView::OneOf(_) => false,
        ProtobufTypeView::Repeated(inner) => no_one_of(*inner),
        _ => true,
    }
}

proof fn lemma_no_one_of(t: RustTypeView)
    ensures
        no_one_of(protobuf_type_of(t)),
    decreases t,
{
    match t {
        RustTypeView::Option(inner) => lemma_no_one_of(*inner),
        RustTypeView::Vec(inner) => lemma_no_one_of(*inner),
        _ => {},
    }
}

/// The Rust type that a protobuf field type is read into (see [`rust_of_protobuf`]).
fn protobuf_to_rust(p: &ProtobufType) -> (t: RustType)
    requires
        no_one_of(p@),
    ensures
        t@ == rust_of_protobuf(p@),
    decreases p,
{
    match p {
        ProtobufType::Bool => RustType::Bool,
        ProtobufType::SFixed32 => RustType::I32(Range(0, i32::MAX)),
        ProtobufType::SFixed64 => RustType::I64(Range(0, i64::MAX)),
        ProtobufType::UInt32 => RustType::U32(Range(0, u32::MAX)),
        ProtobufType::UInt64 => RustType::U64(None),
        ProtobufType::SInt32 => RustType::I32(Range(0, i32::MAX)),
        ProtobufType::SInt64 => RustType::I64(Range(0, i64::MAX)),
        ProtobufType::String => RustType::String,
        ProtobufType::Bytes => RustType::VecU8,
        ProtobufType::Repeated(inner) => RustType::Vec(Box::new(protobuf_to_rust(inner))),
        ProtobufType::Complex(name) => RustType::Complex(name.clone()),
        ProtobufType::OneOf(_) => RustType::Bool,
    }
}

/// Whether two Rust types are the same, ranges included.
fn rust_type_eq(a: &RustType, b: &RustType) -> (r: bool)
    ensures
        r == (a@ == b@),
    decreases a,
{
    match (a, b) {
        (RustType::Bool, RustType::Bool) => true,
        (RustType::I8(x), RustType::I8(y)) => x.0 == y.0 && x.1 == y.1,
        (RustType::U8(x), RustType::U8(y)) => x.0 == y.0 && x.1 == y.1,
        (RustType::I16(x), RustType::I16(y)) => x.0 == y.0 && x.1 == y.1,
        (RustType::U16(x), RustType::U16(y)) => x.0 == y.0 && x.1 == y.1,
        (RustType::I32(x), RustType::I32(y)) => x.0 == y.0 && x.1 == y.1,
        (RustType::U32(x), RustType::U32(y)) => x.0 == y.0 && x.1 == y.1,
        (RustType::I64(x), RustType::I64(y)) => x.0 == y.0 && x.1 == y.1,
        (RustType::U64(x), RustType::U64(y)) => match (x, y) {
            (Some(x), Some(y)) => x.0 == y.0 && x.1 == y.1,
            (None, None) => true,
            _ => false,
        },
        (RustType::String, RustType::String) => true,
        (RustType::VecU8, RustType::VecU8) => true,
        (RustType::Vec(x), RustType::Vec(y)) => rust_type_eq(x, y),
        (RustType::Option(x), RustType::Option(y)) => rust_type_eq(x, y),
        (RustType::Complex(x), RustType::Complex(y)) => text_eq(x.as_str(), y.as_str()),
        _ => false,
    }
}

/// The protobuf field type of a Rust type, as written in generated code.
fn proto_text_of(t: &RustType) -> (s: String)
    ensures
        s@ == proto_text(t@),
{
    Model::<Protobuf>::definition_type_to_protobuf_type(t).to_string()
}

/// What converts a value read as its protobuf type into the Rust type `t`.
fn as_rust_suffix_of(t: &RustType) -> (s: String)
    ensures
        s@ == as_rust_suffix(t@),
{
    proof {
        lemma_no_one_of(t@);
        reveal_strlit("");
        assert(""@ =~= Seq::<char>::empty());
    }
    let proto = Model::<Protobuf>::definition_type_to_protobuf_type(t);
    let proto_rust = protobuf_to_rust(&proto);
    if !rust_type_eq(t, &proto_rust) {
        let mut s = String::from_str(" as ");
        let text = t.to_string();
        push_all(&mut s, text.as_str());
        s
    } else {
        String::new()
    }
}

/// What converts the value `value` of the Rust type `t` into its protobuf type.
fn as_protobuf_expr_of(value: &str, t: &RustType) -> (s: String)
    ensures
        s@ == as_protobuf_expr(value@, t@),
{
    proof {
        lemma_no_one_of(t@);
    }
    let proto = Model::<Protobuf>::definition_type_to_protobuf_type(t);
    let proto_rust = protobuf_to_rust(&proto);
    if !t.similar(&proto_rust) {
        let mut s = proto_rust.to_string();
        push_all(&mut s, "::from(");
        push_all(&mut s, value);
        push_all(&mut s, ")");
        s
    } else {
        String::from_str(value)
    }
}

/// The wire format of values of the Rust type `t` (see [`format_text`]).
fn format_text_of(t: &RustType, complex_name: &str) -> (s: String)
    ensures
        s@ == format_text(t@, complex_name@),
{
    match Model::<Protobuf>::definition_type_to_protobuf_type(t) {
        ProtobufType::Bool | ProtobufType::UInt32 | ProtobufType::UInt64 | ProtobufType::SInt32
        | ProtobufType::SInt64 => String::from_str("ProtobufFormat::VarInt"),
        ProtobufType::SFixed32 => String::from_str("ProtobufFormat::Fixed32"),
        ProtobufType::SFixed64 => String::from_str("ProtobufFormat::Fixed64"),
        ProtobufType::Complex(_) => {
            let mut s = String::from_str(complex_name);
            push_all(&mut s, ".protobuf_format(),");
            s
        },
        _ => String::from_str("ProtobufFormat::LengthDelimited"),
    }
}

/// Whether a type is a vector, options aside.
fn is_vec_without_option(t: &RustType) -> (b: bool)
    ensures
        b == (no_option_view(t@) is Vec),
{
    match t.clone().no_option() {
        RustType::Vec(_) => true,
        _ => false,
    }
}

/// The digits of `n`.
fn dec_string(n: usize) -> (s: String)
    ensures
        s@ == dec_text(n as nat),
{
    let mut s = String::new();
    push_dec(&mut s, n as u64);
    assert(s@ =~= dec_text(n as nat));
    s
}


impl ProtobufSerializer {
    /// Appends to `function` the code that reads a struct named `name` with the fields
    /// `fields` (see [`proto_read_struct_code`]).
    pub fn impl_read_fn_for_struct(function: &mut Function, name: &str, fields: &[(String, RustType)])
        ensures
            codes_view(final(function).body@) == codes_view(old(function).body@) + proto_read_struct_code(
                name@,
                named_types_view(fields@),
            ),
    {
        let ghost fv = named_types_view(fields@);
        let ghost start = codes_view(function.body@);
        let mut i: usize = 0;
        while i < fields.len()
            invariant
                0 <= i <= fields@.len(),
                fv == named_types_view(fields@),
                codes_view(function.body@) == start + read_declarations(fv.take(i as int)),
            decreases fields@.len() - i,
        {
            let field = generator_field_name(fields[i].0.as_str(), false);
            let mut line = String::from_str("let mut read_");
            push_all(&mut line, field.as_str());
            push_all(&mut line, " = None;");
            function.line(line);
            proof {
                assert(fv.take(i + 1).drop_last() =~= fv.take(i as int));
                assert(fv.take(i + 1).last() == (fields@[i as int].0@, fields@[i as int].1@));
                assert(codes_view(function.body@) =~= start + read_declarations(fv.take(i + 1)));
            }
            i = i + 1;
        }
        assert(fv.take(i as int) =~= fv);
        let ghost middle = codes_view(function.body@);

        let mut block_reader_loop = Block::new("while let Ok(tag) = reader.read_tag()");
        let mut block_match_tag = Block::new("match tag.0");
        block_match_tag.line(String::from_str("0 => break,"));
        let ghost arms_start = codes_view(block_match_tag.body@);
        let mut k: usize = 0;
        while k < fields.len()
            invariant
                0 <= k <= fields@.len(),
                fv == named_types_view(fields@),
                block_match_tag.before@ == "match tag.0"@,
                block_match_tag.after is None,
                codes_view(block_match_tag.body@) == arms_start + read_arms(fv.take(k as int)),
            decreases fields@.len() - k,
        {
            let (field_name, field_type) = &fields[k];
            let field = generator_field_name(field_name.as_str(), false);
            let tag = dec_string(k + 1);
            let is_vec = is_vec_without_option(field_type);
            let inner = field_type.clone().into_inner_type();
            match &inner {
                RustType::Complex(complex) => {
                    let mut header = tag;
                    push_all(&mut header, " => read_");
                    push_all(&mut header, field.as_str());
                    if is_vec {
                        push_all(&mut header, ".get_or_insert_with(Vec::default).push");
                    } else {
                        push_all(&mut header, " = Some");
                    }
                    push_all(&mut header, "(");
                    let mut block_case = Block::new(header.as_str());
                    let mut block_case_if = Block::new("if tag.1 == ProtobufFormat::LengthDelimited");
                    block_case_if.line(String::from_str("let bytes = reader.read_bytes()?;"));
                    let mut read_line = complex.clone();
                    push_all(&mut read_line, "::read_protobuf(&mut &bytes[..] as &mut ProtobufReader)?");
                    block_case_if.line(read_line);
                    let mut block_case_el = Block::new("else");
                    let mut else_line = complex.clone();
                    push_all(&mut else_line, "::read_protobuf(reader)?");
                    block_case_el.line(else_line);
                    assert(codes_view(block_case_if.body@) =~= seq![
                        CodeView::Line("let bytes = reader.read_bytes()?;"@),
                        CodeView::Line(
                            complex@ + "::read_protobuf(&mut &bytes[..] as &mut ProtobufReader)?"@,
                        ),
                    ]);
                    assert(codes_view(block_case_el.body@) =~= seq![
                        CodeView::Line(complex@ + "::read_protobuf(reader)?"@),
                    ]);
                    let ghost if_view = block_view(block_case_if);
                    let ghost el_view = block_view(block_case_el);
                    block_case.push_block(block_case_if);
                    block_case.push_block(block_case_el);
                    block_case.after("),");
                    assert(codes_view(block_case.body@) =~= seq![if_view, el_view]);
                    assert(inner_type_view(field_type@) == RustTypeView::Complex(complex@));
                    assert(header@ =~= dec_text((k + 1) as nat) + " => read_"@ + generated_field_name(
                        field_name@,
                        false,
                    ) + keep_text(field_type@) + "("@);
                    assert(block_view(block_case) == read_arm(field_name@, field_type@, (k + 1) as nat));
                    block_match_tag.push_block(block_case);
                },
                _ => {
                    let mut line = tag;
                    push_all(&mut line, " => read_");
                    push_all(&mut line, field.as_str());
                    if is_vec {
                        push_all(&mut line, ".get_or_insert_with(Vec::default).push(");
                    } else {
                        push_all(&mut line, " = Some(");
                    }
                    push_all(&mut line, "reader.read_");
                    let text = proto_text_of(&inner);
                    push_all(&mut line, text.as_str());
                    push_all(&mut line, "()?),");
                    assert(inner@ == inner_type_view(field_type@));
                    assert(CodeView::Line(line@) == read_arm(field_name@, field_type@, (k + 1) as nat));
                    block_match_tag.line(line);
                },
            }
            proof {
                assert(fv.take(k + 1).drop_last() =~= fv.take(k as int));
                assert(fv.take(k + 1).last() == (field_name@, field_type@));
                assert(codes_view(block_match_tag.body@) =~~= arms_start + read_arms(fv.take(k + 1)));
            }
            k = k + 1;
        }
        assert(fv.take(k as int) =~= fv);
        block_match_tag.line(
            String::from_str("_ => return Err(ProtobufError::invalid_tag_received(tag.0)),"),
        );
        assert(arms_start =~= seq![CodeView::Line("0 => break,"@)]);
        assert(codes_view(block_match_tag.body@) =~= seq![CodeView::Line("0 => break,"@)] + read_arms(fv)
            + seq![CodeView::Line("_ => return Err(ProtobufError::invalid_tag_received(tag.0)),"@)]);
        let ghost match_view = block_view(block_match_tag);
        block_reader_loop.push_block(block_match_tag);
        assert(codes_view(block_reader_loop.body@) =~= seq![match_view]);
        let ghost loop_view = block_view(block_reader_loop);
        function.push_block(block_reader_loop);
        assert(codes_view(function.body@) =~= middle.push(loop_view));

        let mut header = String::from_str("Ok(");
        push_all(&mut header, name);
        let mut return_block = Block::new(header.as_str());
        let mut j: usize = 0;
        while j < fields.len()
            invariant
                0 <= j <= fields@.len(),
                fv == named_types_view(fields@),
                return_block.before@ == "Ok("@ + name@,
                return_block.after is None,
                codes_view(return_block.body@) == result_lines(fv.take(j as int)),
            decreases fields@.len() - j,
        {
            let (field_name, field_type) = &fields[j];
            let inner = field_type.clone().into_inner_type();
            let suffix = as_rust_suffix_of(&inner);
            let mut line = generator_field_name(field_name.as_str(), true);
            push_all(&mut line, ": read_");
            let plain = generator_field_name(field_name.as_str(), false);
            push_all(&mut line, plain.as_str());
            if suffix.as_str().unicode_len() == 0 {
            } else if is_vec_without_option(field_type) {
                push_all(&mut line, ".map(|v| v.into_iter().map(|v| v");
                push_all(&mut line, suffix.as_str());
                push_all(&mut line, ").collect())");
            } else {
                push_all(&mut line, ".map(|v| v");
                push_all(&mut line, suffix.as_str());
                push_all(&mut line, ")");
            }
            if let RustType::Option(_) = field_type {
            } else {
                push_all(&mut line, ".unwrap_or_default()");
            }
            push_all(&mut line, ",");
            proof {
                reveal_strlit("");
                assert(""@ =~= Seq::<char>::empty());
                assert(fv.take(j + 1).drop_last() =~= fv.take(j as int));
                assert(fv.take(j + 1).last() == (field_name@, field_type@));
                assert(line@ =~= match result_line(field_name@, field_type@) {
                    CodeView::Line(l) => l,
                    _ => Seq::empty(),
                });
            }
            return_block.line(line);
            assert(codes_view(return_block.body@) =~= result_lines(fv.take(j + 1)));
            j = j + 1;
        }
        assert(fv.take(j as int) =~= fv);
        return_block.after(")");
        let ghost return_view = block_view(return_block);
        assert(return_view == CodeView::Block("Ok("@ + name@, result_lines(fv), Some(")"@)));
        function.push_block(return_block);
        assert(codes_view(function.body@) =~= middle.push(loop_view).push(return_view));
        assert(loop_view == block_of(
            "while let Ok(tag) = reader.read_tag()"@,
            seq![
                block_of(
                    "match tag.0"@,
                    seq![CodeView::Line("0 => break,"@)] + read_arms(fv) + seq![
                        CodeView::Line("_ => return Err(ProtobufError::invalid_tag_received(tag.0)),"@),
                    ],
                ),
            ],
        ));
        assert(codes_view(function.body@) =~~= start + proto_read_struct_code(name@, fv));
    }

    /// Appends to `block_writer` the block that writes each item of the vector field
    /// `attribute_name` of type `aliased` with the number `tag` (see [`vec_write_block`]).
    fn impl_write_for_vec_attribute(
        block_writer: &mut Block,
        aliased: &RustType,
        attribute_name: &str,
        tag: usize,
    )
        ensures
            final(block_writer).before == old(block_writer).before,
            final(block_writer).after == old(block_writer).after,
            codes_view(final(block_writer).body@) == codes_view(old(block_writer).body@).push(
                vec_write_block(aliased@, attribute_name@, tag as nat),
            ),
    {
        let mut header = String::from_str("for value in ");
        if let RustType::Option(_) = aliased {
            push_all(&mut header, attribute_name);
        } else {
            push_all(&mut header, "&self.");
            push_all(&mut header, attribute_name);
        }
        let mut block_for = Block::new(header.as_str());
        let mut tag_line = String::from_str("writer.write_tag(");
        let tag_text = dec_string(tag);
        push_all(&mut tag_line, tag_text.as_str());
        push_all(&mut tag_line, ", ");
        let format = format_text_of(aliased, "value");
        push_all(&mut tag_line, format.as_str());
        push_all(&mut tag_line, ")?;");
        let ghost l1 = tag_line@;
        block_for.line(tag_line);
        block_for.line(String::from_str("let mut bytes = Vec::new();"));
        let inner = aliased.clone().into_inner_type();
        let third = match &inner {
            RustType::Complex(_) => String::from_str(
                "value.write_protobuf(&mut bytes as &mut ProtobufWriter)?;",
            ),
            _ => {
                let mut line = String::from_str("(&mut bytes as &mut ProtobufWriter).write_");
                let text = proto_text_of(&inner);
                push_all(&mut line, text.as_str());
                push_all(&mut line, "(");
                let expr = as_protobuf_expr_of("*value", &inner);
                push_all(&mut line, expr.as_str());
                push_all(&mut line, ")?;");
                line
            },
        };
        let ghost l3 = third@;
        block_for.line(third);
        block_for.line(String::from_str("writer.write_bytes(&bytes[..])?;"));
        proof {
            let expected = vec_write_block(aliased@, attribute_name@, tag as nat);
            assert(inner@ == inner_type_view(aliased@));
            assert(l1 =~= "writer.write_tag("@ + dec_text(tag as nat) + ", "@ + format_text(
                aliased@,
                "value"@,
            ) + ")?;"@);
            assert(CodeView::Line(l3) == match inner_type_view(aliased@) {
                RustTypeView::Complex(_) => CodeView::Line(
                    "value.write_protobuf(&mut bytes as &mut ProtobufWriter)?;"@,
                ),
                r => CodeView::Line(
                    "(&mut bytes as &mut ProtobufWriter).write_"@ + proto_text(r) + "("@
                        + as_protobuf_expr("*value"@, r) + ")?;"@,
                ),
            });
            assert(header@ =~= "for value in "@ + (if aliased@ is Option {
                attribute_name@
            } else {
                "&self."@ + attribute_name@
            }));
            assert(codes_view(block_for.body@) =~= seq![
                CodeView::Line(l1),
                CodeView::Line("let mut bytes = Vec::new();"@),
                CodeView::Line(l3),
                CodeView::Line("writer.write_bytes(&bytes[..])?;"@),
            ]);
            assert(block_for.before@ == header@);
            assert(block_for.after is None);
            assert(expected matches CodeView::Block(b, _, a) && b == header@ && a is None);
            assert(expected matches CodeView::Block(_, body, _) && body.len() == 4);
            assert(expected matches CodeView::Block(_, body, _) && body[0] == CodeView::Line(l1));
            assert(expected matches CodeView::Block(_, body, _) && body[2] == CodeView::Line(l3));
            assert(expected matches CodeView::Block(_, body, _) && body =~= codes_view(block_for.body@));
            assert(expected == CodeView::Block(header@, codes_view(block_for.body@), None));
            assert(block_view(block_for) == expected);
        }
        block_writer.push_block(block_for);
    }

    /// Appends to `function` a block for each field that writes it with its number (see
    /// [`proto_write_struct_code`]).
    pub fn impl_write_fn_for_struct(function: &mut Function, fields: &[(String, RustType)])
        ensures
            codes_view(final(function).body@) == codes_view(old(function).body@) + proto_write_struct_code(
                named_types_view(fields@),
            ),
    {
        let ghost fv = named_types_view(fields@);
        let ghost start = codes_view(function.body@);
        let mut i: usize = 0;
        while i < fields.len()
            invariant
                0 <= i <= fields@.len(),
                fv == named_types_view(fields@),
                codes_view(function.body@) == start + proto_write_struct_code(fv.take(i as int)),
            decreases fields@.len() - i,
        {
            let (field_name, field_type) = &fields[i];
            let field = generator_field_name(field_name.as_str(), true);
            let is_option = if let RustType::Option(_) = field_type {
                true
            } else {
                false
            };
            let mut header = String::new();
            if is_option {
                push_all(&mut header, "if let Some(ref ");
                push_all(&mut header, field.as_str());
                push_all(&mut header, ") = self.");
                push_all(&mut header, field.as_str());
            }
            let mut block = Block::new(header.as_str());
            let tag = dec_string(i + 1);
            let prefix = if is_option {
                ""
            } else {
                "self."
            };
            let stripped = field_type.clone().no_option();
            match &stripped {
                RustType::Vec(_) => {
                    let ghost before_body = codes_view(block.body@);
                    Self::impl_write_for_vec_attribute(&mut block, field_type, field.as_str(), i + 1);
                    assert(before_body =~= Seq::<CodeView>::empty());
                    assert(no_option_view(field_type@) is Vec);
                    assert(codes_view(block.body@) =~= seq![
                        vec_write_block(field_type@, field@, (i + 1) as nat),
                    ]);
                    assert(codes_view(block.body@) == write_field_body(
                        field_name@,
                        field_type@,
                        (i + 1) as nat,
                    ));
                },
                RustType::Complex(_) => {
                    let mut format_line = String::from_str(prefix);
                    push_all(&mut format_line, field.as_str());
                    push_all(&mut format_line, ".protobuf_format()");
                    let mut tag_line = String::from_str("writer.write_tag(");
                    push_all(&mut tag_line, tag.as_str());
                    push_all(&mut tag_line, ", ");
                    push_all(&mut tag_line, format_line.as_str());
                    push_all(&mut tag_line, ")?;");
                    block.line(tag_line);
                    let mut if_header = String::from_str("if ");
                    push_all(&mut if_header, format_line.as_str());
                    push_all(&mut if_header, " == ProtobufFormat::LengthDelimited");
                    let mut block_if = Block::new(if_header.as_str());
                    block_if.line(String::from_str("let mut vec = Vec::new();"));
                    let mut write_line = String::from_str(prefix);
                    push_all(&mut write_line, field.as_str());
                    push_all(&mut write_line, ".write_protobuf(&mut vec as &mut ProtobufWriter)?;");
                    block_if.line(write_line);
                    block_if.line(String::from_str("writer.write_bytes(&vec[..])?;"));
                    let mut block_el = Block::new("else");
                    let mut else_line = String::from_str(prefix);
                    push_all(&mut else_line, field.as_str());
                    push_all(&mut else_line, ".write_protobuf(writer)?;");
                    block_el.line(else_line);
                    let ghost tag_view = CodeView::Line(tag_line@);
                    assert(codes_view(block_if.body@) =~= seq![
                        CodeView::Line("let mut vec = Vec::new();"@),
                        CodeView::Line(write_line@),
                        CodeView::Line("writer.write_bytes(&vec[..])?;"@),
                    ]);
                    assert(codes_view(block_el.body@) =~= seq![CodeView::Line(else_line@)]);
                    let ghost if_view = block_view(block_if);
                    let ghost el_view = block_view(block_el);
                    block.push_block(block_if);
                    block.push_block(block_el);
                    proof {
                        reveal_strlit("");
                        assert(""@ =~= Seq::<char>::empty());
                        let pre = if field_type@ is Option {
                            ""@
                        } else {
                            "self."@
                        };
                        assert(prefix@ == pre);
                        assert(format_line@ =~= pre + field@ + ".protobuf_format()"@);
                        assert(tag_line@ =~= "writer.write_tag("@ + dec_text((i + 1) as nat) + ", "@
                            + format_line@ + ")?;"@);
                        assert(write_line@ =~= pre + field@
                            + ".write_protobuf(&mut vec as &mut ProtobufWriter)?;"@);
                        assert(else_line@ =~= pre + field@ + ".write_protobuf(writer)?;"@);
                        assert(if_header@ =~= "if "@ + format_line@ + " == ProtobufFormat::LengthDelimited"@);
                        assert(no_option_view(field_type@) is Complex);
                        assert(codes_view(block.body@) =~= seq![tag_view, if_view, el_view]);
                        let expected = write_field_body(field_name@, field_type@, (i + 1) as nat);
                        assert(expected.len() == 3);
                        assert(expected[0] == tag_view);
                        assert(expected[1] == if_view);
                        assert(expected[2] == el_view);
                        assert(codes_view(block.body@) =~= expected);
                    }
                },
                r => {
                    proof {
                        lemma_no_one_of(r@);
                    }
                    let proto = Model::<Protobuf>::definition_type_to_protobuf_type(r);
                    let proto_rust = protobuf_to_rust(&proto);
                    let by_reference = match &proto {
                        ProtobufType::String => true,
                        _ => match &proto_rust {
                            RustType::VecU8 => true,
                            _ => false,
                        },
                    };
                    let mut target = String::new();
                    if by_reference {
                        if !is_option {
                            push_all(&mut target, "&self.");
                        }
                    } else if is_option {
                        push_all(&mut target, "*");
                    } else {
                        push_all(&mut target, "self.");
                    }
                    push_all(&mut target, field.as_str());
                    let mut line = String::from_str("writer.write_tagged_");
                    let text = proto_text_of(r);
                    push_all(&mut line, text.as_str());
                    push_all(&mut line, "(");
                    push_all(&mut line, tag.as_str());
                    push_all(&mut line, ", ");
                    let expr = as_protobuf_expr_of(target.as_str(), r);
                    push_all(&mut line, expr.as_str());
                    push_all(&mut line, ")?;");
                    proof {
                        reveal_strlit("");
                        assert(""@ =~= Seq::<char>::empty());
                        assert(target@ =~= scalar_target(field@, field_type@));
                    }
                    let ghost line_view = CodeView::Line(line@);
                    let ghost before_body = codes_view(block.body@);
                    block.line(line);
                    proof {
                        assert(before_body =~= Seq::<CodeView>::empty());
                        assert(r@ == no_option_view(field_type@));
                        assert(!(no_option_view(field_type@) is Vec) && !(no_option_view(field_type@) is Complex));
                        let expected = write_field_body(field_name@, field_type@, (i + 1) as nat);
                        assert(expected =~= seq![line_view]);
                        assert(codes_view(block.body@) =~= expected);
                    }
                },
            }
            proof {
                reveal_strlit("");
                assert(""@ =~= Seq::<char>::empty());
                assert(block_view(block) == write_field_block(field_name@, field_type@, (i + 1) as nat));
                assert(fv.take(i + 1).drop_last() =~= fv.take(i as int));
                assert(fv.take(i + 1).last() == (field_name@, field_type@));
            }
            function.push_block(block);
            assert(codes_view(function.body@) =~= start + proto_write_struct_code(fv.take(i + 1)));
            i = i + 1;
        }
        assert(fv.take(i as int) =~= fv);
    }
}

} // verus!
