//! The protobuf counterpart of the Rust model: messages and enums.
use vstd::prelude::*;

use crate::model::rust::{
    module_name, names_view, named_types_view, push_all, rust_module_name,
    rust_struct_or_enum_name, rust_variant_name, variant_name, DefinitionView, Rust, RustType,
    RustTypeView, RustView,
};
use crate::model::{Definition, Import, Model};

verus! {

/// The name of the one field of a message made of a tuple struct.
pub const TUPLE_VARIABLE_NAME_REPLACEMENT: &'static str = "value";

/// The name of the one field of a message made of a data enum.
pub const DATAENUM_VARIABLE_NAME_REPLACEMENT: &'static str = "value";

/// A protobuf field type.
#[derive(Debug, PartialOrd, PartialEq)]
pub enum ProtobufType {
    Bool,
    SFixed32,
    SFixed64,
    UInt32,
    UInt64,
    SInt32,
    SInt64,
    String,
    Bytes,
    Repeated(Box<ProtobufType>),
    OneOf(Vec<(String, ProtobufType)>),
    /// A type declared elsewhere, referred to by its name.
    Complex(String),
}

/// A protobuf field type as a value.
pub enum ProtobufTypeView {
    Bool,
    SFixed32,
    SFixed64,
    UInt32,
    UInt64,
    SInt32,
    SInt64,
    String,
    Bytes,
    Repeated(Box<ProtobufTypeView>),
    OneOf(Seq<(Seq<char>, ProtobufTypeView)>),
    Complex(Seq<char>),
}

/// The value of a protobuf field type.
pub open spec fn protobuf_type_view(t: ProtobufType) -> ProtobufTypeView
    decreases t,
{
    match t {
        ProtobufType::Bool => ProtobufTypeView::Bool,
        ProtobufType::SFixed32 => ProtobufTypeView::SFixed32,
        ProtobufType::SFixed64 => ProtobufTypeView::SFixed64,
        ProtobufType::UInt32 => ProtobufTypeView::UInt32,
        ProtobufType::UInt64 => ProtobufTypeView::UInt64,
        ProtobufType::SInt32 => ProtobufTypeView::SInt32,
        ProtobufType::SInt64 => ProtobufTypeView::SInt64,
        ProtobufType::String => ProtobufTypeView::String,
        ProtobufType::Bytes => ProtobufTypeView::Bytes,
        ProtobufType::Repeated(inner) => ProtobufTypeView::Repeated(Box::new(protobuf_type_view(*inner))),
        ProtobufType::OneOf(variants) => ProtobufTypeView::OneOf(one_of_view(variants@)),
        ProtobufType::Complex(name) => ProtobufTypeView::Complex(name@),
    }
}

/// The values of the variants of a `oneof`.
pub open spec fn one_of_view(variants: Seq<(String, ProtobufType)>) -> Seq<(Seq<char>, ProtobufTypeView)>
    decreases variants,
{
    if variants.len() == 0 {
        Seq::empty()
    } else {
        let v = variants[variants.len() - 1];
        one_of_view(variants.subrange(0, variants.len() - 1)).push((v.0@, protobuf_type_view(v.1)))
    }
}

/// The values of the variants of a `oneof` are those of each variant, in order.
pub proof fn lemma_one_of_view(variants: Seq<(String, ProtobufType)>)
    ensures
        one_of_view(variants).len() == variants.len(),
        forall|i: int| 0 <= i < variants.len() ==> #[trigger] one_of_view(variants)[i] == (
            variants[i].0@,
            variants[i].1@,
        ),
    decreases variants.len(),
{
    if variants.len() > 0 {
        lemma_one_of_view(variants.subrange(0, variants.len() - 1));
    }
}

impl View for ProtobufType {
    type V = ProtobufTypeView;

    open spec fn view(&self) -> ProtobufTypeView {
        protobuf_type_view(*self)
    }
}

/// How a protobuf field type is written in a `.proto` file.
pub open spec fn protobuf_type_text(t: ProtobufTypeView) -> Seq<char>
    decreases t,
{
    match t {
        ProtobufTypeView::Bool => "bool"@,
        ProtobufTypeView::SFixed32 => "sfixed32"@,
        ProtobufTypeView::SFixed64 => "sfixed64"@,
        ProtobufTypeView::UInt32 => "uint32"@,
        ProtobufTypeView::UInt64 => "uint64"@,
        ProtobufTypeView::SInt32 => "sint32"@,
        ProtobufTypeView::SInt64 => "sint64"@,
        ProtobufTypeView::String => "string"@,
        ProtobufTypeView::Bytes => "bytes"@,
        ProtobufTypeView::OneOf(_) => "oneof"@,
        ProtobufTypeView::Complex(name) => name,
        ProtobufTypeView::Repeated(inner) => "repeated "@ + protobuf_type_text(*inner),
    }
}

/// Whether a protobuf field type is a scalar one.
pub open spec fn is_primitive_protobuf(t: ProtobufTypeView) -> bool {
    match t {
        ProtobufTypeView::OneOf(_) | ProtobufTypeView::Complex(_) | ProtobufTypeView::Repeated(
            _,
        ) => false,
        _ => true,
    }
}

impl ProtobufType {
    /// Whether this is a scalar type.
    pub fn is_primitive(&self) -> (b: bool)
        ensures
            b == is_primitive_protobuf(self@),
    {
        match self {
            ProtobufType::Bool => true,
            ProtobufType::SFixed32 => true,
            ProtobufType::SFixed64 => true,
            ProtobufType::UInt32 => true,
            ProtobufType::UInt64 => true,
            ProtobufType::SInt32 => true,
            ProtobufType::SInt64 => true,
            ProtobufType::String => true,
            ProtobufType::Bytes => true,
            ProtobufType::OneOf(_) => false,
            ProtobufType::Complex(_) => false,
            ProtobufType::Repeated(_) => false,
        }
    }

    /// How this type is written in a `.proto` file.
    pub fn to_string(&self) -> (s: String)
        ensures
            s@ == protobuf_type_text(self@),
        decreases self,
    {
        match self {
            ProtobufType::Bool => String::from_str("bool"),
            ProtobufType::SFixed32 => String::from_str("sfixed32"),
            ProtobufType::SFixed64 => String::from_str("sfixed64"),
            ProtobufType::UInt32 => String::from_str("uint32"),
            ProtobufType::UInt64 => String::from_str("uint64"),
            ProtobufType::SInt32 => String::from_str("sint32"),
            ProtobufType::SInt64 => String::from_str("sint64"),
            ProtobufType::String => String::from_str("string"),
            ProtobufType::Bytes => String::from_str("bytes"),
            ProtobufType::OneOf(_) => String::from_str("oneof"),
            ProtobufType::Complex(name) => name.clone(),
            ProtobufType::Repeated(inner) => {
                let mut out = String::from_str("repeated ");
                let text = inner.to_string();
                push_all(&mut out, text.as_str());
                out
            },
        }
    }
}

/// A protobuf definition: a message of named fields, or an enum of named variants.
#[derive(Debug, PartialOrd, PartialEq)]
pub enum Protobuf {
    Message(Vec<(String, ProtobufType)>),
    Enum(Vec<String>),
}

/// A protobuf definition as a value.
pub enum ProtobufView {
    Message(Seq<(Seq<char>, ProtobufTypeView)>),
    Enum(Seq<Seq<char>>),
}

impl View for Protobuf {
    type V = ProtobufView;

    open spec fn view(&self) -> ProtobufView {
        match self {
            Protobuf::Message(fields) => ProtobufView::Message(one_of_view(fields@)),
            Protobuf::Enum(variants) => ProtobufView::Enum(names_view(variants@)),
        }
    }
}

/// The protobuf field type of a Rust type: integers of at most 32 bits become `uint32` or
/// `sint32`, the 64 bit ones `uint64` or `sint64`, options their inner type (every protobuf
/// field is optional) and vectors repeated fields.
pub open spec fn protobuf_type_of(t: RustTypeView) -> ProtobufTypeView
    decreases t,
{
    match t {
        RustTypeView::Bool => ProtobufTypeView::Bool,
        RustTypeView::U8(_) => ProtobufTypeView::UInt32,
        RustTypeView::I8(_) => ProtobufTypeView::SInt32,
        RustTypeView::U16(_) => ProtobufTypeView::UInt32,
        RustTypeView::I16(_) => ProtobufTypeView::SInt32,
        RustTypeView::U32(_) => ProtobufTypeView::UInt32,
        RustTypeView::I32(_) => ProtobufTypeView::SInt32,
        RustTypeView::U64(_) => ProtobufTypeView::UInt64,
        RustTypeView::I64(_) => ProtobufTypeView::SInt64,
        RustTypeView::String => ProtobufTypeView::String,
        RustTypeView::VecU8 => ProtobufTypeView::Bytes,
        RustTypeView::Complex(name) => ProtobufTypeView::Complex(name),
        RustTypeView::Option(inner) => protobuf_type_of(*inner),
        RustTypeView::Vec(inner) => ProtobufTypeView::Repeated(Box::new(protobuf_type_of(*inner))),
    }
}

/// Named Rust types as named protobuf field types, the names in snake case.
pub open spec fn protobuf_fields_of(fields: Seq<(Seq<char>, RustTypeView)>) -> Seq<
    (Seq<char>, ProtobufTypeView),
> {
    fields.map_values(|f: (Seq<char>, RustTypeView)| (module_name(f.0), protobuf_type_of(f.1)))
}

/// The protobuf definition of a Rust definition: a struct is a message of its fields, an enum
/// an enum, a data enum a message with a `oneof` of its variants, a tuple struct a message
/// with one field.
pub open spec fn protobuf_of(rust: RustView) -> ProtobufView {
    match rust {
        RustView::Struct(fields) => ProtobufView::Message(protobuf_fields_of(fields)),
        RustView::Enum(variants) => ProtobufView::Enum(
            variants.map_values(|v: Seq<char>| variant_name(v)),
        ),
        RustView::DataEnum(variants) => ProtobufView::Message(
            seq![
                (
                    DATAENUM_VARIABLE_NAME_REPLACEMENT@,
                    ProtobufTypeView::OneOf(protobuf_fields_of(variants)),
                ),
            ],
        ),
        RustView::TupleStruct(inner) => ProtobufView::Message(
            seq![(TUPLE_VARIABLE_NAME_REPLACEMENT@, protobuf_type_of(inner))],
        ),
    }
}

/// A protobuf definition as a value: its name and what it defines.
pub open spec fn protobuf_definitions_view(defs: Seq<Definition<Protobuf>>) -> Seq<
    (Seq<char>, ProtobufView),
> {
    defs.map_values(|d: Definition<Protobuf>| (d.0@, d.1@))
}

/// The protobuf definitions of Rust definitions, the names as struct or enum names.
pub open spec fn protobuf_definitions_of(defs: Seq<DefinitionView>) -> Seq<(Seq<char>, ProtobufView)> {
    defs.map_values(|d: DefinitionView| (variant_name(d.0), protobuf_of(d.1)))
}

/// The name of a protobuf field made of `name`: snake case.
pub fn proto_field_name(name: &str) -> (out: String)
    ensures
        out@ == module_name(name@),
{
    rust_module_name(name)
}

/// The name of a protobuf enum variant made of `name`.
pub fn proto_variant_name(name: &str) -> (out: String)
    ensures
        out@ == variant_name(name@),
{
    rust_variant_name(name)
}

/// The name of a protobuf message or enum made of `name`.
pub fn proto_definition_name(name: &str) -> (out: String)
    ensures
        out@ == variant_name(name@),
{
    rust_struct_or_enum_name(name)
}

/// Named Rust types as named protobuf field types.
fn protobuf_fields(fields: &Vec<(String, RustType)>) -> (out: Vec<(String, ProtobufType)>)
    ensures
        one_of_view(out@) == protobuf_fields_of(named_types_view(fields@)),
{
    let mut out: Vec<(String, ProtobufType)> = Vec::new();
    let mut i: usize = 0;
    while i < fields.len()
        invariant
            0 <= i <= fields@.len(),
            one_of_view(out@) == protobuf_fields_of(named_types_view(fields@.take(i as int))),
        decreases fields@.len() - i,
    {
        let name = proto_field_name(fields[i].0.as_str());
        let t = Model::<Protobuf>::definition_type_to_protobuf_type(&fields[i].1);
        proof {
            let pushed = out@.push((name, t));
            assert(pushed.subrange(0, out@.len() as int) =~= out@);
            assert(named_types_view(fields@.take(i + 1)) =~= named_types_view(fields@.take(i as int)).push(
                (fields@[i as int].0@, fields@[i as int].1@),
            ));
            assert(protobuf_fields_of(named_types_view(fields@.take(i + 1))) =~= protobuf_fields_of(
                named_types_view(fields@.take(i as int)),
            ).push((module_name(fields@[i as int].0@), protobuf_type_of(fields@[i as int].1@))));
        }
        out.push((name, t));
        i = i + 1;
    }
    assert(fields@.take(fields@.len() as int) =~= fields@);
    out
}

/// The fields of a message of one field.
fn single_field(name: &str, t: ProtobufType) -> (fields: Vec<(String, ProtobufType)>)
    ensures
        one_of_view(fields@) == seq![(name@, t@)],
{
    let mut fields: Vec<(String, ProtobufType)> = Vec::new();
    let ghost empty = fields@;
    fields.push((String::from_str(name), t));
    proof {
        assert(fields@.subrange(0, 0) =~= empty);
        assert(one_of_view(empty) == Seq::<(Seq<char>, ProtobufTypeView)>::empty());
        assert(one_of_view(fields@) =~= seq![(name@, t@)]);
    }
    fields
}

/// Whether two imports name the same items of the same module.
pub open spec fn same_import(a: Import, b: Import) -> bool {
    a.from@ == b.from@ && names_view(a.what@) == names_view(b.what@)
}

/// A copy of an import.
fn copy_import(import: &Import) -> (r: Import)
    ensures
        same_import(r, *import),
{
    let mut what: Vec<String> = Vec::new();
    let mut i: usize = 0;
    while i < import.what.len()
        invariant
            0 <= i <= import.what@.len(),
            names_view(what@) == names_view(import.what@.take(i as int)),
        decreases import.what@.len() - i,
    {
        let w = import.what[i].clone();
        proof {
            assert(names_view(what@.push(w)) =~= names_view(what@).push(w@));
            assert(names_view(import.what@.take(i + 1)) =~= names_view(import.what@.take(i as int)).push(
                import.what@[i as int]@,
            ));
        }
        what.push(w);
        i = i + 1;
    }
    assert(import.what@.take(import.what@.len() as int) =~= import.what@);
    Import { what, from: import.from.clone() }
}

impl Model<Protobuf> {
    /// The protobuf model of a Rust model: the same name and imports, and the protobuf
    /// definition of each definition (see [`Model::definition_to_protobuf`]).
    pub fn convert_rust_to_protobuf(rust_model: &Model<Rust>) -> (model: Model<Protobuf>)
        ensures
            model.name@ == rust_model.name@,
            model.imports@.len() == rust_model.imports@.len(),
            forall|i: int| 0 <= i < model.imports@.len() ==> same_import(
                #[trigger] model.imports@[i],
                rust_model.imports@[i],
            ),
            protobuf_definitions_view(model.definitions@) == protobuf_definitions_of(
                crate::model::rust::definitions_view(rust_model.definitions@),
            ),
    {
        let mut imports: Vec<Import> = Vec::new();
        let mut i: usize = 0;
        while i < rust_model.imports.len()
            invariant
                0 <= i <= rust_model.imports@.len(),
                imports@.len() == i,
                forall|j: int| 0 <= j < i ==> same_import(#[trigger] imports@[j], rust_model.imports@[j]),
            decreases rust_model.imports@.len() - i,
        {
            imports.push(copy_import(&rust_model.imports[i]));
            i = i + 1;
        }
        let mut definitions: Vec<Definition<Protobuf>> = Vec::new();
        let mut k: usize = 0;
        while k < rust_model.definitions.len()
            invariant
                0 <= k <= rust_model.definitions@.len(),
                protobuf_definitions_view(definitions@) == protobuf_definitions_of(
                    crate::model::rust::definitions_view(rust_model.definitions@.take(k as int)),
                ),
            decreases rust_model.definitions@.len() - k,
        {
            let definition = &rust_model.definitions[k];
            let proto = Self::definition_to_protobuf(&definition.1);
            let name = proto_definition_name(definition.0.as_str());
            let d = Definition(name, proto);
            proof {
                assert(protobuf_definitions_view(definitions@.push(d)) =~= protobuf_definitions_view(
                    definitions@,
                ).push((d.0@, d.1@)));
                assert(crate::model::rust::definitions_view(rust_model.definitions@.take(k + 1))
                    =~= crate::model::rust::definitions_view(
                    rust_model.definitions@.take(k as int),
                ).push((definition.0@, definition.1@)));
                assert(protobuf_definitions_of(
                    crate::model::rust::definitions_view(rust_model.definitions@.take(k + 1)),
                ) =~= protobuf_definitions_of(
                    crate::model::rust::definitions_view(rust_model.definitions@.take(k as int)),
                ).push((variant_name(definition.0@), protobuf_of(definition.1@))));
            }
            definitions.push(d);
            k = k + 1;
        }
        assert(rust_model.definitions@.take(rust_model.definitions@.len() as int)
            =~= rust_model.definitions@);
        Model { name: rust_model.name.clone(), imports, definitions }
    }

    /// The protobuf definition of a Rust definition: a struct becomes a message of its fields,
    /// an enum an enum, a data enum a message with a `oneof` of its variants, a tuple struct a
    /// message with one field.
    pub fn definition_to_protobuf(rust: &Rust) -> (p: Protobuf)
        ensures
            p@ == protobuf_of(rust@),
    {
        match rust {
            Rust::Struct(fields) => Protobuf::Message(protobuf_fields(fields)),
            Rust::Enum(variants) => {
                let mut out: Vec<String> = Vec::new();
                let mut i: usize = 0;
                while i < variants.len()
                    invariant
                        0 <= i <= variants@.len(),
                        names_view(out@) == names_view(variants@.take(i as int)).map_values(
                            |v: Seq<char>| variant_name(v),
                        ),
                    decreases variants@.len() - i,
                {
                    let name = proto_variant_name(variants[i].as_str());
                    proof {
                        assert(names_view(out@.push(name)) =~= names_view(out@).push(name@));
                        assert(names_view(variants@.take(i + 1)).map_values(
                            |v: Seq<char>| variant_name(v),
                        ) =~= names_view(variants@.take(i as int)).map_values(
                            |v: Seq<char>| variant_name(v),
                        ).push(variant_name(variants@[i as int]@)));
                    }
                    out.push(name);
                    i = i + 1;
                }
                assert(variants@.take(variants@.len() as int) =~= variants@);
                Protobuf::Enum(out)
            },
            Rust::DataEnum(variants) => {
                let one_of = ProtobufType::OneOf(protobuf_fields(variants));
                Protobuf::Message(single_field(DATAENUM_VARIABLE_NAME_REPLACEMENT, one_of))
            },
            Rust::TupleStruct(inner) => {
                let t = Self::definition_type_to_protobuf_type(inner);
                Protobuf::Message(single_field(TUPLE_VARIABLE_NAME_REPLACEMENT, t))
            },
        }
    }

    /// The protobuf field type of a Rust type (see [`protobuf_type_of`]).
    pub fn definition_type_to_protobuf_type(rust_type: &RustType) -> (t: ProtobufType)
        ensures
            t@ == protobuf_type_of(rust_type@),
        decreases rust_type,
    {
        match rust_type {
            RustType::Bool => ProtobufType::Bool,
            RustType::U8(_) => ProtobufType::UInt32,
            RustType::I8(_) => ProtobufType::SInt32,
            RustType::U16(_) => ProtobufType::UInt32,
            RustType::I16(_) => ProtobufType::SInt32,
            RustType::U32(_) => ProtobufType::UInt32,
            RustType::I32(_) => ProtobufType::SInt32,
            RustType::U64(_) => ProtobufType::UInt64,
            RustType::I64(_) => ProtobufType::SInt64,
            RustType::String => ProtobufType::String,
            RustType::VecU8 => ProtobufType::Bytes,
            RustType::Complex(complex) => ProtobufType::Complex(complex.clone()),
            RustType::Option(inner) => Self::definition_type_to_protobuf_type(inner),
            RustType::Vec(inner) => ProtobufType::Repeated(
                Box::new(Self::definition_type_to_protobuf_type(inner)),
            ),
        }
    }
}

impl Model<Rust> {
    /// The protobuf model of this model, as [`Model::convert_rust_to_protobuf`] makes it.
    pub fn to_protobuf(&self) -> (model: Model<Protobuf>)
        ensures
            model.name@ == self.name@,
            model.imports@.len() == self.imports@.len(),
            forall|i: int| 0 <= i < model.imports@.len() ==> same_import(
                #[trigger] model.imports@[i],
                self.imports@[i],
            ),
            protobuf_definitions_view(model.definitions@) == protobuf_definitions_of(
                crate::model::rust::definitions_view(self.definitions@),
            ),
    {
        Model::<Protobuf>::convert_rust_to_protobuf(self)
    }
}


/// The values a Rust integer type holds by its machine type, if it is an integer type.
pub open spec fn rust_int_values(t: RustTypeView) -> Option<(int, int)> {
    match t {
        RustTypeView::U8(_) => Some((0, u8::MAX as int)),
        RustTypeView::I8(_) => Some((i8::MIN as int, i8::MAX as int)),
        RustTypeView::U16(_) => Some((0, u16::MAX as int)),
        RustTypeView::I16(_) => Some((i16::MIN as int, i16::MAX as int)),
        RustTypeView::U32(_) => Some((0, u32::MAX as int)),
        RustTypeView::I32(_) => Some((i32::MIN as int, i32::MAX as int)),
        RustTypeView::U64(_) => Some((0, u64::MAX as int)),
        RustTypeView::I64(_) => Some((i64::MIN as int, i64::MAX as int)),
        _ => None,
    }
}

/// The values a protobuf integer field type holds, if it is one.
pub open spec fn protobuf_int_values(p: ProtobufTypeView) -> Option<(int, int)> {
    match p {
        ProtobufTypeView::UInt32 => Some((0, u32::MAX as int)),
        ProtobufTypeView::UInt64 => Some((0, u64::MAX as int)),
        ProtobufTypeView::SInt32 | ProtobufTypeView::SFixed32 => Some((i32::MIN as int, i32::MAX as int)),
        ProtobufTypeView::SInt64 | ProtobufTypeView::SFixed64 => Some((i64::MIN as int, i64::MAX as int)),
        _ => None,
    }
}

/// The protobuf field type of a Rust integer type is an integer type that holds every value of
/// the Rust type: nothing is lost on the way into protobuf.
pub proof fn lemma_protobuf_type_holds_rust_integers(t: RustTypeView)
    requires
        rust_int_values(t) is Some,
    ensures
        ({
            let (lo, hi) = rust_int_values(t)->Some_0;
            &&& protobuf_int_values(protobuf_type_of(t)) is Some
            &&& protobuf_int_values(protobuf_type_of(t))->Some_0.0 <= lo
            &&& hi <= protobuf_int_values(protobuf_type_of(t))->Some_0.1
        }),
{
}

} // verus!
