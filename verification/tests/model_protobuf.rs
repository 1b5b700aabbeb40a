use asn1rs::model::protobuf::{
    Protobuf, ProtobufType, DATAENUM_VARIABLE_NAME_REPLACEMENT, TUPLE_VARIABLE_NAME_REPLACEMENT,
};
use asn1rs::model::rust::{Rust, RustType};
use asn1rs::model::{Definition, Import, Model, Range};

#[test]
fn test_non_definitions_rust_to_protobuf() {
    let mut model_rust = Model::default();
    model_rust.name = "ModelWithOriginOfRust".into();
    model_rust.imports = vec![Import {
        what: vec!["a".into(), "b".into()],
        from: "some_very_specific_module".into(),
    }];
    let model_proto = model_rust.to_protobuf();
    assert_eq!(model_rust.name, model_proto.name);
    assert_eq!(model_rust.imports, model_proto.imports);
    assert!(model_proto.definitions.is_empty());
}

#[test]
fn test_simple_rust_struct_to_protobuf() {
    test_model_definition_conversion(
        vec![Definition(
            "Mine".into(),
            Rust::Struct(vec![("field".into(), RustType::U8(Range(0, 255)))]),
        )],
        vec![Definition(
            "Mine".into(),
            Protobuf::Message(vec![("field".into(), ProtobufType::UInt32)]),
        )],
    );
}

#[test]
fn test_simple_rust_tuple_to_protobuf() {
    test_model_definition_conversion(
        vec![Definition(
            "SuchTuple".into(),
            Rust::TupleStruct(RustType::Complex("VeryWow".into())),
        )],
        vec![Definition(
            "SuchTuple".into(),
            Protobuf::Message(vec![(
                TUPLE_VARIABLE_NAME_REPLACEMENT.into(),
                ProtobufType::Complex("VeryWow".into()),
            )]),
        )],
    );
}

#[test]
fn test_simple_rust_enum_to_protobuf() {
    test_model_definition_conversion(
        vec![Definition(
            "SuchEnum".into(),
            Rust::Enum(vec!["VeryWow".into(), "MuchGreat".into()]),
        )],
        vec![Definition(
            "SuchEnum".into(),
            Protobuf::Enum(vec!["VeryWow".into(), "MuchGreat".into()]),
        )],
    );
}

#[test]
fn test_simple_rust_strucht_with_option_to_protobuf() {
    test_model_definition_conversion(
        vec![Definition(
            "SuchStruct".into(),
            Rust::Struct(vec![(
                "very_optional".into(),
                RustType::Option(Box::new(RustType::String)),
            )]),
        )],
        vec![Definition(
            "SuchStruct".into(),
            Protobuf::Message(vec![("very_optional".into(), ProtobufType::String)]),
        )],
    );
}

#[test]
fn test_simple_rust_data_enum_to_protobuf() {
    test_model_definition_conversion(
        vec![Definition(
            "SuchDataEnum".into(),
            Rust::DataEnum(vec![("MuchVariant".into(), RustType::String)]),
        )],
        vec![Definition(
            "SuchDataEnum".into(),
            Protobuf::Message(vec![(
                DATAENUM_VARIABLE_NAME_REPLACEMENT.into(),
                ProtobufType::OneOf(vec![("much_variant".into(), ProtobufType::String)]),
            )]),
        )],
    );
}

#[test]
fn test_multiple_rust_defs_to_protobuf() {
    test_model_definition_conversion(
        vec![
            Definition("First".into(), Rust::Enum(vec!["A".into(), "B".into()])),
            Definition("Second".into(), Rust::TupleStruct(RustType::VecU8)),
        ],
        vec![
            Definition("First".into(), Protobuf::Enum(vec!["A".into(), "B".into()])),
            Definition(
                "Second".into(),
                Protobuf::Message(vec![(
                    TUPLE_VARIABLE_NAME_REPLACEMENT.into(),
                    ProtobufType::Bytes,
                )]),
            ),
        ],
    )
}

fn test_model_definition_conversion(
    rust: Vec<Definition<Rust>>,
    proto: Vec<Definition<Protobuf>>,
) {
    let mut model_rust = Model::default();
    model_rust.definitions = rust;
    let model_proto = model_rust.to_protobuf();
    assert_eq!(proto.len(), model_proto.definitions.len());
    assert_eq!(proto, model_proto.definitions)
}

#[test]
fn protobuf_type_names() {
    assert_eq!("repeated uint32", ProtobufType::Repeated(Box::new(ProtobufType::UInt32)).to_string());
    assert_eq!("sint64", ProtobufType::SInt64.to_string());
    assert_eq!("Other", ProtobufType::Complex("Other".into()).to_string());
    assert!(ProtobufType::Bytes.is_primitive());
    assert!(!ProtobufType::OneOf(vec![]).is_primitive());
}

#[test]
fn protobuf_nested_vectors_are_repeated_and_options_dropped() {
    let t = RustType::Option(Box::new(RustType::Vec(Box::new(RustType::I16(Range(-1, 1))))));
    assert_eq!(
        ProtobufType::Repeated(Box::new(ProtobufType::SInt32)),
        Model::<Protobuf>::definition_type_to_protobuf_type(&t)
    );
}
