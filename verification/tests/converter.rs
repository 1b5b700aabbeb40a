use asn1rs::converter::{Converter, Error};
use asn1rs::model::Error as ModelError;

const SCHEMA: &str = r"
    SimpleSchema DEFINITIONS AUTOMATIC TAGS ::=
    BEGIN
    IMPORTS Other FROM OtherModule;

    Simple ::= SEQUENCE {
        small INTEGER(0..255),
        other Other OPTIONAL
    }
    END
";

#[test]
fn converter_loads_and_converts_to_protobuf() {
    let mut converter = Converter::default();
    converter.load(SCHEMA).unwrap();
    assert_eq!(1, converter.models().len());
    assert_eq!("SimpleSchema", converter.models()[0].name);
    assert!(converter.integers_fit());
    let converted = converter.to_protobuf().unwrap();
    assert_eq!(1, converted.len());
    assert_eq!("SimpleSchema", converted[0].0);
    assert_eq!("simple_schema.proto", converted[0].1[0].0);
    assert_eq!(
        "syntax = 'proto3';\npackage simple_schema;\n\nimport 'other.proto';\n\n\
         message Simple {\n    uint32 small = 1;\n    other.Other other = 2;\n}\n",
        converted[0].1[0].1
    );
}

#[test]
fn converter_refuses_what_is_no_module() {
    let mut converter = Converter::default();
    let result = converter.load("Name DEFINITIONS ::= BEGIN");
    assert!(matches!(result, Err(Error::Model(ModelError::UnexpectedEndOfStream))));
    assert!(converter.models().is_empty());
    let result = converter.load("");
    assert!(matches!(result, Err(Error::Model(ModelError::MissingModuleName))));
}

#[test]
fn converter_finds_ranges_that_do_not_fit() {
    let mut converter = Converter::default();
    converter
        .load("S DEFINITIONS ::= BEGIN T ::= INTEGER(-9223372036854775808..0) END")
        .unwrap();
    assert!(!converter.integers_fit());
}
