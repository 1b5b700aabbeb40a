use asn1rs::gen::protobuf::ProtobufDefGenerator;
use asn1rs::model::protobuf::{Protobuf, ProtobufType};
use asn1rs::model::{Definition, Import, Model};

fn model() -> Model<Protobuf> {
    let mut model = Model::default();
    model.name = "SimpleSchema".to_string();
    model.imports = vec![Import {
        what: vec!["Other".to_string()],
        from: "OtherModule".to_string(),
    }];
    model.definitions = vec![
        Definition(
            "Color".to_string(),
            Protobuf::Enum(vec!["red".to_string(), "dark-blue".to_string()]),
        ),
        Definition(
            "Pair".to_string(),
            Protobuf::Message(vec![
                ("first-value".to_string(), ProtobufType::UInt32),
                ("other".to_string(), ProtobufType::Complex("Other".to_string())),
                ("local".to_string(), ProtobufType::Complex("Local".to_string())),
            ]),
        ),
        Definition(
            "Choice".to_string(),
            Protobuf::Message(vec![(
                "value".to_string(),
                ProtobufType::OneOf(vec![
                    ("a".to_string(), ProtobufType::String),
                    ("b".to_string(), ProtobufType::Repeated(Box::new(ProtobufType::Bytes))),
                ]),
            )]),
        ),
    ];
    model
}

#[test]
fn proto_file_of_a_model() {
    let (name, content) = ProtobufDefGenerator::generate_file(&model()).unwrap();
    assert_eq!("simple_schema.proto", name);
    assert_eq!(
        "syntax = 'proto3';\n\
         package simple.schema;\n\
         \n\
         import 'other_module.proto';\n\
         \n\
         enum Color {\n    RED = 0;\n    DARK_BLUE = 1;\n}\n\
         message Pair {\n    uint32 first_value = 1;\n    other.module.Other other = 2;\n    Local local = 3;\n}\n\
         message Choice {\n    oneof value {\n        string a = 1;\n        repeated bytes b = 2;\n    }\n}\n",
        content
    );
}

#[test]
fn proto_generator_writes_each_model() {
    let mut generator = ProtobufDefGenerator::default();
    generator.add_model(model());
    let mut other = Model::default();
    other.name = "DRYModule".to_string();
    generator.add_model(other);
    assert_eq!(2, generator.models().len());
    let files = generator.to_string().unwrap();
    assert_eq!("simple_schema.proto", files[0].0);
    assert_eq!("dry_module.proto", files[1].0);
    assert_eq!("syntax = 'proto3';\npackage dry.module;\n\n", files[1].1);
}

#[test]
fn proto_names() {
    assert_eq!("simple_test", ProtobufDefGenerator::model_name("SimpleTest", '_'));
    assert_eq!("my_html_page", ProtobufDefGenerator::model_name("MyHTMLPage", '_'));
    assert_eq!("a.b", ProtobufDefGenerator::model_name("a-b", '.'));
    assert_eq!("some_field", ProtobufDefGenerator::field_name("some-field"));
    assert_eq!("SOME_VARIANT", ProtobufDefGenerator::variant_name("some-variant"));
    assert_eq!("x.proto", ProtobufDefGenerator::model_file_name("x"));
    assert_eq!("ab", ProtobufDefGenerator::model_to_package("AB"));
}

#[test]
fn proto_file_without_imports_has_one_empty_line_before_the_first_message() {
    let mut model = Model::default();
    model.name = "MyMessages".to_string();
    model.definitions = vec![Definition(
        "Header".to_string(),
        Protobuf::Message(vec![("timestamp".to_string(), ProtobufType::UInt32)]),
    )];
    let (name, content) = ProtobufDefGenerator::generate_file(&model).unwrap();
    assert_eq!("my_messages.proto", name);
    assert_eq!(
        "syntax = 'proto3';\npackage my.messages;\n\nmessage Header {\n    uint32 timestamp = 1;\n}\n",
        content
    );
}
