use asn1rs::model::rust::{Rust, RustType};
use asn1rs::model::{Asn, ChoiceEntry, Definition, Enumerated, Field, Model, Range};
use asn1rs::parser::Tokenizer;

const SIMPLE_INTEGER_STRUCT_ASN: &str = r"
    SimpleSchema DEFINITIONS AUTOMATIC TAGS ::=
    BEGIN

    Simple ::= SEQUENCE {
        small INTEGER(0..255),
        bigger INTEGER(0..65535),
        negative INTEGER(-1..255),
        unlimited INTEGER(0..MAX) OPTIONAL
    }
    END
    ";

const INLINE_ASN_WITH_ENUM: &str = r"
    SimpleSchema DEFINITIONS AUTOMATIC TAGS ::=
    BEGIN

    Woah ::= SEQUENCE {
        decision ENUMERATED {
            ABORT,
            RETURN,
            CONFIRM,
            MAYDAY,
            THE_CAKE_IS_A_LIE
        } OPTIONAL
    }
    END
";

const INLINE_ASN_WITH_SEQUENCE_OF: &str = r"
    SimpleSchema DEFINITIONS AUTOMATIC TAGS ::=
    BEGIN

    Ones ::= SEQUENCE OF INTEGER(0..1)

    NestedOnes ::= SEQUENCE OF SEQUENCE OF INTEGER(0..1)

    Woah ::= SEQUENCE {
        also-ones SEQUENCE OF INTEGER(0..1),
        nesteds SEQUENCE OF SEQUENCE OF INTEGER(0..1),
        optionals SEQUENCE OF SEQUENCE OF INTEGER(0..MAX) OPTIONAL
    }
    END
";

const INLINE_ASN_WITH_CHOICE: &str = r"
    SimpleSchema DEFINITIONS AUTOMATIC TAGS ::=
    BEGIN

    This ::= SEQUENCE OF INTEGER(0..1)

    That ::= SEQUENCE OF SEQUENCE OF INTEGER(0..1)

    Neither ::= ENUMERATED {
        ABC,
        DEF
    }

    Woah ::= SEQUENCE {
        decision CHOICE {
            this This,
            that That,
            neither Neither
        }
    }
    END
";

const INLINE_ASN_WITH_SEQUENCE: &str = r"
    SimpleSchema DEFINITIONS AUTOMATIC TAGS ::=
    BEGIN

    Woah ::= SEQUENCE {
        complex SEQUENCE {
            ones INTEGER(0..1),
            list-ones SEQUENCE OF INTEGER(0..1),
            optional-ones SEQUENCE OF INTEGER(0..1) OPTIONAL
        } OPTIONAL
    }
    END
";

#[test]
fn rust_test_simple_asn_sequence_represented_correctly_as_rust_model() {
    let model_rust =
        Model::try_from(Tokenizer::default().parse(SIMPLE_INTEGER_STRUCT_ASN))
            .unwrap()
            .to_rust();

    assert_eq!("simple_schema", model_rust.name);
    assert_eq!(true, model_rust.imports.is_empty());
    assert_eq!(1, model_rust.definitions.len());
    assert_eq!(
        Definition(
            "Simple".into(),
            Rust::Struct(vec![
                ("small".into(), RustType::U8(Range(0, 255))),
                ("bigger".into(), RustType::U16(Range(0, 65535))),
                ("negative".into(), RustType::I16(Range(-1, 255))),
                (
                    "unlimited".into(),
                    RustType::Option(Box::new(RustType::U64(None)))
                ),
            ])
        ),
        model_rust.definitions[0]
    );
}

#[test]
fn rust_test_inline_asn_enumerated_represented_correctly_as_rust_model() {
    let modle_rust = Model::try_from(Tokenizer::default().parse(INLINE_ASN_WITH_ENUM))
        .unwrap()
        .to_rust();

    assert_eq!("simple_schema", modle_rust.name);
    assert_eq!(true, modle_rust.imports.is_empty());
    assert_eq!(2, modle_rust.definitions.len());
    assert_eq!(
        Definition(
            "WoahDecision".into(),
            Rust::Enum(vec![
                "ABORT".into(),
                "RETURN".into(),
                "CONFIRM".into(),
                "MAYDAY".into(),
                "THE_CAKE_IS_A_LIE".into()
            ])
        ),
        modle_rust.definitions[0]
    );
    assert_eq!(
        Definition(
            "Woah".into(),
            Rust::Struct(vec![(
                "decision".into(),
                RustType::Option(Box::new(RustType::Complex("WoahDecision".into())))
            )])
        ),
        modle_rust.definitions[1]
    );
}

#[test]
fn rust_test_inline_asn_sequence_of_represented_correctly_as_rust_model() {
    let model_rust = Model::try_from(
        Tokenizer::default().parse(INLINE_ASN_WITH_SEQUENCE_OF),
    ).unwrap()
    .to_rust();

    assert_eq!("simple_schema", model_rust.name);
    assert_eq!(true, model_rust.imports.is_empty());
    assert_eq!(3, model_rust.definitions.len());
    assert_eq!(
        Definition(
            "Ones".into(),
            Rust::TupleStruct(RustType::Vec(Box::new(RustType::U8(Range(0, 1)))))
        ),
        model_rust.definitions[0]
    );
    assert_eq!(
        Definition(
            "NestedOnes".into(),
            Rust::TupleStruct(RustType::Vec(Box::new(RustType::Vec(Box::new(
                RustType::U8(Range(0, 1))
            )))))
        ),
        model_rust.definitions[1]
    );
    assert_eq!(
        Definition(
            "Woah".into(),
            Rust::Struct(vec![
                (
                    "also_ones".into(),
                    RustType::Vec(Box::new(RustType::U8(Range(0, 1))))
                ),
                (
                    "nesteds".into(),
                    RustType::Vec(Box::new(RustType::Vec(Box::new(RustType::U8(Range(0, 1))))))
                ),
                (
                    "optionals".into(),
                    RustType::Option(Box::new(RustType::Vec(Box::new(RustType::Vec(
                        Box::new(RustType::U64(None))
                    )))))
                )
            ])
        ),
        model_rust.definitions[2]
    );
}

#[test]
fn rust_test_inline_asn_choice_represented_correctly_as_rust_model() {
    let model_rust = Model::try_from(Tokenizer::default().parse(INLINE_ASN_WITH_CHOICE))
        .unwrap()
        .to_rust();

    assert_eq!("simple_schema", model_rust.name);
    assert_eq!(true, model_rust.imports.is_empty());
    assert_eq!(5, model_rust.definitions.len());
    assert_eq!(
        Definition(
            "This".into(),
            Rust::TupleStruct(RustType::Vec(Box::new(RustType::U8(Range(0, 1)))))
        ),
        model_rust.definitions[0]
    );
    assert_eq!(
        Definition(
            "That".into(),
            Rust::TupleStruct(RustType::Vec(Box::new(RustType::Vec(Box::new(
                RustType::U8(Range(0, 1))
            )))))
        ),
        model_rust.definitions[1]
    );
    assert_eq!(
        Definition(
            "Neither".into(),
            Rust::Enum(vec!["ABC".into(), "DEF".into(),])
        ),
        model_rust.definitions[2]
    );
    assert_eq!(
        Definition(
            "WoahDecision".into(),
            Rust::DataEnum(vec![
                ("This".into(), RustType::Complex("This".into())),
                ("That".into(), RustType::Complex("That".into())),
                ("Neither".into(), RustType::Complex("Neither".into())),
            ])
        ),
        model_rust.definitions[3]
    );
    assert_eq!(
        Definition(
            "Woah".into(),
            Rust::Struct(vec![(
                "decision".into(),
                RustType::Complex("WoahDecision".into())
            )])
        ),
        model_rust.definitions[4]
    );
}

#[test]
fn rust_test_inline_asn_sequence_represented_correctly_as_rust_model() {
    let model_rust =
        Model::try_from(Tokenizer::default().parse(INLINE_ASN_WITH_SEQUENCE))
            .unwrap()
            .to_rust();

    assert_eq!("simple_schema", model_rust.name);
    assert_eq!(true, model_rust.imports.is_empty());
    assert_eq!(2, model_rust.definitions.len());
    assert_eq!(
        Definition(
            "WoahComplex".into(),
            Rust::Struct(vec![
                ("ones".into(), RustType::U8(Range(0, 1))),
                (
                    "list_ones".into(),
                    RustType::Vec(Box::new(RustType::U8(Range(0, 1))))
                ),
                (
                    "optional_ones".into(),
                    RustType::Option(Box::new(RustType::Vec(Box::new(RustType::U8(Range(
                        0, 1
                    ))))))
                ),
            ])
        ),
        model_rust.definitions[0]
    );
    assert_eq!(
        Definition(
            "Woah".into(),
            Rust::Struct(vec![(
                "complex".into(),
                RustType::Option(Box::new(RustType::Complex("WoahComplex".into())))
            )])
        ),
        model_rust.definitions[1]
    );
}

#[test]
fn rust_test_simple_enum() {
    let mut model_asn = Model::default();
    model_asn.definitions.push(Definition(
        "SimpleEnumTest".into(),
        Asn::Enumerated(Enumerated::from_names(&["Bernd", "Das-Verdammte", "Brooot"])),
    ));

    let model_rust = model_asn.to_rust();

    assert_eq!(1, model_rust.definitions.len());
    assert_eq!(
        Definition(
            "SimpleEnumTest".into(),
            Rust::Enum(vec!["Bernd".into(), "DasVerdammte".into(), "Brooot".into(),])
        ),
        model_rust.definitions[0]
    );
}

#[test]
fn rust_test_choice_simple() {
    let mut model_asn = Model::default();
    model_asn.definitions.push(Definition(
        "SimpleChoiceTest".into(),
        Asn::Choice(vec![
            ChoiceEntry("bernd-das-brot".into(), Asn::UTF8String),
            ChoiceEntry("nochSoEinBrot".into(), Asn::OctetString),
        ]),
    ));

    let model_rust = model_asn.to_rust();

    assert_eq!(1, model_rust.definitions.len());
    assert_eq!(
        Definition(
            "SimpleChoiceTest".into(),
            Rust::DataEnum(vec![
                ("BerndDasBrot".into(), RustType::String),
                ("NochSoEinBrot".into(), RustType::VecU8),
            ])
        ),
        model_rust.definitions[0]
    )
}

#[test]
fn rust_test_choice_list_and_nested_list() {
    let mut model_asn = Model::default();
    model_asn.definitions.push(Definition(
        "ListChoiceTestWithNestedList".into(),
        Asn::Choice(vec![
            ChoiceEntry(
                "normal-List".into(),
                Asn::SequenceOf(Box::new(Asn::UTF8String)),
            ),
            ChoiceEntry(
                "NESTEDList".into(),
                Asn::SequenceOf(Box::new(Asn::SequenceOf(Box::new(Asn::OctetString)))),
            ),
        ]),
    ));

    let model_rust = model_asn.to_rust();

    assert_eq!(1, model_rust.definitions.len());
    assert_eq!(
        Definition(
            "ListChoiceTestWithNestedList".into(),
            Rust::DataEnum(vec![
                (
                    "NormalList".into(),
                    RustType::Vec(Box::new(RustType::String))
                ),
                (
                    "NESTEDList".into(),
                    RustType::Vec(Box::new(RustType::Vec(Box::new(RustType::VecU8))))
                ),
            ])
        ),
        model_rust.definitions[0]
    )
}

#[test]
fn rust_test_tuple_list() {
    let mut model_asn = Model::default();
    model_asn.name = "TupleTestModel".into();
    model_asn.definitions.push(Definition(
        "TupleTest".into(),
        Asn::SequenceOf(Box::new(Asn::UTF8String)),
    ));
    let model_rust = model_asn.to_rust();
    assert_eq!("tuple_test_model", model_rust.name);
    assert_eq!(model_asn.imports, model_rust.imports);
    assert_eq!(1, model_rust.definitions.len());
    assert_eq!(
        Definition(
            "TupleTest".into(),
            Rust::TupleStruct(RustType::Vec(Box::new(RustType::String)))
        ),
        model_rust.definitions[0]
    );
}

#[test]
fn rust_test_nested_tuple_list() {
    let mut model_asn = Model::default();
    model_asn.name = "TupleTestModel".into();
    model_asn.definitions.push(Definition(
        "NestedTupleTest".into(),
        Asn::SequenceOf(Box::new(Asn::SequenceOf(Box::new(Asn::UTF8String)))),
    ));
    let model_rust = model_asn.to_rust();
    assert_eq!("tuple_test_model", model_rust.name);
    assert_eq!(model_asn.imports, model_rust.imports);
    assert_eq!(1, model_rust.definitions.len());
    assert_eq!(
        Definition(
            "NestedTupleTest".into(),
            Rust::TupleStruct(RustType::Vec(Box::new(RustType::Vec(Box::new(
                RustType::String
            )))))
        ),
        model_rust.definitions[0]
    );
}

#[test]
fn rust_test_optional_list_in_struct() {
    let mut model_asn = Model::default();
    model_asn.name = "OptionalStructListTestModel".into();
    model_asn.definitions.push(Definition(
        "OptionalStructListTest".into(),
        Asn::Sequence(vec![Field {
            name: "strings".into(),
            role: Asn::SequenceOf(Box::new(Asn::UTF8String)),
            optional: true,
        }]),
    ));
    let model_rust = model_asn.to_rust();
    assert_eq!("optional_struct_list_test_model", model_rust.name);
    assert_eq!(model_asn.imports, model_rust.imports);
    assert_eq!(1, model_rust.definitions.len());
    assert_eq!(
        Definition(
            "OptionalStructListTest".into(),
            Rust::Struct(vec![(
                "strings".into(),
                RustType::Option(Box::new(RustType::Vec(Box::new(RustType::String))))
            )])
        ),
        model_rust.definitions[0]
    );
}

#[test]
fn rust_test_list_in_struct() {
    let mut model_asn = Model::default();
    model_asn.name = "StructListTestModel".into();
    model_asn.definitions.push(Definition(
        "StructListTest".into(),
        Asn::Sequence(vec![Field {
            name: "strings".into(),
            role: Asn::SequenceOf(Box::new(Asn::UTF8String)),
            optional: false,
        }]),
    ));
    let model_rust = model_asn.to_rust();
    assert_eq!("struct_list_test_model", model_rust.name);
    assert_eq!(model_asn.imports, model_rust.imports);
    assert_eq!(1, model_rust.definitions.len());
    assert_eq!(
        Definition(
            "StructListTest".into(),
            Rust::Struct(vec![(
                "strings".into(),
                RustType::Vec(Box::new(RustType::String))
            )])
        ),
        model_rust.definitions[0]
    );
}

#[test]
fn rust_test_nested_list_in_struct() {
    let mut model_asn = Model::default();
    model_asn.name = "NestedStructListTestModel".into();
    model_asn.definitions.push(Definition(
        "NestedStructListTest".into(),
        Asn::Sequence(vec![Field {
            name: "strings".into(),
            role: Asn::SequenceOf(Box::new(Asn::SequenceOf(Box::new(Asn::UTF8String)))),
            optional: false,
        }]),
    ));
    let model_rust = model_asn.to_rust();
    assert_eq!("nested_struct_list_test_model", model_rust.name);
    assert_eq!(model_asn.imports, model_rust.imports);
    assert_eq!(1, model_rust.definitions.len());
    assert_eq!(
        Definition(
            "NestedStructListTest".into(),
            Rust::Struct(vec![(
                "strings".into(),
                RustType::Vec(Box::new(RustType::Vec(Box::new(RustType::String))))
            )])
        ),
        model_rust.definitions[0]
    );
}



#[test]
fn model_test_nice_names() {
    assert_eq!("simple_test", Model::new("SimpleTest".to_string()).to_rust().name);
    assert_eq!("simple_test", Model::new("SIMPLE_Test".to_string()).to_rust().name);
    assert_eq!("dry", Model::new("DRY_Module".to_string()).to_rust().name);
    assert_eq!("dry", Model::new("DRYModule".to_string()).to_rust().name);
}

#[test]
fn model_test_simple_enum() {
    let mut model_asn = Model::default();
    model_asn.definitions.push(Definition(
        "SimpleEnumTest".into(),
        Asn::Enumerated(Enumerated::from_names(&["Bernd", "Das-Verdammte", "Brooot"])),
    ));

    let model_rust = model_asn.to_rust();

    assert_eq!(1, model_rust.definitions.len());
    assert_eq!(
        Definition(
            "SimpleEnumTest".into(),
            Rust::Enum(vec!["Bernd".into(), "DasVerdammte".into(), "Brooot".into(),])
        ),
        model_rust.definitions[0]
    );
}

#[test]
fn model_test_tuple_list() {
    let mut model_asn = Model::default();
    model_asn.name = "TupleTestModel".into();
    model_asn.definitions.push(Definition(
        "TupleTest".into(),
        Asn::SequenceOf(Box::new(Asn::UTF8String)),
    ));
    let model_rust = model_asn.to_rust();
    assert_eq!("tuple_test_model", model_rust.name);
    assert_eq!(model_asn.imports, model_rust.imports);
    assert_eq!(1, model_rust.definitions.len());
    assert_eq!(
        Definition(
            "TupleTest".into(),
            Rust::TupleStruct(RustType::Vec(Box::new(RustType::String)))
        ),
        model_rust.definitions[0]
    );
}

#[test]
fn model_test_nested_tuple_list() {
    let mut model_asn = Model::default();
    model_asn.name = "TupleTestModel".into();
    model_asn.definitions.push(Definition(
        "NestedTupleTest".into(),
        Asn::SequenceOf(Box::new(Asn::SequenceOf(Box::new(Asn::UTF8String)))),
    ));
    let model_rust = model_asn.to_rust();
    assert_eq!("tuple_test_model", model_rust.name);
    assert_eq!(model_asn.imports, model_rust.imports);
    assert_eq!(1, model_rust.definitions.len());
    assert_eq!(
        Definition(
            "NestedTupleTest".into(),
            Rust::TupleStruct(RustType::Vec(Box::new(RustType::Vec(Box::new(
                RustType::String
            )))))
        ),
        model_rust.definitions[0]
    );
}

#[test]
fn model_test_optional_list_in_struct() {
    let mut model_asn = Model::default();
    model_asn.name = "OptionalStructListTestModel".into();
    model_asn.definitions.push(Definition(
        "OptionalStructListTest".into(),
        Asn::Sequence(vec![Field {
            name: "strings".into(),
            role: Asn::SequenceOf(Box::new(Asn::UTF8String)),
            optional: true,
        }]),
    ));
    let model_rust = model_asn.to_rust();
    assert_eq!("optional_struct_list_test_model", model_rust.name);
    assert_eq!(model_asn.imports, model_rust.imports);
    assert_eq!(1, model_rust.definitions.len());
    assert_eq!(
        Definition(
            "OptionalStructListTest".into(),
            Rust::Struct(vec![(
                "strings".into(),
                RustType::Option(Box::new(RustType::Vec(Box::new(RustType::String))))
            )])
        ),
        model_rust.definitions[0]
    );
}

#[test]
fn model_test_list_in_struct() {
    let mut model_asn = Model::default();
    model_asn.name = "StructListTestModel".into();
    model_asn.definitions.push(Definition(
        "StructListTest".into(),
        Asn::Sequence(vec![Field {
            name: "strings".into(),
            role: Asn::SequenceOf(Box::new(Asn::UTF8String)),
            optional: false,
        }]),
    ));
    let model_rust = model_asn.to_rust();
    assert_eq!("struct_list_test_model", model_rust.name);
    assert_eq!(model_asn.imports, model_rust.imports);
    assert_eq!(1, model_rust.definitions.len());
    assert_eq!(
        Definition(
            "StructListTest".into(),
            Rust::Struct(vec![("strings".into(), RustType::Vec(Box::new(RustType::String)))])
        ),
        model_rust.definitions[0]
    );
}

#[test]
fn model_test_nested_list_in_struct() {
    let mut model_asn = Model::default();
    model_asn.name = "NestedStructListTestModel".into();
    model_asn.definitions.push(Definition(
        "NestedStructListTest".into(),
        Asn::Sequence(vec![Field {
            name: "strings".into(),
            role: Asn::SequenceOf(Box::new(Asn::SequenceOf(Box::new(Asn::UTF8String)))),
            optional: false,
        }]),
    ));
    let model_rust = model_asn.to_rust();
    assert_eq!("nested_struct_list_test_model", model_rust.name);
    assert_eq!(model_asn.imports, model_rust.imports);
    assert_eq!(1, model_rust.definitions.len());
    assert_eq!(
        Definition(
            "NestedStructListTest".into(),
            Rust::Struct(vec![(
                "strings".into(),
                RustType::Vec(Box::new(RustType::Vec(Box::new(RustType::String))))
            )])
        ),
        model_rust.definitions[0]
    );
}
