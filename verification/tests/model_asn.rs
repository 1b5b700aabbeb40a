use asn1rs::model::{Asn, ChoiceEntry, Definition, Enumerated, EnumeratedVariant, Field, Model, Range};
use asn1rs::model::Error as ModelError;
use asn1rs::parser::Tokenizer;

const SIMPLE_INTEGER_STRUCT_ASN: &str = r"
    SimpleSchema DEFINITIONS AUTOMATIC TAGS ::=
    BEGIN

    Simple ::= SEQUENCE {
        small INTEGER(0..255),
        bigger INTEGER(0..65535),
        negative INTEGER(-1..255),
        unlimited INTEGER(0..MAX) OPTIONAL
    }
    END
    ";

#[test]
fn mod_test_simple_asn_sequence_represented_correctly_as_asn_model() {
    let model = Model::try_from(Tokenizer::default().parse(SIMPLE_INTEGER_STRUCT_ASN)).unwrap();

    assert_eq!("SimpleSchema", model.name);
    assert_eq!(true, model.imports.is_empty());
    assert_eq!(1, model.definitions.len());
    assert_eq!(
        Definition(
            "Simple".into(),
            Asn::Sequence(vec![
                Field {
                    name: "small".into(),
                    role: Asn::Integer(Some(Range(0, 255))),
                    optional: false,
                },
                Field {
                    name: "bigger".into(),
                    role: Asn::Integer(Some(Range(0, 65535))),
                    optional: false,
                },
                Field {
                    name: "negative".into(),
                    role: Asn::Integer(Some(Range(-1, 255))),
                    optional: false,
                },
                Field {
                    name: "unlimited".into(),
                    role: Asn::Integer(None),
                    optional: true,
                }
            ]),
        ),
        model.definitions[0]
    );
}

const INLINE_ASN_WITH_ENUM: &str = r"
    SimpleSchema DEFINITIONS AUTOMATIC TAGS ::=
    BEGIN

    Woah ::= SEQUENCE {
        decision ENUMERATED {
            ABORT,
            RETURN,
            CONFIRM,
            MAYDAY,
            THE_CAKE_IS_A_LIE
        } OPTIONAL
    }
    END
";

#[test]
fn mod_test_inline_asn_enumerated_represented_correctly_as_asn_model() {
    let model = Model::try_from(Tokenizer::default().parse(INLINE_ASN_WITH_ENUM)).unwrap();

    assert_eq!("SimpleSchema", model.name);
    assert_eq!(true, model.imports.is_empty());
    assert_eq!(1, model.definitions.len());
    assert_eq!(
        Definition(
            "Woah".into(),
            Asn::Sequence(vec![Field {
                name: "decision".into(),
                role: Asn::Enumerated(Enumerated::from_names(&["ABORT", "RETURN", "CONFIRM", "MAYDAY", "THE_CAKE_IS_A_LIE"])),
                optional: true,
            }]),
        ),
        model.definitions[0]
    );
}

const INLINE_ASN_WITH_SEQUENCE_OF: &str = r"
    SimpleSchema DEFINITIONS AUTOMATIC TAGS ::=
    BEGIN

    Ones ::= SEQUENCE OF INTEGER(0..1)

    NestedOnes ::= SEQUENCE OF SEQUENCE OF INTEGER(0..1)

    Woah ::= SEQUENCE {
        also-ones SEQUENCE OF INTEGER(0..1),
        nesteds SEQUENCE OF SEQUENCE OF INTEGER(0..1),
        optionals SEQUENCE OF SEQUENCE OF INTEGER(0..MAX) OPTIONAL
    }
    END
";

#[test]
fn mod_test_inline_asn_sequence_of_represented_correctly_as_asn_model() {
    let model =
        Model::try_from(Tokenizer::default().parse(INLINE_ASN_WITH_SEQUENCE_OF)).unwrap();

    assert_eq!("SimpleSchema", model.name);
    assert_eq!(true, model.imports.is_empty());
    assert_eq!(3, model.definitions.len());
    assert_eq!(
        Definition(
            "Ones".into(),
            Asn::SequenceOf(Box::new(Asn::Integer(Some(Range(0, 1))))),
        ),
        model.definitions[0]
    );
    assert_eq!(
        Definition(
            "NestedOnes".into(),
            Asn::SequenceOf(Box::new(Asn::SequenceOf(Box::new(Asn::Integer(Some(
                Range(0, 1)
            )))))),
        ),
        model.definitions[1]
    );
    assert_eq!(
        Definition(
            "Woah".into(),
            Asn::Sequence(vec![
                Field {
                    name: "also-ones".into(),
                    role: Asn::SequenceOf(Box::new(Asn::Integer(Some(Range(0, 1))))),
                    optional: false,
                },
                Field {
                    name: "nesteds".into(),
                    role: Asn::SequenceOf(Box::new(Asn::SequenceOf(Box::new(Asn::Integer(
                        Some(Range(0, 1))
                    ))))),
                    optional: false,
                },
                Field {
                    name: "optionals".into(),
                    role: Asn::SequenceOf(Box::new(Asn::SequenceOf(Box::new(Asn::Integer(
                        None
                    ))))),
                    optional: true,
                },
            ]),
        ),
        model.definitions[2]
    );
}

const INLINE_ASN_WITH_CHOICE: &str = r"
    SimpleSchema DEFINITIONS AUTOMATIC TAGS ::=
    BEGIN

    This ::= SEQUENCE OF INTEGER(0..1)

    That ::= SEQUENCE OF SEQUENCE OF INTEGER(0..1)

    Neither ::= ENUMERATED {
        ABC,
        DEF
    }

    Woah ::= SEQUENCE {
        decision CHOICE {
            this This,
            that That,
            neither Neither
        }
    }
    END
";

#[test]
fn mod_test_inline_asn_choice_represented_correctly_as_asn_model() {
    let model = Model::try_from(Tokenizer::default().parse(INLINE_ASN_WITH_CHOICE)).unwrap();

    assert_eq!("SimpleSchema", model.name);
    assert_eq!(true, model.imports.is_empty());
    assert_eq!(4, model.definitions.len());
    assert_eq!(
        Definition(
            "This".into(),
            Asn::SequenceOf(Box::new(Asn::Integer(Some(Range(0, 1))))),
        ),
        model.definitions[0]
    );
    assert_eq!(
        Definition(
            "That".into(),
            Asn::SequenceOf(Box::new(Asn::SequenceOf(Box::new(Asn::Integer(Some(
                Range(0, 1)
            )))))),
        ),
        model.definitions[1]
    );
    assert_eq!(
        Definition(
            "Neither".into(),
            Asn::Enumerated(Enumerated::from_names(&["ABC", "DEF"])),
        ),
        model.definitions[2]
    );
    assert_eq!(
        Definition(
            "Woah".into(),
            Asn::Sequence(vec![Field {
                name: "decision".into(),
                role: Asn::Choice(vec![
                    ChoiceEntry("this".into(), Asn::TypeReference("This".into())),
                    ChoiceEntry("that".into(), Asn::TypeReference("That".into())),
                    ChoiceEntry("neither".into(), Asn::TypeReference("Neither".into())),
                ]),
                optional: false,
            }]),
        ),
        model.definitions[3]
    );
}

const INLINE_ASN_WITH_SEQUENCE: &str = r"
    SimpleSchema DEFINITIONS AUTOMATIC TAGS ::=
    BEGIN

    Woah ::= SEQUENCE {
        complex SEQUENCE {
            ones INTEGER(0..1),
            list-ones SEQUENCE OF INTEGER(0..1),
            optional-ones SEQUENCE OF INTEGER(0..1) OPTIONAL
        } OPTIONAL
    }
    END
";

#[test]
fn mod_test_inline_asn_sequence_represented_correctly_as_asn_model() {
    let model = Model::try_from(Tokenizer::default().parse(INLINE_ASN_WITH_SEQUENCE)).unwrap();

    assert_eq!("SimpleSchema", model.name);
    assert_eq!(true, model.imports.is_empty());
    assert_eq!(1, model.definitions.len());
    assert_eq!(
        Definition(
            "Woah".into(),
            Asn::Sequence(vec![Field {
                name: "complex".into(),
                role: Asn::Sequence(vec![
                    Field {
                        name: "ones".into(),
                        role: Asn::Integer(Some(Range(0, 1))),
                        optional: false,
                    },
                    Field {
                        name: "list-ones".into(),
                        role: Asn::SequenceOf(Box::new(Asn::Integer(Some(Range(0, 1))))),
                        optional: false,
                    },
                    Field {
                        name: "optional-ones".into(),
                        role: Asn::SequenceOf(Box::new(Asn::Integer(Some(Range(0, 1))))),
                        optional: true,
                    },
                ]),
                optional: true,
            }]),
        ),
        model.definitions[0]
    );
}

#[test]
fn mod_test_nice_names() {
    let mut model = Model::default();

    model.name = "SimpleTest".into();
    model.make_names_nice();
    assert_eq!("simple_test", model.to_rust().name);

    model.name = "SIMPLE_Test".into();
    model.make_names_nice();
    assert_eq!("simple_test", model.to_rust().name);

    model.name = "DRY_Module".into();
    model.make_names_nice();
    assert_eq!("dry", model.to_rust().name);

    model.name = "DRYModule".into();
    model.make_names_nice();
    assert_eq!("dry", model.to_rust().name);
}

#[test]
fn test_integer_type_with_range() {
    let model = Model::try_from(Tokenizer::default().parse(
        r"
        SimpleSchema DEFINITIONS AUTOMATIC TAGS ::=
        BEGIN

        SimpleTypeWithRange ::= Integer (0..65535)
        
        END
    ",
    ))
    .expect("Failed to parse");

    assert_eq!("SimpleSchema", &model.name);
    assert_eq!(
        &[Definition(
            "SimpleTypeWithRange".to_string(),
            Asn::Integer(Some(Range(0, 65_535))),
        )][..],
        &model.definitions[..]
    )
}

#[test]
fn test_string_type() {
    let model = Model::try_from(Tokenizer::default().parse(
        r"
        SimpleSchema DEFINITIONS AUTOMATIC TAGS ::=
        BEGIN

        SimpleStringType ::= UTF8String
        
        END
    ",
    ))
    .expect("Failed to parse");

    assert_eq!("SimpleSchema", &model.name);
    assert_eq!(
        &[Definition("SimpleStringType".to_string(), Asn::UTF8String)][..],
        &model.definitions[..]
    )
}

#[test]
fn test_enumerated_advanced() {
    let model = Model::try_from(Tokenizer::default().parse(
        r"SimpleSchema DEFINITIONS AUTOMATIC TAGS ::=
        BEGIN

        Basic ::= ENUMERATED {
            abc,
            def
        }

        WithExplicitNumber ::= ENUMERATED {
            abc(1),
            def(9)
        }
        
        WithExplicitNumberAndDefaultMark ::= ENUMERATED {
            abc(4),
            def(7),
            ...
        }
        
        WithExplicitNumberAndDefaultMarkV2 ::= ENUMERATED {
            abc(8),
            def(1),
            ...,
            v2(11)
        }
        
        END
    ",
    ))
    .expect("Failed to parse");

    assert_eq!("SimpleSchema", &model.name);
    assert_eq!(
        &[
            Definition(
                "Basic".to_string(),
                Asn::Enumerated(Enumerated::from_names(&["abc", "def"])),
            ),
            Definition(
                "WithExplicitNumber".to_string(),
                Asn::Enumerated(Enumerated::new(
                        vec![
                            EnumeratedVariant::new("abc".to_string(), Some(1)),
                            EnumeratedVariant::new("def".to_string(), Some(9)),
                        ],
                        None,
                    )),
            ),
            Definition(
                "WithExplicitNumberAndDefaultMark".to_string(),
                Asn::Enumerated(Enumerated::new(
                        vec![
                            EnumeratedVariant::new("abc".to_string(), Some(4)),
                            EnumeratedVariant::new("def".to_string(), Some(7)),
                        ],
                        Some(1),
                    )),
            ),
            Definition(
                "WithExplicitNumberAndDefaultMarkV2".to_string(),
                Asn::Enumerated(Enumerated::new(
                        vec![
                            EnumeratedVariant::new("abc".to_string(), Some(8)),
                            EnumeratedVariant::new("def".to_string(), Some(1)),
                            EnumeratedVariant::new("v2".to_string(), Some(11)),
                        ],
                        Some(1),
                    )),
            )
        ][..],
        &model.definitions[..]
    )
}

fn parse(text: &str) -> Result<Model<Asn>, asn1rs::model::Error> {
    Model::try_from(Tokenizer::default().parse(text))
}

#[test]
fn asn_model_errors() {
    assert!(matches!(parse(""), Err(ModelError::MissingModuleName)));
    assert!(matches!(parse("::= BEGIN"), Err(ModelError::MissingModuleName)));
    assert!(matches!(parse("M BEGIN"), Err(ModelError::UnexpectedEndOfStream)));
    assert!(matches!(parse("M BEGIN T := BOOLEAN END"), Err(ModelError::ExpectedSeparatorGot(':', _))));
    assert!(matches!(parse("M BEGIN T ::= INTEGER(a..2) END"), Err(ModelError::InvalidRangeValue(_))));
    assert!(matches!(
        parse("M BEGIN T ::= ENUMERATED { a(x) } END"),
        Err(ModelError::InvalidNumberForEnumVariant(_))
    ));
    assert!(matches!(parse("M BEGIN T ::= OCTET TEXT END"), Err(ModelError::UnexpectedToken(_))));
    assert!(matches!(parse("M BEGIN , END"), Err(ModelError::UnexpectedToken(_))));
    assert!(matches!(parse("M BEGIN T ::= SEQUENCE { , } END"), Err(ModelError::ExpectedText(_))));
}

#[test]
fn asn_model_imports_and_names() {
    let model = parse(
        "Some_Module DEFINITIONS ::= BEGIN IMPORTS A, B FROM Other_Module C FROM ThirdModule; \
         T ::= BOOLEAN U ::= UTF8String V ::= OCTET STRING W ::= INTEGER(+1..-1) X ::= Other END",
    )
    .unwrap();
    assert_eq!("Some", model.name);
    assert_eq!(2, model.imports.len());
    assert_eq!(vec!["A".to_string(), "B".to_string()], model.imports[0].what);
    assert_eq!("Other", model.imports[0].from);
    assert_eq!(vec!["C".to_string()], model.imports[1].what);
    assert_eq!("Third", model.imports[1].from);
    assert_eq!(
        vec![
            Definition("T".to_string(), Asn::Boolean),
            Definition("U".to_string(), Asn::UTF8String),
            Definition("V".to_string(), Asn::OctetString),
            Definition("W".to_string(), Asn::Integer(Some(Range(1, -1)))),
            Definition("X".to_string(), Asn::TypeReference("Other".to_string())),
        ],
        model.definitions
    );
}

#[test]
fn asn_model_integer_bounds_of_i64() {
    let model = parse(
        "M DEFINITIONS ::= BEGIN T ::= INTEGER(-9223372036854775808..9223372036854775807) \
         U ::= INTEGER(0..9223372036854775808) END",
    );
    assert!(matches!(model, Err(asn1rs::model::Error::InvalidRangeValue(_))));
    let model = parse("M DEFINITIONS ::= BEGIN T ::= INTEGER(-9223372036854775808..9223372036854775807) END")
        .unwrap();
    assert_eq!(
        vec![Definition("T".to_string(), Asn::Integer(Some(Range(i64::MIN, i64::MAX))))],
        model.definitions
    );
}
