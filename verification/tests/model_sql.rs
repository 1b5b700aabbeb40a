use asn1rs::model::rust::{Rust, RustType};
use asn1rs::model::sql::{Sql, SqlType, ToSql, ToSqlModel};
use asn1rs::model::{Definition, Model, Range};

fn model(definitions: Vec<Definition<Rust>>) -> Model<Rust> {
    let mut model = Model::default();
    model.name = "Schema".to_string();
    model.definitions = definitions;
    model
}

#[test]
fn sql_types_of_rust_types() {
    assert_eq!(SqlType::NotNull(Box::new(SqlType::SmallInt)), RustType::U8(Range(0, 255)).to_sql());
    assert_eq!(SqlType::NotNull(Box::new(SqlType::Integer)), RustType::U16(Range(0, u16::MAX)).to_sql());
    assert_eq!(SqlType::NotNull(Box::new(SqlType::SmallInt)), RustType::U16(Range(0, 100)).to_sql());
    assert_eq!(SqlType::NotNull(Box::new(SqlType::BigInt)), RustType::U32(Range(0, u32::MAX)).to_sql());
    assert_eq!(SqlType::Text, RustType::Option(Box::new(RustType::String)).to_sql());
    assert_eq!(
        SqlType::NotNull(Box::new(SqlType::Array(Box::new(SqlType::ByteArray)))),
        RustType::Vec(Box::new(RustType::VecU8)).to_sql()
    );
    assert_eq!(
        SqlType::NotNull(Box::new(SqlType::References("Other".into(), "id".into()))),
        RustType::Complex("Other".into()).to_sql()
    );
}

#[test]
fn sql_type_texts_and_rust_types() {
    assert_eq!("INTEGER[] NOT NULL", SqlType::NotNull(Box::new(SqlType::Array(Box::new(SqlType::Integer)))).to_string());
    assert_eq!(
        "INTEGER REFERENCES Other(id) ON DELETE CASCADE ON UPDATE CASCADE",
        SqlType::References("Other".into(), "id".into()).to_string()
    );
    assert_eq!(RustType::Option(Box::new(RustType::Bool)), SqlType::Boolean.to_rust());
    assert_eq!(RustType::String, SqlType::NotNull(Box::new(SqlType::Text)).to_rust());
    assert_eq!(SqlType::Text, SqlType::NotNull(Box::new(SqlType::Text)).nullable());
}

#[test]
fn sql_column_names() {
    assert_eq!("some_field", Model::<Sql>::sql_column_name("someField"));
    assert_eq!("id_", Model::<Sql>::sql_column_name("ID"));
    assert_eq!(" id _", Model::<Sql>::sql_column_name(" id "));
    assert_eq!("identity", Model::<Sql>::sql_column_name("identity"));
}

#[test]
fn sql_of_a_struct_with_a_reference() {
    let sql = model(vec![Definition(
        "Person".into(),
        Rust::Struct(vec![
            ("age".into(), RustType::U8(Range(0, 255))),
            ("home".into(), RustType::Option(Box::new(RustType::Complex("Home".into())))),
        ]),
    )])
    .to_sql();
    assert_eq!("Schema", sql.name);
    assert_eq!(3, sql.definitions.len());
    match &sql.definitions[0] {
        Definition(name, Sql::Table((columns, constraints))) => {
            assert_eq!("Person", name);
            assert_eq!(3, columns.len());
            assert_eq!("id", columns[0].name);
            assert_eq!(SqlType::Serial, columns[0].sql);
            assert!(columns[0].primary_key);
            assert_eq!("age", columns[1].name);
            assert_eq!(SqlType::NotNull(Box::new(SqlType::SmallInt)), columns[1].sql);
            assert_eq!("home", columns[2].name);
            assert_eq!(SqlType::References("Home".into(), "id".into()), columns[2].sql);
            assert!(constraints.is_empty());
        }
        other => panic!("unexpected {:?}", other),
    }
    match &sql.definitions[1] {
        Definition(name, Sql::Index(table, columns)) => {
            assert_eq!("", name);
            assert_eq!("Person", table);
            assert_eq!(&vec!["home".to_string()], columns);
        }
        other => panic!("unexpected {:?}", other),
    }
    match &sql.definitions[2] {
        Definition(name, Sql::AbandonChildrenFunction(table, children)) => {
            assert_eq!("AbandonChildrenOfPerson", name);
            assert_eq!("Person", table);
            assert_eq!(&vec![("home".to_string(), "Home".to_string(), "id".to_string())], children);
        }
        other => panic!("unexpected {:?}", other),
    }
}

#[test]
fn sql_of_enums_data_enums_and_tuple_structs() {
    let sql = model(vec![
        Definition("Color".into(), Rust::Enum(vec!["Red".into(), "Green".into()])),
        Definition(
            "Either".into(),
            Rust::DataEnum(vec![("Id".into(), RustType::U64(None)), ("Text".into(), RustType::String)]),
        ),
        Definition("List".into(), Rust::TupleStruct(RustType::Vec(Box::new(RustType::I16(Range(-1, 1)))))),
    ])
    .to_sql();
    assert_eq!(4, sql.definitions.len());
    match &sql.definitions[0] {
        Definition(name, Sql::Enum(variants)) => {
            assert_eq!("Color", name);
            assert_eq!(&vec!["Red".to_string(), "Green".to_string()], variants);
        }
        other => panic!("unexpected {:?}", other),
    }
    match &sql.definitions[1] {
        Definition(_, Sql::Table((columns, constraints))) => {
            assert_eq!(2, columns.len());
            assert_eq!("id_", columns[0].name);
            assert_eq!(SqlType::BigInt, columns[0].sql);
            assert_eq!(SqlType::Text, columns[1].sql);
            assert_eq!(1, constraints.len());
        }
        other => panic!("unexpected {:?}", other),
    }
    match &sql.definitions[3] {
        Definition(name, Sql::Table((columns, constraints))) => {
            assert_eq!("ListListEntry", name);
            assert_eq!("list", columns[0].name);
            assert_eq!(
                SqlType::NotNull(Box::new(SqlType::References("List".into(), "id".into()))),
                columns[0].sql
            );
            assert_eq!("value", columns[1].name);
            assert_eq!(SqlType::NotNull(Box::new(SqlType::SmallInt)), columns[1].sql);
            assert_eq!(1, constraints.len());
        }
        other => panic!("unexpected {:?}", other),
    }
}
