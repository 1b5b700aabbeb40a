use asn1rs::gen::sql::SqlDefGenerator;
use asn1rs::model::rust::{Rust, RustType};
use asn1rs::model::sql::ToSqlModel;
use asn1rs::model::{Definition, Model, Range};

#[test]
fn sql_file_of_a_model() {
    let mut model = Model::default();
    model.name = "schema".to_string();
    model.definitions = vec![
        Definition("Color".into(), Rust::Enum(vec!["Red".into(), "Green".into()])),
        Definition(
            "Person".into(),
            Rust::Struct(vec![
                ("age".into(), RustType::U8(Range(0, 255))),
                ("home".into(), RustType::Option(Box::new(RustType::Complex("Home".into())))),
            ]),
        ),
    ];
    let mut generator = SqlDefGenerator::default();
    generator.add_model(model.to_sql());
    assert_eq!(1, generator.models().len());
    let files = generator.to_string().unwrap();
    assert_eq!(1, files.len());
    assert_eq!("schema.sql", files[0].0);
    assert_eq!(
        "DROP TABLE IF EXISTS Color CASCADE;\n\
         DROP TABLE IF EXISTS Person CASCADE;\n\
         \n\
         CREATE TABLE Color (\n    id SERIAL PRIMARY KEY,\n    name TEXT NOT NULL\n);\n\
         INSERT INTO Color (id, name) VALUES\n    (0, 'Red'), \n    (1, 'Green');\n\
         \n\
         CREATE TABLE Person (\n    id SERIAL PRIMARY KEY,\n    age SMALLINT NOT NULL,\n    \
         home INTEGER REFERENCES Home(id) ON DELETE CASCADE ON UPDATE CASCADE\n);\n\
         \n\
         CREATE INDEX  ON Person(home);\n\
         \n\
         CREATE OR REPLACE FUNCTION AbandonChildrenOfPerson() RETURNS TRIGGER AS\n\
         $$ BEGIN\n    DELETE FROM Home WHERE id = OLD.home;\n    RETURN NULL;\n\
         END; $$ LANGUAGE plpgsql;\n\
         CREATE TRIGGER OnDeleteAbandonChildrenOfPerson AFTER DELETE ON Person\n    \
         FOR EACH ROW\n    EXECUTE PROCEDURE AbandonChildrenOfPerson();\n",
        files[0].1
    );
}

#[test]
fn sql_table_with_constraints() {
    let mut model = Model::default();
    model.name = "list".to_string();
    model.definitions = vec![Definition("L".into(), Rust::TupleStruct(RustType::String))];
    let mut generator = SqlDefGenerator::default();
    generator.add_model(model.to_sql());
    let files = generator.to_string().unwrap();
    assert_eq!(
        "DROP TABLE IF EXISTS L CASCADE;\n\
         DROP TABLE IF EXISTS LListEntry CASCADE;\n\
         \n\
         CREATE TABLE L (\n    id SERIAL PRIMARY KEY\n);\n\
         \n\
         CREATE TABLE LListEntry (\n    \
         list INTEGER REFERENCES L(id) ON DELETE CASCADE ON UPDATE CASCADE NOT NULL,\n    \
         value TEXT NOT NULL,\n    PRIMARY KEY(list, value)\n);\n",
        files[0].1
    );
}
