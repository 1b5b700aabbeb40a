//! The SQL counterpart of the Rust model: tables, enums, indices and the functions that
//! remove the rows a deleted row refers to.
use vstd::prelude::*;

use crate::gen::protobuf::{separated_name, ProtobufDefGenerator};
use crate::model::rust::{
    inner_type_view, names_view, named_types_view, no_option_view, push_all, DefinitionView,
    Rust, RustType, RustTypeView, RustView,
};
use crate::model::{Definition, Model, Range};
use crate::parser::{eq_ignore_ascii_case, text_eq_ignore_ascii_case};

verus! {

/// The column that identifies a row and that other tables refer to.
pub const FOREIGN_KEY_DEFAULT_COLUMN: &'static str = "id";

/// The column of a list entry that refers to the row the list belongs to.
pub const TUPLE_LIST_ENTRY_PARENT_COLUMN: &'static str = "list";

/// The column of a list entry that holds the value.
pub const TUPLE_LIST_ENTRY_VALUE_COLUMN: &'static str = "value";

/// What `str::trim` gives for a text.
pub uninterp spec fn trimmed_text(s: Seq<char>) -> Seq<char>;

/// `str::trim`: a text without the leading and trailing characters of the Unicode property
/// White_Space; named, not stated.
#[verifier::external_body]
fn trim(s: &str) -> (r: &str)
    ensures
        r@ == trimmed_text(s@),
{
    s.trim()
}

/// An SQL column type.
#[derive(Debug, PartialEq, PartialOrd)]
pub enum SqlType {
    SmallInt,
    Integer,
    BigInt,
    Serial,
    Boolean,
    Text,
    Array(Box<SqlType>),
    NotNull(Box<SqlType>),
    ByteArray,
    References(String, String),
}

/// An SQL column type as a value.
pub enum SqlTypeView {
    SmallInt,
    Integer,
    BigInt,
    Serial,
    Boolean,
    Text,
    Array(Box<SqlTypeView>),
    NotNull(Box<SqlTypeView>),
    ByteArray,
    References(Seq<char>, Seq<char>),
}

/// The value of an SQL column type.
pub open spec fn sql_type_view(t: SqlType) -> SqlTypeView
    decreases t,
{
    match t {
        SqlType::SmallInt => SqlTypeView::SmallInt,
        SqlType::Integer => SqlTypeView::Integer,
        SqlType::BigInt => SqlTypeView::BigInt,
        SqlType::Serial => SqlTypeView::Serial,
        SqlType::Boolean => SqlTypeView::Boolean,
        SqlType::Text => SqlTypeView::Text,
        SqlType::Array(inner) => SqlTypeView::Array(Box::new(sql_type_view(*inner))),
        SqlType::NotNull(inner) => SqlTypeView::NotNull(Box::new(sql_type_view(*inner))),
        SqlType::ByteArray => SqlTypeView::ByteArray,
        SqlType::References(table, column) => SqlTypeView::References(table@, column@),
    }
}

impl View for SqlType {
    type V = SqlTypeView;

    open spec fn view(&self) -> SqlTypeView {
        sql_type_view(*self)
    }
}

/// A column type that may hold `NULL`.
pub open spec fn nullable_view(t: SqlTypeView) -> SqlTypeView {
    match t {
        SqlTypeView::NotNull(inner) => *inner,
        _ => t,
    }
}

/// The Rust type of values of a column type: an option, unless the column is `NOT NULL`.
pub open spec fn rust_of_sql(t: SqlTypeView) -> RustTypeView
    decreases t,
{
    match t {
        SqlTypeView::NotNull(inner) => no_option_view(rust_of_sql(*inner)),
        SqlTypeView::SmallInt => RustTypeView::Option(Box::new(RustTypeView::I16(Range(0, i16::MAX)))),
        SqlTypeView::Integer => RustTypeView::Option(Box::new(RustTypeView::I32(Range(0, i32::MAX)))),
        SqlTypeView::BigInt => RustTypeView::Option(Box::new(RustTypeView::I64(Range(0, i64::MAX)))),
        SqlTypeView::Serial => RustTypeView::Option(Box::new(RustTypeView::I32(Range(0, i32::MAX)))),
        SqlTypeView::Boolean => RustTypeView::Option(Box::new(RustTypeView::Bool)),
        SqlTypeView::Text => RustTypeView::Option(Box::new(RustTypeView::String)),
        SqlTypeView::Array(inner) => RustTypeView::Option(
            Box::new(RustTypeView::Vec(Box::new(rust_of_sql(*inner)))),
        ),
        SqlTypeView::ByteArray => RustTypeView::Option(Box::new(RustTypeView::VecU8)),
        SqlTypeView::References(table, _) => RustTypeView::Option(
            Box::new(RustTypeView::Complex(table)),
        ),
    }
}

/// How a column type is written in SQL.
pub open spec fn sql_type_text(t: SqlTypeView) -> Seq<char>
    decreases t,
{
    match t {
        SqlTypeView::SmallInt => "SMALLINT"@,
        SqlTypeView::Integer => "INTEGER"@,
        SqlTypeView::BigInt => "BIGINT"@,
        SqlTypeView::Serial => "SERIAL"@,
        SqlTypeView::Boolean => "BOOLEAN"@,
        SqlTypeView::Text => "TEXT"@,
        SqlTypeView::Array(inner) => sql_type_text(*inner) + "[]"@,
        SqlTypeView::NotNull(inner) => sql_type_text(*inner) + " NOT NULL"@,
        SqlTypeView::ByteArray => "BYTEA"@,
        SqlTypeView::References(table, column) => "INTEGER REFERENCES "@ + table + "("@ + column
            + ") ON DELETE CASCADE ON UPDATE CASCADE"@,
    }
}

/// The column type of a Rust type apart from whether it may be `NULL`: the smallest integer
/// type that holds the range, an array for a vector, and a reference to the `id` of the table
/// of a named type.
pub open spec fn sql_of_rust_inner(t: RustTypeView) -> SqlTypeView
    decreases t,
{
    match t {
        RustTypeView::Bool => SqlTypeView::Boolean,
        RustTypeView::U8(_) => SqlTypeView::SmallInt,
        RustTypeView::I8(_) => SqlTypeView::SmallInt,
        RustTypeView::U16(r) => if r.1 < i16::MAX as u16 {
            SqlTypeView::SmallInt
        } else {
            SqlTypeView::Integer
        },
        RustTypeView::I16(_) => SqlTypeView::SmallInt,
        RustTypeView::U32(r) => if r.1 < i32::MAX as u32 {
            SqlTypeView::Integer
        } else {
            SqlTypeView::BigInt
        },
        RustTypeView::I32(_) => SqlTypeView::Integer,
        RustTypeView::U64(_) => SqlTypeView::BigInt,
        RustTypeView::I64(_) => SqlTypeView::BigInt,
        RustTypeView::String => SqlTypeView::Text,
        RustTypeView::VecU8 => SqlTypeView::ByteArray,
        RustTypeView::Vec(inner) => SqlTypeView::Array(Box::new(sql_of_rust_inner(*inner))),
        RustTypeView::Option(inner) => sql_of_rust_inner(*inner),
        RustTypeView::Complex(name) => SqlTypeView::References(name, FOREIGN_KEY_DEFAULT_COLUMN@),
    }
}

/// The column type of a Rust type: `NOT NULL` unless it is an option.
pub open spec fn sql_of_rust(t: RustTypeView) -> SqlTypeView {
    if t is Option {
        sql_of_rust_inner(t)
    } else {
        SqlTypeView::NotNull(Box::new(sql_of_rust_inner(t)))
    }
}

impl SqlType {
    /// This type without `NOT NULL`.
    pub fn nullable(self) -> (t: Self)
        ensures
            t@ == nullable_view(self@),
    {
        match self {
            SqlType::NotNull(inner) => *inner,
            other => other,
        }
    }

    /// The Rust type of values of this column type: an option, unless the column is
    /// `NOT NULL`.
    pub fn to_rust(&self) -> (t: RustType)
        ensures
            t@ == rust_of_sql(self@),
        decreases self,
    {
        proof {
            reveal_with_fuel(crate::model::rust::rust_type_view, 2);
        }
        let inner = match self {
            SqlType::SmallInt => RustType::I16(Range(0, i16::MAX)),
            SqlType::Integer => RustType::I32(Range(0, i32::MAX)),
            SqlType::BigInt => RustType::I64(Range(0, i64::MAX)),
            SqlType::Serial => RustType::I32(Range(0, i32::MAX)),
            SqlType::Boolean => RustType::Bool,
            SqlType::Text => RustType::String,
            SqlType::Array(inner) => RustType::Vec(Box::new(inner.to_rust())),
            SqlType::NotNull(inner) => return inner.to_rust().no_option(),
            SqlType::ByteArray => RustType::VecU8,
            SqlType::References(name, _) => RustType::Complex(name.clone()),
        };
        RustType::Option(Box::new(inner))
    }

    /// How this column type is written in SQL.
    pub fn to_string(&self) -> (s: String)
        ensures
            s@ == sql_type_text(self@),
        decreases self,
    {
        match self {
            SqlType::SmallInt => String::from_str("SMALLINT"),
            SqlType::Integer => String::from_str("INTEGER"),
            SqlType::BigInt => String::from_str("BIGINT"),
            SqlType::Serial => String::from_str("SERIAL"),
            SqlType::Boolean => String::from_str("BOOLEAN"),
            SqlType::Text => String::from_str("TEXT"),
            SqlType::Array(inner) => {
                let mut out = inner.to_string();
                push_all(&mut out, "[]");
                out
            },
            SqlType::NotNull(inner) => {
                let mut out = inner.to_string();
                push_all(&mut out, " NOT NULL");
                out
            },
            SqlType::ByteArray => String::from_str("BYTEA"),
            SqlType::References(table, column) => {
                let mut out = String::from_str("INTEGER REFERENCES ");
                push_all(&mut out, table.as_str());
                push_all(&mut out, "(");
                push_all(&mut out, column.as_str());
                push_all(&mut out, ") ON DELETE CASCADE ON UPDATE CASCADE");
                out
            },
        }
    }
}

/// A column of a table.
#[derive(Debug)]
pub struct Column {
    pub name: String,
    pub sql: SqlType,
    pub primary_key: bool,
}

/// A column as a value.
pub struct ColumnView {
    pub name: Seq<char>,
    pub sql: SqlTypeView,
    pub primary_key: bool,
}

/// The value of a column.
pub open spec fn column_view(c: Column) -> ColumnView {
    ColumnView { name: c.name@, sql: c.sql@, primary_key: c.primary_key }
}

/// A constraint on the rows of a table.
#[derive(Debug)]
pub enum Constraint {
    CombinedPrimaryKey(Vec<String>),
    OneNotNull(Vec<String>),
}

/// A constraint as a value.
pub enum ConstraintView {
    CombinedPrimaryKey(Seq<Seq<char>>),
    OneNotNull(Seq<Seq<char>>),
}

/// The value of a constraint.
pub open spec fn constraint_view(c: Constraint) -> ConstraintView {
    match c {
        Constraint::CombinedPrimaryKey(columns) => ConstraintView::CombinedPrimaryKey(names_view(columns@)),
        Constraint::OneNotNull(columns) => ConstraintView::OneNotNull(names_view(columns@)),
    }
}

/// An SQL definition: a table with its columns and constraints, an enum, an index on columns
/// of a table, or the function that removes the rows that a deleted row of a table refers to,
/// with the referring columns and the tables and columns they refer to.
#[derive(Debug)]
pub enum Sql {
    Table((Vec<Column>, Vec<Constraint>)),
    Enum(Vec<String>),
    Index(String, Vec<String>),
    AbandonChildrenFunction(String, Vec<(String, String, String)>),
}

/// An SQL definition as a value.
pub enum SqlView {
    Table(Seq<ColumnView>, Seq<ConstraintView>),
    Enum(Seq<Seq<char>>),
    Index(Seq<char>, Seq<Seq<char>>),
    AbandonChildrenFunction(Seq<char>, Seq<(Seq<char>, Seq<char>, Seq<char>)>),
}

/// References as values.
pub open spec fn children_view(children: Seq<(String, String, String)>) -> Seq<
    (Seq<char>, Seq<char>, Seq<char>),
> {
    children.map_values(|c: (String, String, String)| (c.0@, c.1@, c.2@))
}

/// The value of an SQL definition.
pub open spec fn sql_view(s: Sql) -> SqlView {
    match s {
        Sql::Table((columns, constraints)) => SqlView::Table(
            columns@.map_values(|c: Column| column_view(c)),
            constraints@.map_values(|c: Constraint| constraint_view(c)),
        ),
        Sql::Enum(variants) => SqlView::Enum(names_view(variants@)),
        Sql::Index(table, columns) => SqlView::Index(table@, names_view(columns@)),
        Sql::AbandonChildrenFunction(table, children) => SqlView::AbandonChildrenFunction(
            table@,
            children_view(children@),
        ),
    }
}

/// A named SQL definition as a value.
pub type SqlDefinitionView = (Seq<char>, SqlView);

/// Named SQL definitions as values.
pub open spec fn sql_definitions_view(defs: Seq<Definition<Sql>>) -> Seq<SqlDefinitionView> {
    defs.map_values(|d: Definition<Sql>| (d.0@, sql_view(d.1)))
}

/// The name of a column made of a field name: in snake case, with `_` appended to a name that
/// is `id` apart from ASCII case and surrounding white space.
pub open spec fn column_name(name: Seq<char>) -> Seq<char> {
    if eq_ignore_ascii_case(FOREIGN_KEY_DEFAULT_COLUMN@, trimmed_text(name)) {
        separated_name(name, '_').push('_')
    } else {
        separated_name(name, '_')
    }
}

/// The `id` column: a serial primary key.
pub open spec fn id_column() -> ColumnView {
    ColumnView { name: FOREIGN_KEY_DEFAULT_COLUMN@, sql: SqlTypeView::Serial, primary_key: true }
}

/// The columns of fields; `nullable` drops `NOT NULL` from their types.
pub open spec fn field_columns(fields: Seq<(Seq<char>, RustTypeView)>, nullable: bool) -> Seq<ColumnView> {
    fields.map_values(
        |f: (Seq<char>, RustTypeView)|
            ColumnView {
                name: column_name(f.0),
                sql: if nullable {
                    nullable_view(sql_of_rust(f.1))
                } else {
                    sql_of_rust(f.1)
                },
                primary_key: false,
            },
    )
}

/// The index definitions of the fields that refer to other tables, in order.
pub open spec fn index_definitions(table: Seq<char>, fields: Seq<(Seq<char>, RustTypeView)>) -> Seq<
    SqlDefinitionView,
>
    decreases fields.len(),
{
    if fields.len() == 0 {
        Seq::empty()
    } else {
        let f = fields.last();
        index_definitions(table, fields.drop_last()) + if nullable_view(sql_of_rust(f.1)) is References {
            seq![(Seq::<char>::empty(), SqlView::Index(table, seq![column_name(f.0)]))]
        } else {
            Seq::empty()
        }
    }
}

/// The fields that refer to other tables: the column, and the table and column referred to.
pub open spec fn children_of(fields: Seq<(Seq<char>, RustTypeView)>) -> Seq<
    (Seq<char>, Seq<char>, Seq<char>),
>
    decreases fields.len(),
{
    if fields.len() == 0 {
        Seq::empty()
    } else {
        let f = fields.last();
        children_of(fields.drop_last()) + match nullable_view(sql_of_rust(f.1)) {
            SqlTypeView::References(table, column) => seq![(column_name(f.0), table, column)],
            _ => Seq::empty(),
        }
    }
}

/// The index definitions of the fields that refer to other tables and, where there are such
/// fields, the function that removes the rows a deleted row refers to.
pub open spec fn index_and_abandon_definitions(
    table: Seq<char>,
    fields: Seq<(Seq<char>, RustTypeView)>,
) -> Seq<SqlDefinitionView> {
    index_definitions(table, fields) + if children_of(fields).len() > 0 {
        seq![
            (
                "AbandonChildrenOf"@ + table,
                SqlView::AbandonChildrenFunction(table, children_of(fields)),
            ),
        ]
    } else {
        Seq::empty()
    }
}

/// Whether a field is named `id` apart from ASCII case.
pub open spec fn has_id_field(fields: Seq<(Seq<char>, RustTypeView)>) -> bool {
    exists|i: int| 0 <= i < fields.len() && eq_ignore_ascii_case(FOREIGN_KEY_DEFAULT_COLUMN@, #[trigger] fields[i].0)
}

/// The SQL definitions of a Rust definition named `name`.
pub open spec fn sql_definitions_of(name: Seq<char>, rust: RustView) -> Seq<SqlDefinitionView> {
    match rust {
        RustView::Struct(fields) => seq![
            (name, SqlView::Table(seq![id_column()] + field_columns(fields, false), Seq::empty())),
        ] + index_and_abandon_definitions(name, fields),
        RustView::Enum(variants) => seq![(name, SqlView::Enum(variants))],
        RustView::DataEnum(fields) => seq![
            (
                name,
                SqlView::Table(
                    (if has_id_field(fields) {
                        Seq::empty()
                    } else {
                        seq![id_column()]
                    }) + field_columns(fields, true),
                    seq![
                        ConstraintView::OneNotNull(
                            fields.map_values(|f: (Seq<char>, RustTypeView)| separated_name(f.0, '_')),
                        ),
                    ],
                ),
            ),
        ] + index_and_abandon_definitions(name, fields),
        RustView::TupleStruct(inner) => seq![
            (name, SqlView::Table(seq![id_column()], Seq::empty())),
            (
                name + "ListEntry"@,
                SqlView::Table(
                    seq![
                        ColumnView {
                            name: TUPLE_LIST_ENTRY_PARENT_COLUMN@,
                            sql: SqlTypeView::NotNull(
                                Box::new(SqlTypeView::References(name, FOREIGN_KEY_DEFAULT_COLUMN@)),
                            ),
                            primary_key: false,
                        },
                        ColumnView {
                            name: TUPLE_LIST_ENTRY_VALUE_COLUMN@,
                            sql: sql_of_rust(inner_type_view(inner)),
                            primary_key: false,
                        },
                    ],
                    seq![
                        ConstraintView::CombinedPrimaryKey(
                            seq![TUPLE_LIST_ENTRY_PARENT_COLUMN@, TUPLE_LIST_ENTRY_VALUE_COLUMN@],
                        ),
                    ],
                ),
            ),
        ],
    }
}

/// The SQL definitions of Rust definitions, in order.
pub open spec fn model_sql_definitions(defs: Seq<DefinitionView>) -> Seq<SqlDefinitionView>
    decreases defs.len(),
{
    if defs.len() == 0 {
        Seq::empty()
    } else {
        model_sql_definitions(defs.drop_last()) + sql_definitions_of(defs.last().0, defs.last().1)
    }
}


/// The column type of a Rust type.
pub trait ToSql {
    /// The column type, as a value.
    spec fn sql_spec(&self) -> SqlTypeView;

    /// The column type.
    fn to_sql(&self) -> (t: SqlType)
        ensures
            t@ == self.sql_spec(),
    ;
}

/// The column type of a Rust type apart from whether it may be `NULL`.
fn to_sql_internal(rust: &RustType) -> (t: SqlType)
    ensures
        t@ == sql_of_rust_inner(rust@),
    decreases rust,
{
    match rust {
        RustType::Bool => SqlType::Boolean,
        RustType::U8(_) => SqlType::SmallInt,
        RustType::I8(_) => SqlType::SmallInt,
        RustType::U16(r) => if r.1 < i16::MAX as u16 {
            SqlType::SmallInt
        } else {
            SqlType::Integer
        },
        RustType::I16(_) => SqlType::SmallInt,
        RustType::U32(r) => if r.1 < i32::MAX as u32 {
            SqlType::Integer
        } else {
            SqlType::BigInt
        },
        RustType::I32(_) => SqlType::Integer,
        RustType::U64(_) => SqlType::BigInt,
        RustType::I64(_) => SqlType::BigInt,
        RustType::String => SqlType::Text,
        RustType::VecU8 => SqlType::ByteArray,
        RustType::Vec(inner) => SqlType::Array(Box::new(to_sql_internal(inner))),
        RustType::Option(inner) => to_sql_internal(inner),
        RustType::Complex(name) => SqlType::References(
            name.clone(),
            String::from_str(FOREIGN_KEY_DEFAULT_COLUMN),
        ),
    }
}

impl ToSql for RustType {
    /// `NOT NULL` unless the type is an option (see [`sql_of_rust`]).
    open spec fn sql_spec(&self) -> SqlTypeView {
        sql_of_rust(self@)
    }

    fn to_sql(&self) -> (t: SqlType) {
        if let RustType::Option(_) = self {
            to_sql_internal(self)
        } else {
            SqlType::NotNull(Box::new(to_sql_internal(self)))
        }
    }
}

/// The SQL model of a Rust model.
pub trait ToSqlModel {
    /// Whether `m` is the SQL model of this one.
    spec fn is_sql_model(&self, m: Model<Sql>) -> bool;

    /// The SQL model, as [`Model::convert_rust_to_sql`] makes it.
    fn to_sql(&self) -> (m: Model<Sql>)
        ensures
            self.is_sql_model(m),
    ;
}

impl ToSqlModel for Model<Rust> {
    /// The same name, no imports, and the SQL definitions of each definition, in order (see
    /// [`sql_definitions_of`]).
    open spec fn is_sql_model(&self, m: Model<Sql>) -> bool {
        &&& m.name@ == self.name@
        &&& m.imports@.len() == 0
        &&& sql_definitions_view(m.definitions@) == model_sql_definitions(
            crate::model::rust::definitions_view(self.definitions@),
        )
    }

    fn to_sql(&self) -> (m: Model<Sql>) {
        Model::<Sql>::convert_rust_to_sql(self)
    }
}

/// A column that is not a key.
fn column(name: String, sql: SqlType) -> (c: Column)
    ensures
        column_view(c) == (ColumnView { name: name@, sql: sql@, primary_key: false }),
{
    Column { name, sql, primary_key: false }
}

/// The `id` column: a serial primary key.
fn id() -> (c: Column)
    ensures
        column_view(c) == id_column(),
{
    Column { name: String::from_str(FOREIGN_KEY_DEFAULT_COLUMN), sql: SqlType::Serial, primary_key: true }
}

/// Appends a definition.
fn push_definition(definitions: &mut Vec<Definition<Sql>>, name: String, sql: Sql)
    ensures
        sql_definitions_view(final(definitions)@) == sql_definitions_view(old(definitions)@).push(
            (name@, sql_view(sql)),
        ),
{
    let d = Definition(name, sql);
    definitions.push(d);
    assert(sql_definitions_view(definitions@) =~= sql_definitions_view(old(definitions)@).push(
        (d.0@, sql_view(d.1)),
    ));
}

/// The columns of fields; `nullable` drops `NOT NULL` from their types.
fn columns_of(columns: &mut Vec<Column>, fields: &[(String, RustType)], nullable: bool)
    ensures
        final(columns)@.map_values(|c: Column| column_view(c)) == old(columns)@.map_values(
            |c: Column| column_view(c),
        ) + field_columns(named_types_view(fields@), nullable),
{
    let ghost before = old(columns)@.map_values(|c: Column| column_view(c));
    let mut i: usize = 0;
    while i < fields.len()
        invariant
            0 <= i <= fields@.len(),
            before == old(columns)@.map_values(|c: Column| column_view(c)),
            columns@.map_values(|c: Column| column_view(c)) == before + field_columns(
                named_types_view(fields@.take(i as int)),
                nullable,
            ),
        decreases fields@.len() - i,
    {
        let name = Model::<Sql>::sql_column_name(fields[i].0.as_str());
        let sql = if nullable {
            fields[i].1.to_sql().nullable()
        } else {
            fields[i].1.to_sql()
        };
        let c = column(name, sql);
        let ghost at = columns@;
        columns.push(c);
        proof {
            assert(columns@.map_values(|c: Column| column_view(c)) =~= at.map_values(
                |c: Column| column_view(c),
            ).push(column_view(c)));
            assert(named_types_view(fields@.take(i + 1)) =~= named_types_view(fields@.take(i as int)).push(
                (fields@[i as int].0@, fields@[i as int].1@),
            ));
            assert(field_columns(named_types_view(fields@.take(i + 1)), nullable) =~= field_columns(
                named_types_view(fields@.take(i as int)),
                nullable,
            ).push(column_view(c)));
        }
        i = i + 1;
    }
    assert(fields@.take(i as int) =~= fields@);
}

impl Model<Sql> {
    /// The SQL model of a Rust model: the same name, no imports, and the SQL definitions of
    /// each definition, in order (see [`sql_definitions_of`]).
    pub fn convert_rust_to_sql(rust_model: &Model<Rust>) -> (model: Model<Sql>)
        ensures
            model.name@ == rust_model.name@,
            model.imports@.len() == 0,
            sql_definitions_view(model.definitions@) == model_sql_definitions(
                crate::model::rust::definitions_view(rust_model.definitions@),
            ),
    {
        let mut definitions: Vec<Definition<Sql>> = Vec::new();
        let mut i: usize = 0;
        while i < rust_model.definitions.len()
            invariant
                0 <= i <= rust_model.definitions@.len(),
                sql_definitions_view(definitions@) == model_sql_definitions(
                    crate::model::rust::definitions_view(rust_model.definitions@.take(i as int)),
                ),
            decreases rust_model.definitions@.len() - i,
        {
            let definition = &rust_model.definitions[i];
            Self::definition_to_sql(definition.0.as_str(), &definition.1, &mut definitions);
            proof {
                let taken = crate::model::rust::definitions_view(rust_model.definitions@.take(i + 1));
                assert(taken.drop_last() =~= crate::model::rust::definitions_view(
                    rust_model.definitions@.take(i as int),
                ));
                assert(taken.last() == (definition.0@, definition.1@));
            }
            i = i + 1;
        }
        assert(rust_model.definitions@.take(i as int) =~= rust_model.definitions@);
        Model { name: rust_model.name.clone(), imports: Vec::new(), definitions }
    }

    /// Appends the SQL definitions of a Rust definition named `name` (see
    /// [`sql_definitions_of`]).
    fn definition_to_sql(name: &str, rust: &Rust, definitions: &mut Vec<Definition<Sql>>)
        ensures
            sql_definitions_view(final(definitions)@) == sql_definitions_view(old(definitions)@)
                + sql_definitions_of(name@, rust@),
    {
        match rust {
            Rust::Struct(fields) => Self::rust_struct_to_sql_table(name, fields.as_slice(), definitions),
            Rust::Enum(variants) => Self::rust_enum_to_sql_enum(name, variants.as_slice(), definitions),
            Rust::DataEnum(fields) => Self::rust_data_enum_to_sql_table(
                name,
                fields.as_slice(),
                definitions,
            ),
            Rust::TupleStruct(rust) => Self::rust_tuple_struct_to_sql_table(name, rust, definitions),
        }
    }

    /// Appends the table of a struct: an `id` column and a column for each field, then the
    /// indices and the function of the fields that refer to other tables.
    pub fn rust_struct_to_sql_table(
        name: &str,
        fields: &[(String, RustType)],
        definitions: &mut Vec<Definition<Sql>>,
    )
        ensures
            sql_definitions_view(final(definitions)@) == sql_definitions_view(old(definitions)@)
                + sql_definitions_of(name@, RustView::Struct(named_types_view(fields@))),
    {
        let mut columns: Vec<Column> = Vec::new();
        columns.push(id());
        let ghost first = columns@;
        columns_of(&mut columns, fields, false);
        proof {
            assert(first.map_values(|c: Column| column_view(c)) =~= seq![id_column()]);
        }
        let constraints: Vec<Constraint> = Vec::new();
        let table = Sql::Table((columns, constraints));
        assert(sql_view(table) == SqlView::Table(
            seq![id_column()] + field_columns(named_types_view(fields@), false),
            Seq::empty(),
        )) by {
            assert(constraints@.map_values(|c: Constraint| constraint_view(c)) =~= Seq::<ConstraintView>::empty());
        }
        push_definition(definitions, String::from_str(name), table);
        let ghost mid = sql_definitions_view(definitions@);
        Self::append_index_and_abandon_function(name, fields, definitions);
        assert(sql_definitions_view(definitions@) =~= sql_definitions_view(old(definitions)@)
            + sql_definitions_of(name@, RustView::Struct(named_types_view(fields@))));
    }

    /// Appends the table of a data enum: an `id` column unless a field is named so, a column
    /// that may be `NULL` for each field and the constraint that one of them is not, then the
    /// indices and the function of the fields that refer to other tables.
    pub fn rust_data_enum_to_sql_table(
        name: &str,
        fields: &[(String, RustType)],
        definitions: &mut Vec<Definition<Sql>>,
    )
        ensures
            sql_definitions_view(final(definitions)@) == sql_definitions_view(old(definitions)@)
                + sql_definitions_of(name@, RustView::DataEnum(named_types_view(fields@))),
    {
        let ghost fv = named_types_view(fields@);
        let mut columns: Vec<Column> = Vec::new();
        let mut found = false;
        let mut i: usize = 0;
        while i < fields.len()
            invariant
                0 <= i <= fields@.len(),
                fv == named_types_view(fields@),
                found == exists|j: int| 0 <= j < i && eq_ignore_ascii_case(FOREIGN_KEY_DEFAULT_COLUMN@, #[trigger] fv[j].0),
            decreases fields@.len() - i,
        {
            if text_eq_ignore_ascii_case(FOREIGN_KEY_DEFAULT_COLUMN, fields[i].0.as_str()) {
                found = true;
            }
            assert(fv[i as int].0 == fields@[i as int].0@);
            i = i + 1;
        }
        assert(found == has_id_field(fv));
        if !found {
            columns.push(id());
        }
        let ghost first = columns@;
        assert(first.map_values(|c: Column| column_view(c)) =~= (if has_id_field(fv) {
            Seq::empty()
        } else {
            seq![id_column()]
        }));
        columns_of(&mut columns, fields, true);
        let mut names: Vec<String> = Vec::new();
        let mut k: usize = 0;
        while k < fields.len()
            invariant
                0 <= k <= fields@.len(),
                fv == named_types_view(fields@),
                names_view(names@) == fv.take(k as int).map_values(
                    |f: (Seq<char>, RustTypeView)| separated_name(f.0, '_'),
                ),
            decreases fields@.len() - k,
        {
            let n = ProtobufDefGenerator::model_name(fields[k].0.as_str(), '_');
            proof {
                assert(names_view(names@.push(n)) =~= names_view(names@).push(n@));
                assert(fv.take(k + 1).map_values(|f: (Seq<char>, RustTypeView)| separated_name(f.0, '_'))
                    =~= fv.take(k as int).map_values(
                    |f: (Seq<char>, RustTypeView)| separated_name(f.0, '_'),
                ).push(separated_name(fields@[k as int].0@, '_')));
            }
            names.push(n);
            k = k + 1;
        }
        assert(fv.take(k as int) =~= fv);
        let mut constraints: Vec<Constraint> = Vec::new();
        let constraint = Constraint::OneNotNull(names);
        constraints.push(constraint);
        assert(constraints@.map_values(|c: Constraint| constraint_view(c)) =~= seq![
            constraint_view(constraint),
        ]);
        let table = Sql::Table((columns, constraints));
        push_definition(definitions, String::from_str(name), table);
        Self::append_index_and_abandon_function(name, fields, definitions);
        assert(sql_definitions_view(definitions@) =~= sql_definitions_view(old(definitions)@)
            + sql_definitions_of(name@, RustView::DataEnum(fv)));
    }

    /// Appends an index on a column that refers to another table.
    fn add_index_if_applicable(
        table: &str,
        column: &str,
        rust: &RustType,
        definitions: &mut Vec<Definition<Sql>>,
    )
        ensures
            sql_definitions_view(final(definitions)@) == sql_definitions_view(old(definitions)@)
                + if nullable_view(sql_of_rust(rust@)) is References {
                seq![(Seq::<char>::empty(), SqlView::Index(table@, seq![column@]))]
            } else {
                Seq::empty()
            },
    {
        if let SqlType::References(_, _) = rust.to_sql().nullable() {
            let mut columns: Vec<String> = Vec::new();
            columns.push(String::from_str(column));
            assert(names_view(columns@) =~= seq![column@]);
            push_definition(definitions, String::new(), Sql::Index(String::from_str(table), columns));
            assert(sql_definitions_view(definitions@) =~= sql_definitions_view(old(definitions)@)
                + seq![(Seq::<char>::empty(), SqlView::Index(table@, seq![column@]))]);
        } else {
            assert(sql_definitions_view(definitions@) =~= sql_definitions_view(old(definitions)@)
                + Seq::<SqlDefinitionView>::empty());
        }
    }

    /// Appends the enum of an enum.
    pub fn rust_enum_to_sql_enum(
        name: &str,
        variants: &[String],
        definitions: &mut Vec<Definition<Sql>>,
    )
        ensures
            sql_definitions_view(final(definitions)@) == sql_definitions_view(old(definitions)@)
                + sql_definitions_of(name@, RustView::Enum(names_view(variants@))),
    {
        let mut copied: Vec<String> = Vec::new();
        let mut i: usize = 0;
        while i < variants.len()
            invariant
                0 <= i <= variants@.len(),
                names_view(copied@) == names_view(variants@.take(i as int)),
            decreases variants@.len() - i,
        {
            let v = variants[i].clone();
            proof {
                assert(names_view(copied@.push(v)) =~= names_view(copied@).push(v@));
                assert(names_view(variants@.take(i + 1)) =~= names_view(variants@.take(i as int)).push(
                    variants@[i as int]@,
                ));
            }
            copied.push(v);
            i = i + 1;
        }
        assert(variants@.take(i as int) =~= variants@);
        push_definition(definitions, String::from_str(name), Sql::Enum(copied));
        assert(sql_definitions_view(definitions@) =~= sql_definitions_view(old(definitions)@)
            + sql_definitions_of(name@, RustView::Enum(names_view(variants@))));
    }

    /// Appends the tables of a tuple struct: one with an `id` column, and one of its entries,
    /// which refer to the row of the first and hold a value of the innermost type.
    pub fn rust_tuple_struct_to_sql_table(
        name: &str,
        rust_inner: &RustType,
        definitions: &mut Vec<Definition<Sql>>,
    )
        ensures
            sql_definitions_view(final(definitions)@) == sql_definitions_view(old(definitions)@)
                + sql_definitions_of(name@, RustView::TupleStruct(rust_inner@)),
    {
        proof {
            reveal_with_fuel(sql_type_view, 2);
        }
        let mut columns: Vec<Column> = Vec::new();
        columns.push(id());
        let constraints: Vec<Constraint> = Vec::new();
        assert(columns@.map_values(|c: Column| column_view(c)) =~= seq![id_column()]);
        assert(constraints@.map_values(|c: Constraint| constraint_view(c)) =~= Seq::<ConstraintView>::empty());
        push_definition(definitions, String::from_str(name), Sql::Table((columns, constraints)));
        let ghost mid = definitions@;

        let mut entry_name = String::from_str(name);
        push_all(&mut entry_name, "ListEntry");
        let parent = column(
            String::from_str(TUPLE_LIST_ENTRY_PARENT_COLUMN),
            SqlType::NotNull(
                Box::new(
                    SqlType::References(String::from_str(name), String::from_str(FOREIGN_KEY_DEFAULT_COLUMN)),
                ),
            ),
        );
        let value = column(
            String::from_str(TUPLE_LIST_ENTRY_VALUE_COLUMN),
            rust_inner.clone().into_inner_type().to_sql(),
        );
        let mut entry_columns: Vec<Column> = Vec::new();
        entry_columns.push(parent);
        entry_columns.push(value);
        let mut keys: Vec<String> = Vec::new();
        keys.push(String::from_str(TUPLE_LIST_ENTRY_PARENT_COLUMN));
        keys.push(String::from_str(TUPLE_LIST_ENTRY_VALUE_COLUMN));
        assert(names_view(keys@) =~= seq![TUPLE_LIST_ENTRY_PARENT_COLUMN@, TUPLE_LIST_ENTRY_VALUE_COLUMN@]);
        let mut entry_constraints: Vec<Constraint> = Vec::new();
        let key = Constraint::CombinedPrimaryKey(keys);
        entry_constraints.push(key);
        assert(entry_columns@.map_values(|c: Column| column_view(c)) =~= seq![
            column_view(parent),
            column_view(value),
        ]);
        assert(entry_constraints@.map_values(|c: Constraint| constraint_view(c)) =~= seq![
            constraint_view(key),
        ]);
        push_definition(definitions, entry_name, Sql::Table((entry_columns, entry_constraints)));
        assert(sql_definitions_view(definitions@) =~= sql_definitions_view(old(definitions)@)
            + sql_definitions_of(name@, RustView::TupleStruct(rust_inner@)));
    }

    /// The name of the column of a field: in snake case, with `_` appended to a name that is
    /// `id` apart from ASCII case and surrounding white space.
    pub fn sql_column_name(name: &str) -> (out: String)
        ensures
            out@ == column_name(name@),
    {
        if text_eq_ignore_ascii_case(FOREIGN_KEY_DEFAULT_COLUMN, trim(name)) {
            let mut string = ProtobufDefGenerator::model_name(name, '_');
            string.push('_');
            string
        } else {
            ProtobufDefGenerator::model_name(name, '_')
        }
    }

    /// Appends an index for each field that refers to another table and, where there are such
    /// fields, the function that removes the rows a deleted row refers to.
    fn append_index_and_abandon_function(
        name: &str,
        fields: &[(String, RustType)],
        definitions: &mut Vec<Definition<Sql>>,
    )
        ensures
            sql_definitions_view(final(definitions)@) == sql_definitions_view(old(definitions)@)
                + index_and_abandon_definitions(name@, named_types_view(fields@)),
    {
        let ghost before = sql_definitions_view(old(definitions)@);
        let mut children: Vec<(String, String, String)> = Vec::new();
        let mut i: usize = 0;
        while i < fields.len()
            invariant
                0 <= i <= fields@.len(),
                before == sql_definitions_view(old(definitions)@),
                sql_definitions_view(definitions@) == before + index_definitions(
                    name@,
                    named_types_view(fields@.take(i as int)),
                ),
                children_view(children@) == children_of(named_types_view(fields@.take(i as int))),
            decreases fields@.len() - i,
        {
            let column = Self::sql_column_name(fields[i].0.as_str());
            let ghost at = sql_definitions_view(definitions@);
            Self::add_index_if_applicable(name, column.as_str(), &fields[i].1, definitions);
            let ghost taken = named_types_view(fields@.take(i + 1));
            proof {
                assert(taken.drop_last() =~= named_types_view(fields@.take(i as int)));
                assert(taken.last() == (fields@[i as int].0@, fields@[i as int].1@));
            }
            if let SqlType::References(other_table, other_column) = fields[i].1.to_sql().nullable() {
                let child = (column, other_table, other_column);
                proof {
                    assert(children_view(children@.push(child)) =~= children_view(children@).push(
                        (child.0@, child.1@, child.2@),
                    ));
                }
                children.push(child);
            }
            i = i + 1;
        }
        assert(fields@.take(i as int) =~= fields@);
        if children.len() > 0 {
            Self::add_abandon_children(name, children, definitions);
        }
        assert(sql_definitions_view(definitions@) =~= before + index_and_abandon_definitions(
            name@,
            named_types_view(fields@),
        ));
    }

    /// Appends the function that removes the rows that a deleted row of `name` refers to.
    fn add_abandon_children(
        name: &str,
        children: Vec<(String, String, String)>,
        definitions: &mut Vec<Definition<Sql>>,
    )
        ensures
            sql_definitions_view(final(definitions)@) == sql_definitions_view(old(definitions)@).push(
                (
                    "AbandonChildrenOf"@ + name@,
                    SqlView::AbandonChildrenFunction(name@, children_view(children@)),
                ),
            ),
    {
        let mut function_name = String::from_str("AbandonChildrenOf");
        push_all(&mut function_name, name);
        push_definition(
            definitions,
            function_name,
            Sql::AbandonChildrenFunction(String::from_str(name), children),
        );
    }
}


/// The values an SQL integer column type holds, if it is one.
pub open spec fn sql_int_values(t: SqlTypeView) -> Option<(int, int)> {
    match t {
        SqlTypeView::SmallInt => Some((i16::MIN as int, i16::MAX as int)),
        SqlTypeView::Integer | SqlTypeView::Serial => Some((i32::MIN as int, i32::MAX as int)),
        SqlTypeView::BigInt => Some((i64::MIN as int, i64::MAX as int)),
        _ => None,
    }
}

/// The values a Rust integer type is declared to take by its range, if it is an integer type; a
/// `u64` without range takes those from zero up to the greatest `i64`.
pub open spec fn rust_declared_values(t: RustTypeView) -> Option<(int, int)> {
    match t {
        RustTypeView::U8(r) => Some((r.0 as int, r.1 as int)),
        RustTypeView::I8(r) => Some((r.0 as int, r.1 as int)),
        RustTypeView::U16(r) => Some((r.0 as int, r.1 as int)),
        RustTypeView::I16(r) => Some((r.0 as int, r.1 as int)),
        RustTypeView::U32(r) => Some((r.0 as int, r.1 as int)),
        RustTypeView::I32(r) => Some((r.0 as int, r.1 as int)),
        RustTypeView::U64(None) => Some((0, i64::MAX as int)),
        RustTypeView::U64(Some(r)) => Some((r.0 as int, r.1 as int)),
        RustTypeView::I64(r) => Some((r.0 as int, r.1 as int)),
        _ => None,
    }
}

/// The column of a Rust integer type is an integer column that holds every value of the
/// type's range, as far as the range lies within the `i64` values that SQL has.
pub proof fn lemma_sql_column_holds_rust_integers(t: RustTypeView)
    requires
        rust_declared_values(t) is Some,
        rust_declared_values(t)->Some_0.1 <= i64::MAX,
    ensures
        ({
            let (lo, hi) = rust_declared_values(t)->Some_0;
            let column = nullable_view(sql_of_rust(t));
            &&& sql_int_values(column) is Some
            &&& sql_int_values(column)->Some_0.0 <= lo
            &&& hi <= sql_int_values(column)->Some_0.1
        }),
{
}

} // verus!
