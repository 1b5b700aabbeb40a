//! Writing `.sql` files of SQL models: statements that drop and create their tables, enums,
//! indices and functions.
use vstd::prelude::*;

use crate::gen::protobuf::Error;
use crate::model::rust::{dec_text, names_view, push_all, push_dec};
use crate::model::sql::{
    children_view, column_view, constraint_view, sql_type_text, sql_view, Column, ColumnView,
    Constraint, ConstraintView, Sql, SqlView,
};
use crate::model::{Definition, Model};

verus! {

/// Texts joined by `, `.
pub open spec fn joined(names: Seq<Seq<char>>) -> Seq<char>
    decreases names.len(),
{
    if names.len() == 0 {
        Seq::empty()
    } else if names.len() == 1 {
        names[0]
    } else {
        joined(names.drop_last()) + ", "@ + names.last()
    }
}

/// The statement of a column: its name, its type and whether it is the primary key.
pub open spec fn column_text(c: ColumnView) -> Seq<char> {
    "    "@ + c.name + " "@ + sql_type_text(c.sql) + if c.primary_key {
        " PRIMARY KEY"@
    } else {
        ""@
    }
}

/// The statement of a constraint.
pub open spec fn constraint_text(c: ConstraintView) -> Seq<char> {
    match c {
        ConstraintView::CombinedPrimaryKey(columns) => "    PRIMARY KEY("@ + joined(columns) + ")"@,
        ConstraintView::OneNotNull(columns) => "    CHECK (num_nonnulls("@ + joined(columns) + ") = 1)"@,
    }
}

/// The lines of the first `n` columns of a table; a comma follows each but the last line of
/// the table.
pub open spec fn column_lines(columns: Seq<ColumnView>, n: nat, constraints: nat) -> Seq<char>
    decreases n,
{
    if n == 0 || n > columns.len() {
        Seq::empty()
    } else {
        column_lines(columns, (n - 1) as nat, constraints) + column_text(columns[n - 1]) + (if n
            < columns.len() || constraints > 0 {
            ","@
        } else {
            ""@
        }) + "\n"@
    }
}

/// The lines of the first `n` constraints of a table; a comma follows each but the last.
pub open spec fn constraint_lines(constraints: Seq<ConstraintView>, n: nat) -> Seq<char>
    decreases n,
{
    if n == 0 || n > constraints.len() {
        Seq::empty()
    } else {
        constraint_lines(constraints, (n - 1) as nat) + constraint_text(constraints[n - 1]) + (if n
            < constraints.len() {
            ","@
        } else {
            ""@
        }) + "\n"@
    }
}

/// The statement that creates a table.
pub open spec fn create_table_text(
    name: Seq<char>,
    columns: Seq<ColumnView>,
    constraints: Seq<ConstraintView>,
) -> Seq<char> {
    "CREATE TABLE "@ + name + " (\n"@ + column_lines(columns, columns.len(), constraints.len())
        + constraint_lines(constraints, constraints.len()) + ");\n"@
}

/// The lines of the first `n` variants inserted into the table of an enum, numbered from zero.
pub open spec fn variant_rows(variants: Seq<Seq<char>>, n: nat) -> Seq<char>
    decreases n,
{
    if n == 0 || n > variants.len() {
        Seq::empty()
    } else {
        variant_rows(variants, (n - 1) as nat) + "    ("@ + dec_text((n - 1) as nat) + ", '"@
            + variants[n - 1] + "')"@ + (if n < variants.len() {
            ", "@
        } else {
            ";"@
        }) + "\n"@
    }
}

/// The statements that create the table of an enum and insert its variants.
pub open spec fn create_enum_text(name: Seq<char>, variants: Seq<Seq<char>>) -> Seq<char> {
    "CREATE TABLE "@ + name + " (\n"@ + "    id SERIAL PRIMARY KEY,\n"@ + "    name TEXT NOT NULL\n"@
        + ");\n"@ + "INSERT INTO "@ + name + " (id, name) VALUES\n"@ + variant_rows(
        variants,
        variants.len(),
    )
}

/// The statement that creates an index.
pub open spec fn index_text(name: Seq<char>, table: Seq<char>, columns: Seq<Seq<char>>) -> Seq<char> {
    "CREATE INDEX "@ + name + " ON "@ + table + "("@ + joined(columns) + ");\n"@
}

/// The statements that delete the rows that the first `n` referring columns refer to.
pub open spec fn delete_lines(children: Seq<(Seq<char>, Seq<char>, Seq<char>)>, n: nat) -> Seq<char>
    decreases n,
{
    if n == 0 || n > children.len() {
        Seq::empty()
    } else {
        let (column, other_table, other_column) = children[n - 1];
        delete_lines(children, (n - 1) as nat) + "    DELETE FROM "@ + other_table + " WHERE "@
            + other_column + " = OLD."@ + column + ";\n"@
    }
}

/// The function, and its trigger, that delete the rows a deleted row of `table` refers to.
pub open spec fn abandon_children_text(
    table: Seq<char>,
    name: Seq<char>,
    children: Seq<(Seq<char>, Seq<char>, Seq<char>)>,
) -> Seq<char> {
    "CREATE OR REPLACE FUNCTION "@ + name + "() RETURNS TRIGGER AS\n"@ + "$$ BEGIN\n"@ + delete_lines(
        children,
        children.len(),
    ) + "    RETURN NULL;\n"@ + "END; $$ LANGUAGE plpgsql;\n"@ + "CREATE TRIGGER OnDelete"@ + name
        + " AFTER DELETE ON "@ + table + "\n"@ + "    FOR EACH ROW\n"@ + "    EXECUTE PROCEDURE "@
        + name + "();\n"@
}

/// The statement that drops the table of a definition, for tables and enums.
pub open spec fn drop_text(name: Seq<char>, sql: SqlView) -> Seq<char> {
    match sql {
        SqlView::Table(_, _) | SqlView::Enum(_) => "DROP TABLE IF EXISTS "@ + name + " CASCADE;\n"@,
        _ => Seq::empty(),
    }
}

/// The statements that create a definition, behind an empty line.
pub open spec fn create_text(name: Seq<char>, sql: SqlView) -> Seq<char> {
    "\n"@ + match sql {
        SqlView::Table(columns, constraints) => create_table_text(name, columns, constraints),
        SqlView::Enum(variants) => create_enum_text(name, variants),
        SqlView::Index(table, columns) => index_text(name, table, columns),
        SqlView::AbandonChildrenFunction(table, children) => abandon_children_text(table, name, children),
    }
}

/// The drop statements of the first `n` definitions.
pub open spec fn drops_text(defs: Seq<Definition<Sql>>, n: nat) -> Seq<char>
    decreases n,
{
    if n == 0 || n > defs.len() {
        Seq::empty()
    } else {
        drops_text(defs, (n - 1) as nat) + drop_text(defs[n - 1].0@, sql_view(defs[n - 1].1))
    }
}

/// The create statements of the first `n` definitions.
pub open spec fn creates_text(defs: Seq<Definition<Sql>>, n: nat) -> Seq<char>
    decreases n,
{
    if n == 0 || n > defs.len() {
        Seq::empty()
    } else {
        creates_text(defs, (n - 1) as nat) + create_text(defs[n - 1].0@, sql_view(defs[n - 1].1))
    }
}

/// The `.sql` file of a model: first the statements that drop its tables, then those that
/// create its definitions.
pub open spec fn sql_file_text(model: Model<Sql>) -> Seq<char> {
    drops_text(model.definitions@, model.definitions@.len()) + creates_text(
        model.definitions@,
        model.definitions@.len(),
    )
}

/// Whether `file` is the name and the text of the `.sql` file of `model`.
pub open spec fn is_sql_file_of(file: (String, String), model: Model<Sql>) -> bool {
    file.0@ == model.name@ + ".sql"@ && file.1@ == sql_file_text(model)
}

/// Appends texts joined by `, `.
fn push_joined(target: &mut String, names: &[String])
    ensures
        final(target)@ == old(target)@ + joined(names_view(names@)),
{
    let mut i: usize = 0;
    while i < names.len()
        invariant
            0 <= i <= names@.len(),
            target@ == old(target)@ + joined(names_view(names@.take(i as int))),
        decreases names@.len() - i,
    {
        if i > 0 {
            push_all(target, ", ");
        }
        push_all(target, names[i].as_str());
        proof {
            let t = names_view(names@.take(i + 1));
            assert(t.drop_last() =~= names_view(names@.take(i as int)));
            if i == 0 {
                assert(names_view(names@.take(i as int)) =~= Seq::<Seq<char>>::empty());
                assert(target@ =~= old(target)@ + joined(t));
            } else {
                assert(target@ =~= old(target)@ + joined(t));
            }
        }
        i = i + 1;
    }
    assert(names@.take(i as int) =~= names@);
}

/// Writes SQL models as `.sql` files.
pub struct SqlDefGenerator {
    models: Vec<Model<Sql>>,
}

impl Default for SqlDefGenerator {
    fn default() -> (g: Self)
        ensures
            g.models_spec() == Seq::<Model<Sql>>::empty(),
    {
        SqlDefGenerator { models: Vec::new() }
    }
}

impl SqlDefGenerator {
    /// The models to write.
    pub closed spec fn models_spec(&self) -> Seq<Model<Sql>> {
        self.models@
    }

    /// Adds a model to write.
    pub fn add_model(&mut self, model: Model<Sql>)
        ensures
            final(self).models_spec() == old(self).models_spec().push(model),
    {
        self.models.push(model);
    }

    /// The models to write.
    pub fn models(&self) -> (m: &[Model<Sql>])
        ensures
            m@ == self.models_spec(),
    {
        self.models.as_slice()
    }

    /// The `.sql` files of the models: the name of each and its text.
    pub fn to_string(&self) -> (r: Result<Vec<(String, String)>, Error>)
        ensures
            r is Ok,
            r->Ok_0@.len() == self.models_spec().len(),
            forall|i: int| 0 <= i < self.models_spec().len() ==> is_sql_file_of(
                #[trigger] r->Ok_0@[i],
                self.models_spec()[i],
            ),
    {
        let mut files: Vec<(String, String)> = Vec::new();
        let mut m: usize = 0;
        while m < self.models.len()
            invariant
                0 <= m <= self.models@.len(),
                files@.len() == m,
                forall|j: int| 0 <= j < m ==> is_sql_file_of(#[trigger] files@[j], self.models@[j]),
            decreases self.models@.len() - m,
        {
            let model = &self.models[m];
            let mut drop = String::new();
            let mut create = String::new();
            let mut i: usize = 0;
            while i < model.definitions.len()
                invariant
                    0 <= i <= model.definitions@.len(),
                    drop@ == drops_text(model.definitions@, i as nat),
                    create@ == creates_text(model.definitions@, i as nat),
                decreases model.definitions@.len() - i,
            {
                let definition = &model.definitions[i];
                let name = definition.0.as_str();
                let ghost at_drop = drop@;
                let ghost at_create = create@;
                push_all(&mut create, "\n");
                match &definition.1 {
                    Sql::Table((columns, constraints)) => {
                        push_all(&mut drop, "DROP TABLE IF EXISTS ");
                        push_all(&mut drop, name);
                        push_all(&mut drop, " CASCADE;\n");
                        let _ = Self::append_create_table(
                            &mut create,
                            name,
                            columns.as_slice(),
                            constraints.as_slice(),
                        );
                    },
                    Sql::Enum(variants) => {
                        push_all(&mut drop, "DROP TABLE IF EXISTS ");
                        push_all(&mut drop, name);
                        push_all(&mut drop, " CASCADE;\n");
                        let _ = Self::append_create_enum(&mut create, name, variants.as_slice());
                    },
                    Sql::Index(table, columns) => {
                        let _ = Self::append_index(&mut create, name, table.as_str(), columns.as_slice());
                    },
                    Sql::AbandonChildrenFunction(table, children) => {
                        let _ = Self::append_abandon_children(
                            &mut create,
                            table.as_str(),
                            name,
                            children.as_slice(),
                        );
                    },
                }
                proof {
                    reveal_strlit("");
                    assert(""@ =~= Seq::<char>::empty());
                    assert(drop@ =~= at_drop + drop_text(name@, sql_view(definition.1)));
                    assert(create@ =~= at_create + create_text(name@, sql_view(definition.1)));
                }
                i = i + 1;
            }
            push_all(&mut drop, create.as_str());
            let mut file_name = model.name.clone();
            push_all(&mut file_name, ".sql");
            let file = (file_name, drop);
            let ghost before = files@;
            files.push(file);
            assert forall|j: int| 0 <= j < m + 1 implies is_sql_file_of(
                #[trigger] files@[j],
                self.models@[j],
            ) by {
                if j < m {
                    assert(files@[j] == before[j]);
                } else {
                    assert(files@[j] == file);
                }
            }
            m = m + 1;
        }
        Ok(files)
    }

    /// Appends the statement that creates a table of `columns` and `constraints`.
    pub fn append_create_table(
        target: &mut String,
        name: &str,
        columns: &[Column],
        constraints: &[Constraint],
    ) -> (r: Result<(), Error>)
        ensures
            r is Ok,
            final(target)@ == old(target)@ + create_table_text(
                name@,
                columns@.map_values(|c: Column| column_view(c)),
                constraints@.map_values(|c: Constraint| constraint_view(c)),
            ),
    {
        let ghost cols = columns@.map_values(|c: Column| column_view(c));
        let ghost cons = constraints@.map_values(|c: Constraint| constraint_view(c));
        push_all(target, "CREATE TABLE ");
        push_all(target, name);
        push_all(target, " (\n");
        let ghost start = target@;
        let mut index: usize = 0;
        while index < columns.len()
            invariant
                0 <= index <= columns@.len(),
                cols == columns@.map_values(|c: Column| column_view(c)),
                cons == constraints@.map_values(|c: Constraint| constraint_view(c)),
                target@ == start + column_lines(cols, index as nat, cons.len()),
            decreases columns@.len() - index,
        {
            let ghost at = target@;
            let _ = Self::append_column_statement(target, &columns[index]);
            if index + 1 < columns.len() || constraints.len() > 0 {
                push_all(target, ",");
            }
            push_all(target, "\n");
            proof {
                reveal_strlit("");
                assert(""@ =~= Seq::<char>::empty());
                assert(target@ =~= start + column_lines(cols, (index + 1) as nat, cons.len()));
            }
            index = index + 1;
        }
        let ghost middle = target@;
        let mut k: usize = 0;
        while k < constraints.len()
            invariant
                0 <= k <= constraints@.len(),
                cons == constraints@.map_values(|c: Constraint| constraint_view(c)),
                target@ == middle + constraint_lines(cons, k as nat),
            decreases constraints@.len() - k,
        {
            let _ = Self::append_constraint(target, &constraints[k]);
            if k + 1 < constraints.len() {
                push_all(target, ",");
            }
            push_all(target, "\n");
            proof {
                reveal_strlit("");
                assert(""@ =~= Seq::<char>::empty());
                assert(target@ =~= middle + constraint_lines(cons, (k + 1) as nat));
            }
            k = k + 1;
        }
        push_all(target, ");\n");
        assert(target@ =~= old(target)@ + create_table_text(name@, cols, cons));
        Ok(())
    }

    /// Appends the statement of a column: its name, its type and whether it is the primary
    /// key.
    pub fn append_column_statement(target: &mut String, column: &Column) -> (r: Result<(), Error>)
        ensures
            r is Ok,
            final(target)@ == old(target)@ + column_text(column_view(*column)),
    {
        push_all(target, "    ");
        push_all(target, column.name.as_str());
        push_all(target, " ");
        let sql = column.sql.to_string();
        push_all(target, sql.as_str());
        if column.primary_key {
            push_all(target, " PRIMARY KEY");
        }
        proof {
            reveal_strlit("");
            assert(""@ =~= Seq::<char>::empty());
        }
        assert(target@ =~= old(target)@ + column_text(column_view(*column)));
        Ok(())
    }

    /// Appends the statements that create the table of an enum and insert its variants,
    /// numbered from zero.
    pub fn append_create_enum(target: &mut String, name: &str, variants: &[String]) -> (r: Result<
        (),
        Error,
    >)
        ensures
            r is Ok,
            final(target)@ == old(target)@ + create_enum_text(name@, names_view(variants@)),
    {
        let ghost vs = names_view(variants@);
        push_all(target, "CREATE TABLE ");
        push_all(target, name);
        push_all(target, " (\n");
        push_all(target, "    id SERIAL PRIMARY KEY,\n");
        push_all(target, "    name TEXT NOT NULL\n");
        push_all(target, ");\n");
        push_all(target, "INSERT INTO ");
        push_all(target, name);
        push_all(target, " (id, name) VALUES\n");
        let ghost start = target@;
        let mut index: usize = 0;
        while index < variants.len()
            invariant
                0 <= index <= variants@.len(),
                vs == names_view(variants@),
                target@ == start + variant_rows(vs, index as nat),
            decreases variants@.len() - index,
        {
            push_all(target, "    (");
            push_dec(target, index as u64);
            push_all(target, ", '");
            push_all(target, variants[index].as_str());
            push_all(target, "')");
            if index + 1 < variants.len() {
                push_all(target, ", ");
            } else {
                push_all(target, ";");
            }
            push_all(target, "\n");
            assert(target@ =~= start + variant_rows(vs, (index + 1) as nat));
            index = index + 1;
        }
        assert(target@ =~= old(target)@ + create_enum_text(name@, vs));
        Ok(())
    }

    /// Appends the statement of a constraint.
    fn append_constraint(target: &mut String, constraint: &Constraint) -> (r: Result<(), Error>)
        ensures
            r is Ok,
            final(target)@ == old(target)@ + constraint_text(constraint_view(*constraint)),
    {
        match constraint {
            Constraint::CombinedPrimaryKey(columns) => {
                push_all(target, "    PRIMARY KEY(");
                push_joined(target, columns.as_slice());
                push_all(target, ")");
            },
            Constraint::OneNotNull(columns) => {
                push_all(target, "    CHECK (num_nonnulls(");
                push_joined(target, columns.as_slice());
                push_all(target, ") = 1)");
            },
        }
        assert(target@ =~= old(target)@ + constraint_text(constraint_view(*constraint)));
        Ok(())
    }

    /// Appends the statement that creates an index on `columns` of `table`.
    fn append_index(target: &mut String, name: &str, table: &str, columns: &[String]) -> (r: Result<
        (),
        Error,
    >)
        ensures
            r is Ok,
            final(target)@ == old(target)@ + index_text(name@, table@, names_view(columns@)),
    {
        push_all(target, "CREATE INDEX ");
        push_all(target, name);
        push_all(target, " ON ");
        push_all(target, table);
        push_all(target, "(");
        push_joined(target, columns);
        push_all(target, ");\n");
        assert(target@ =~= old(target)@ + index_text(name@, table@, names_view(columns@)));
        Ok(())
    }

    /// Appends the function, and its trigger, that delete the rows a deleted row of `table`
    /// refers to.
    fn append_abandon_children(
        target: &mut String,
        table: &str,
        name: &str,
        children: &[(String, String, String)],
    ) -> (r: Result<(), Error>)
        ensures
            r is Ok,
            final(target)@ == old(target)@ + abandon_children_text(
                table@,
                name@,
                children_view(children@),
            ),
    {
        let ghost cs = children_view(children@);
        push_all(target, "CREATE OR REPLACE FUNCTION ");
        push_all(target, name);
        push_all(target, "() RETURNS TRIGGER AS\n");
        push_all(target, "$$ BEGIN\n");
        let ghost start = target@;
        let mut i: usize = 0;
        while i < children.len()
            invariant
                0 <= i <= children@.len(),
                cs == children_view(children@),
                target@ == start + delete_lines(cs, i as nat),
            decreases children@.len() - i,
        {
            let (column, other_table, other_column) = &children[i];
            push_all(target, "    DELETE FROM ");
            push_all(target, other_table.as_str());
            push_all(target, " WHERE ");
            push_all(target, other_column.as_str());
            push_all(target, " = OLD.");
            push_all(target, column.as_str());
            push_all(target, ";\n");
            assert(target@ =~= start + delete_lines(cs, (i + 1) as nat));
            i = i + 1;
        }
        push_all(target, "    RETURN NULL;\n");
        push_all(target, "END; $$ LANGUAGE plpgsql;\n");
        push_all(target, "CREATE TRIGGER OnDelete");
        push_all(target, name);
        push_all(target, " AFTER DELETE ON ");
        push_all(target, table);
        push_all(target, "\n");
        push_all(target, "    FOR EACH ROW\n");
        push_all(target, "    EXECUTE PROCEDURE ");
        push_all(target, name);
        push_all(target, "();\n");
        assert(target@ =~= old(target)@ + abandon_children_text(table@, name@, cs));
        Ok(())
    }
}

} // verus!
