//! Writing `.proto` files of protobuf models.
use vstd::prelude::*;

use crate::model::protobuf::{
    lemma_one_of_view, one_of_view, protobuf_type_text, Protobuf, ProtobufType, ProtobufTypeView, ProtobufView,
};
use crate::model::rust::{
    dec_text, is_lowercase, is_uppercase, lowercase, lowercase_of, names_view, push_all,
    push_dec, to_lowercase, uppercase,
};
use crate::model::{Definition, Import, Model};
use crate::parser::{chars_of, text_eq};

verus! {

/// A formatting error, as writing text reports it.
#[verifier::external_type_specification]
#[verifier::external_body]
pub struct ExFmtError(std::fmt::Error);

/// Why a `.proto` file could not be written.
#[derive(Debug)]
pub enum Error {
    Fmt(std::fmt::Error),
}

/// What `str::to_uppercase` gives for a text.
pub uninterp spec fn uppercase_text(s: Seq<char>) -> Seq<char>;

/// `str::to_uppercase`: the upper case mapping of a text, which Unicode defines; named, not
/// stated.
#[verifier::external_body]
fn to_uppercase_text(s: &str) -> (r: String)
    ensures
        r@ == uppercase_text(s@),
{
    s.to_uppercase()
}

/// The name after the first `n` characters of `name`, and whether the last character was made
/// lower case: an upper case letter is made lower case and, unless it comes first, preceded by
/// `separator` when the previous one was not made lower case or the next one is lower case;
/// `-` becomes `separator`.
pub open spec fn separated_name_fold(name: Seq<char>, n: nat, separator: char) -> (Seq<char>, bool)
    decreases n,
{
    if n == 0 || n > name.len() {
        (Seq::empty(), false)
    } else {
        let (out, prev_lowered) = separated_name_fold(name, (n - 1) as nat, separator);
        let i = n - 1;
        let c = name[i];
        if uppercase(c) {
            let separate = out.len() > 0 && (!prev_lowered || (i + 1 < name.len() && lowercase(
                name[i + 1],
            )));
            ((if separate {
                out.push(separator)
            } else {
                out
            }) + lowercase_of(c), true)
        } else if c == '-' {
            (out.push(separator), false)
        } else {
            (out.push(c), false)
        }
    }
}

/// A model name in lower case, its words parted by `separator`.
pub open spec fn separated_name(name: Seq<char>, separator: char) -> Seq<char> {
    separated_name_fold(name, name.len(), separator).0
}

/// The name of the `.proto` file of a model.
pub open spec fn proto_file_name(model: Seq<char>) -> Seq<char> {
    separated_name(model, '_') + ".proto"@
}

/// The protobuf package of a model.
pub open spec fn proto_package(model: Seq<char>) -> Seq<char> {
    separated_name(model, '.')
}

/// A text with each `-` replaced by `_`.
pub open spec fn dashes_to_underscores(s: Seq<char>) -> Seq<char> {
    s.map_values(
        |c: char|
            if c == '-' {
                '_'
            } else {
                c
            },
    )
}

/// The name of an enum variant in a `.proto` file.
pub open spec fn proto_variant_text(name: Seq<char>) -> Seq<char> {
    uppercase_text(dashes_to_underscores(name))
}

/// The module that the first import naming `name` imports it from.
pub open spec fn import_from(imports: Seq<Import>, name: Seq<char>) -> Option<Seq<char>>
    decreases imports.len(),
{
    if imports.len() == 0 {
        None
    } else if names_view(imports[0].what@).contains(name) {
        Some(imports[0].from@)
    } else {
        import_from(imports.drop_first(), name)
    }
}

/// The type of a field as a `.proto` file writes it: a type imported from another module is
/// prefixed by that module's package.
pub open spec fn full_type_text(t: ProtobufTypeView, imports: Seq<Import>) -> Seq<char> {
    match t {
        ProtobufTypeView::Complex(name) => match import_from(imports, name) {
            Some(from) => proto_package(from) + "."@ + name,
            None => name,
        },
        _ => protobuf_type_text(t),
    }
}

/// The line of a field.
pub open spec fn field_text(imports: Seq<Import>, name: Seq<char>, t: ProtobufTypeView, tag: nat) -> Seq<
    char,
> {
    "    "@ + full_type_text(t, imports) + " "@ + dashes_to_underscores(name) + " = "@ + dec_text(tag)
        + ";\n"@
}

/// The line of an enum variant.
pub open spec fn variant_text(name: Seq<char>, tag: nat) -> Seq<char> {
    "    "@ + proto_variant_text(name) + " = "@ + dec_text(tag) + ";\n"@
}

/// The lines of enum variants, numbered from zero.
pub open spec fn variants_text(variants: Seq<Seq<char>>) -> Seq<char>
    decreases variants.len(),
{
    if variants.len() == 0 {
        Seq::empty()
    } else {
        variants_text(variants.drop_last()) + variant_text(
            variants.last(),
            (variants.len() - 1) as nat,
        )
    }
}

/// The lines of the fields of a `oneof`, numbered from one.
pub open spec fn one_of_text(imports: Seq<Import>, fields: Seq<(Seq<char>, ProtobufTypeView)>) -> Seq<
    char,
>
    decreases fields.len(),
{
    if fields.len() == 0 {
        Seq::empty()
    } else {
        one_of_text(imports, fields.drop_last()) + "    "@ + field_text(
            imports,
            fields.last().0,
            fields.last().1,
            fields.len(),
        )
    }
}

/// The lines of a field of a message: a `oneof` block for a `oneof` type, else one line.
pub open spec fn member_text(
    imports: Seq<Import>,
    name: Seq<char>,
    t: ProtobufTypeView,
    tag: nat,
) -> Seq<char> {
    match t {
        ProtobufTypeView::OneOf(fields) => "    oneof "@ + dashes_to_underscores(name) + " {\n"@
            + one_of_text(imports, fields) + "    }\n"@,
        _ => field_text(imports, name, t, tag),
    }
}

/// The lines of the fields of a message, numbered from one.
pub open spec fn fields_text(imports: Seq<Import>, fields: Seq<(Seq<char>, ProtobufTypeView)>) -> Seq<
    char,
>
    decreases fields.len(),
{
    if fields.len() == 0 {
        Seq::empty()
    } else {
        fields_text(imports, fields.drop_last()) + member_text(
            imports,
            fields.last().0,
            fields.last().1,
            fields.len(),
        )
    }
}

/// The lines of a definition: an enum or a message.
pub open spec fn definition_text(imports: Seq<Import>, name: Seq<char>, p: ProtobufView) -> Seq<char> {
    match p {
        ProtobufView::Enum(variants) => "enum "@ + name + " {\n"@ + variants_text(variants) + "}\n"@,
        ProtobufView::Message(fields) => "message "@ + name + " {\n"@ + fields_text(imports, fields)
            + "}\n"@,
    }
}

/// The lines that open a `.proto` file: the syntax, the package and an empty line.
pub open spec fn header_text(model: Seq<char>) -> Seq<char> {
    "syntax = 'proto3';\n"@ + "package "@ + proto_package(model) + ";\n"@ + "\n"@
}

/// The import lines of the modules imported from.
pub open spec fn import_lines(imports: Seq<Import>) -> Seq<char>
    decreases imports.len(),
{
    if imports.len() == 0 {
        Seq::empty()
    } else {
        import_lines(imports.drop_last()) + "import '"@ + proto_file_name(imports.last().from@)
            + "';\n"@
    }
}

/// The import lines and, where there are imports, an empty line behind them.
pub open spec fn imports_text(imports: Seq<Import>) -> Seq<char> {
    if imports.len() > 0 {
        import_lines(imports) + "\n"@
    } else {
        Seq::empty()
    }
}

/// The lines of the definitions of a model.
pub open spec fn definitions_text(imports: Seq<Import>, defs: Seq<Definition<Protobuf>>) -> Seq<char>
    decreases defs.len(),
{
    if defs.len() == 0 {
        Seq::empty()
    } else {
        definitions_text(imports, defs.drop_last()) + definition_text(
            imports,
            defs.last().0@,
            defs.last().1@,
        )
    }
}

/// The `.proto` file of a model.
pub open spec fn file_text(model: Model<Protobuf>) -> Seq<char> {
    header_text(model.name@) + imports_text(model.imports@) + definitions_text(
        model.imports@,
        model.definitions@,
    )
}

/// Whether `file` is the name and the text of the `.proto` file of `model`.
pub open spec fn is_file_of(file: (String, String), model: Model<Protobuf>) -> bool {
    file.0@ == proto_file_name(model.name@) && file.1@ == file_text(model)
}

/// Writes protobuf models as `.proto` files.
pub struct ProtobufDefGenerator {
    models: Vec<Model<Protobuf>>,
}

impl Default for ProtobufDefGenerator {
    fn default() -> (g: Self)
        ensures
            g.models_spec() == Seq::<Model<Protobuf>>::empty(),
    {
        ProtobufDefGenerator { models: Vec::new() }
    }
}

impl ProtobufDefGenerator {
    /// The models to write.
    pub closed spec fn models_spec(&self) -> Seq<Model<Protobuf>> {
        self.models@
    }

    /// Adds a model to write.
    pub fn add_model(&mut self, model: Model<Protobuf>)
        ensures
            final(self).models_spec() == old(self).models_spec().push(model),
    {
        self.models.push(model);
    }

    /// The models to write.
    pub fn models(&self) -> (m: &[Model<Protobuf>])
        ensures
            m@ == self.models_spec(),
    {
        self.models.as_slice()
    }

    /// The `.proto` files of the models: the name of each and its text.
    pub fn to_string(&self) -> (r: Result<Vec<(String, String)>, Error>)
        ensures
            r is Ok,
            r->Ok_0@.len() == self.models_spec().len(),
            forall|i: int| 0 <= i < self.models_spec().len() ==> is_file_of(
                #[trigger] r->Ok_0@[i],
                self.models_spec()[i],
            ),
    {
        let mut files: Vec<(String, String)> = Vec::new();
        let mut i: usize = 0;
        while i < self.models.len()
            invariant
                0 <= i <= self.models@.len(),
                files@.len() == i,
                forall|j: int| 0 <= j < i ==> is_file_of(#[trigger] files@[j], self.models@[j]),
            decreases self.models@.len() - i,
        {
            let model = &self.models[i];
            let generated = Self::generate_file(model);
            let file = match generated {
                Ok(file) => file,
                Err(e) => return Err(e),
            };
            assert(file.0@ == proto_file_name(self.models@[i as int].name@));
            assert(file.1@ == file_text(self.models@[i as int]));
            let ghost before = files@;
            files.push(file);
            assert forall|j: int| 0 <= j < i + 1 implies is_file_of(#[trigger] files@[j], self.models@[j]) by {
                if j < i {
                    assert(files@[j] == before[j]);
                } else {
                    assert(files@[j] == file);
                }
            }
            i = i + 1;
        }
        Ok(files)
    }

    /// The `.proto` file of a model: its name and its text.
    pub fn generate_file(model: &Model<Protobuf>) -> (r: Result<(String, String), Error>)
        ensures
            r is Ok,
            r->Ok_0.0@ == proto_file_name(model.name@),
            r->Ok_0.1@ == file_text(*model),
    {
        let file_name = Self::model_file_name(model.name.as_str());
        let mut content = String::new();
        let _ = Self::append_header(&mut content, model);
        let _ = Self::append_imports(&mut content, model);
        let ghost before = content@;
        let mut i: usize = 0;
        while i < model.definitions.len()
            invariant
                0 <= i <= model.definitions@.len(),
                content@ == before + definitions_text(model.imports@, model.definitions@.take(i as int)),
            decreases model.definitions@.len() - i,
        {
            let _ = Self::append_definition(&mut content, model, &model.definitions[i]);
            proof {
                assert(model.definitions@.take(i + 1).drop_last() =~= model.definitions@.take(i as int));
                assert(content@ =~= before + definitions_text(model.imports@, model.definitions@.take(i + 1)));
            }
            i = i + 1;
        }
        assert(model.definitions@.take(i as int) =~= model.definitions@);
        assert(content@ =~= file_text(*model));
        Ok((file_name, content))
    }

    /// Appends the lines that open a `.proto` file.
    pub fn append_header(target: &mut String, model: &Model<Protobuf>) -> (r: Result<(), Error>)
        ensures
            r is Ok,
            final(target)@ == old(target)@ + header_text(model.name@),
    {
        push_all(target, "syntax = 'proto3';\n");
        push_all(target, "package ");
        let package = Self::model_to_package(model.name.as_str());
        push_all(target, package.as_str());
        push_all(target, ";\n");
        push_all(target, "\n");
        assert(target@ =~= old(target)@ + header_text(model.name@));
        Ok(())
    }

    /// Appends an import line for each module imported from and, where there are imports, an
    /// empty line.
    pub fn append_imports(target: &mut String, model: &Model<Protobuf>) -> (r: Result<(), Error>)
        ensures
            r is Ok,
            final(target)@ == old(target)@ + imports_text(model.imports@),
    {
        let mut i: usize = 0;
        while i < model.imports.len()
            invariant
                0 <= i <= model.imports@.len(),
                target@ == old(target)@ + import_lines(model.imports@.take(i as int)),
            decreases model.imports@.len() - i,
        {
            let ghost at = target@;
            push_all(target, "import '");
            let file = Self::model_file_name(model.imports[i].from.as_str());
            push_all(target, file.as_str());
            push_all(target, "';\n");
            proof {
                assert(model.imports@.take(i + 1).drop_last() =~= model.imports@.take(i as int));
                assert(target@ =~= old(target)@ + import_lines(model.imports@.take(i + 1)));
            }
            i = i + 1;
        }
        assert(model.imports@.take(i as int) =~= model.imports@);
        if model.imports.len() > 0 {
            push_all(target, "\n");
        } else {
            assert(target@ =~= old(target)@ + imports_text(model.imports@));
        }
        Ok(())
    }

    /// Appends the lines of a definition: an enum with its variants numbered from zero, or a
    /// message with its fields numbered from one, a `oneof` field as a block.
    pub fn append_definition(
        target: &mut String,
        model: &Model<Protobuf>,
        definition: &Definition<Protobuf>,
    ) -> (r: Result<(), Error>)
        ensures
            r is Ok,
            final(target)@ == old(target)@ + definition_text(
                model.imports@,
                definition.0@,
                definition.1@,
            ),
    {
        let name = definition.0.as_str();
        match &definition.1 {
            Protobuf::Enum(variants) => {
                push_all(target, "enum ");
                push_all(target, name);
                push_all(target, " {\n");
                let ghost start = target@;
                let mut tag: usize = 0;
                while tag < variants.len()
                    invariant
                        0 <= tag <= variants@.len(),
                        target@ == start + variants_text(names_view(variants@.take(tag as int))),
                    decreases variants@.len() - tag,
                {
                    let _ = Self::append_variant(target, variants[tag].as_str(), tag);
                    proof {
                        assert(names_view(variants@.take(tag + 1)).drop_last() =~= names_view(
                            variants@.take(tag as int),
                        ));
                        assert(target@ =~= start + variants_text(names_view(variants@.take(tag + 1))));
                    }
                    tag = tag + 1;
                }
                assert(variants@.take(tag as int) =~= variants@);
                push_all(target, "}\n");
                assert(target@ =~= old(target)@ + definition_text(
                    model.imports@,
                    definition.0@,
                    definition.1@,
                ));
            },
            Protobuf::Message(fields) => {
                push_all(target, "message ");
                push_all(target, name);
                push_all(target, " {\n");
                let ghost start = target@;
                let mut prev_tag: usize = 0;
                while prev_tag < fields.len()
                    invariant
                        0 <= prev_tag <= fields@.len(),
                        target@ == start + fields_text(
                            model.imports@,
                            one_of_view(fields@.take(prev_tag as int)),
                        ),
                    decreases fields@.len() - prev_tag,
                {
                    let field = &fields[prev_tag];
                    let ghost at = target@;
                    match &field.1 {
                        ProtobufType::OneOf(variants) => {
                            push_all(target, "    oneof ");
                            let field_name = Self::field_name(field.0.as_str());
                            push_all(target, field_name.as_str());
                            push_all(target, " {\n");
                            let ghost inner = target@;
                            let mut prev: usize = 0;
                            while prev < variants.len()
                                invariant
                                    0 <= prev <= variants@.len(),
                                    target@ == inner + one_of_text(
                                        model.imports@,
                                        one_of_view(variants@.take(prev as int)),
                                    ),
                                decreases variants@.len() - prev,
                            {
                                push_all(target, "    ");
                                let _ = Self::append_field(
                                    target,
                                    model,
                                    variants[prev].0.as_str(),
                                    &variants[prev].1,
                                    prev + 1,
                                );
                                proof {
                                    lemma_one_of_view(variants@.take(prev + 1));
                                    lemma_one_of_view(variants@.take(prev as int));
                                    assert(variants@.take(prev + 1).subrange(0, prev as int)
                                        =~= variants@.take(prev as int));
                                    assert(one_of_view(variants@.take(prev + 1)).last() == (
                                        variants@[prev as int].0@,
                                        variants@[prev as int].1@,
                                    ));
                                    assert(one_of_view(variants@.take(prev + 1)).drop_last()
                                        =~= one_of_view(variants@.take(prev as int)));
                                    assert(target@ =~= inner + one_of_text(
                                        model.imports@,
                                        one_of_view(variants@.take(prev + 1)),
                                    ));
                                }
                                prev = prev + 1;
                            }
                            assert(variants@.take(prev as int) =~= variants@);
                            push_all(target, "    }\n");
                        },
                        _ => {
                            let _ = Self::append_field(target, model, field.0.as_str(), &field.1, prev_tag + 1);
                        },
                    }
                    proof {
                        lemma_one_of_view(fields@.take(prev_tag + 1));
                        lemma_one_of_view(fields@.take(prev_tag as int));
                        assert(fields@.take(prev_tag + 1).subrange(0, prev_tag as int) =~= fields@.take(
                            prev_tag as int,
                        ));
                        assert(one_of_view(fields@.take(prev_tag + 1)).last() == (field.0@, field.1@));
                        assert(one_of_view(fields@.take(prev_tag + 1)).drop_last() =~= one_of_view(
                            fields@.take(prev_tag as int),
                        ));
                        assert(target@ =~= at + member_text(
                            model.imports@,
                            field.0@,
                            field.1@,
                            (prev_tag + 1) as nat,
                        ));
                        assert(target@ =~= start + fields_text(
                            model.imports@,
                            one_of_view(fields@.take(prev_tag + 1)),
                        ));
                    }
                    prev_tag = prev_tag + 1;
                }
                assert(fields@.take(prev_tag as int) =~= fields@);
                push_all(target, "}\n");
                assert(target@ =~= old(target)@ + definition_text(
                    model.imports@,
                    definition.0@,
                    definition.1@,
                ));
            },
        }
        Ok(())
    }

    /// Appends the line of a field: its full type, its name and its number.
    pub fn append_field(
        target: &mut String,
        model: &Model<Protobuf>,
        name: &str,
        role: &ProtobufType,
        tag: usize,
    ) -> (r: Result<(), Error>)
        ensures
            r is Ok,
            final(target)@ == old(target)@ + field_text(model.imports@, name@, role@, tag as nat),
    {
        push_all(target, "    ");
        let full_type = Self::role_to_full_type(role, model);
        push_all(target, full_type.as_str());
        push_all(target, " ");
        let field_name = Self::field_name(name);
        push_all(target, field_name.as_str());
        push_all(target, " = ");
        push_dec(target, tag as u64);
        push_all(target, ";\n");
        assert(target@ =~= old(target)@ + field_text(model.imports@, name@, role@, tag as nat));
        Ok(())
    }

    /// Appends the line of an enum variant: its name and its number.
    pub fn append_variant(target: &mut String, variant: &str, tag: usize) -> (r: Result<(), Error>)
        ensures
            r is Ok,
            final(target)@ == old(target)@ + variant_text(variant@, tag as nat),
    {
        push_all(target, "    ");
        let name = Self::variant_name(variant);
        push_all(target, name.as_str());
        push_all(target, " = ");
        push_dec(target, tag as u64);
        push_all(target, ";\n");
        assert(target@ =~= old(target)@ + variant_text(variant@, tag as nat));
        Ok(())
    }

    /// The type of a field as a `.proto` file writes it: a type that the model imports is
    /// prefixed by the package of the module it is imported from.
    pub fn role_to_full_type(role: &ProtobufType, model: &Model<Protobuf>) -> (t: String)
        ensures
            t@ == full_type_text(role@, model.imports@),
    {
        match role {
            ProtobufType::Complex(name) => {
                assert(role@ == ProtobufTypeView::Complex(name@));
                let mut prefixed = String::new();
                let mut i: usize = 0;
                assert(model.imports@.subrange(0, model.imports@.len() as int) =~= model.imports@);
                while i < model.imports.len()
                    invariant
                        0 <= i <= model.imports@.len(),
                        role@ == ProtobufTypeView::Complex(name@),
                        prefixed@ == Seq::<char>::empty(),
                        import_from(model.imports@, name@) == import_from(
                            model.imports@.subrange(i as int, model.imports@.len() as int),
                            name@,
                        ),
                    decreases model.imports@.len() - i,
                {
                    let import = &model.imports[i];
                    let ghost rest = model.imports@.subrange(i as int, model.imports@.len() as int);
                    assert(rest[0] == *import);
                    assert(rest.drop_first() =~= model.imports@.subrange(i + 1, model.imports@.len() as int));
                    let mut j: usize = 0;
                    while j < import.what.len()
                        invariant
                            0 <= j <= import.what@.len(),
                            prefixed@ == Seq::<char>::empty(),
                            role@ == ProtobufTypeView::Complex(name@),
                            rest.len() > 0,
                            rest[0] == *import,
                            import_from(model.imports@, name@) == import_from(rest, name@),
                            forall|k: int| 0 <= k < j ==> import.what@[k]@ != name@,
                        decreases import.what@.len() - j,
                    {
                        if text_eq(import.what[j].as_str(), name.as_str()) {
                            let package = Self::model_to_package(import.from.as_str());
                            push_all(&mut prefixed, package.as_str());
                            prefixed.push('.');
                            push_all(&mut prefixed, name.as_str());
                            proof {
                                reveal_strlit(".");
                                assert("."@ =~= seq!['.']);
                                assert(names_view(import.what@)[j as int] == name@);
                                assert(names_view(import.what@).contains(name@));
                                assert(import_from(rest, name@) == Some(import.from@));
                                assert(prefixed@ =~= proto_package(import.from@) + "."@ + name@);
                            }
                            return prefixed;
                        }
                        j = j + 1;
                    }
                    proof {
                        assert(!names_view(import.what@).contains(name@)) by {
                            if names_view(import.what@).contains(name@) {
                                let k = choose|k: int| 0 <= k < names_view(import.what@).len()
                                    && names_view(import.what@)[k] == name@;
                                assert(import.what@[k]@ == name@);
                            }
                        }
                    }
                    assert(import_from(rest, name@) == import_from(rest.drop_first(), name@));
                    i = i + 1;
                }
                push_all(&mut prefixed, name.as_str());
                assert(prefixed@ =~= name@);
                prefixed
            },
            _ => role.to_string(),
        }
    }

    /// The name of an enum variant: `-` replaced by `_`, in upper case.
    pub fn variant_name(name: &str) -> (out: String)
        ensures
            out@ == proto_variant_text(name@),
    {
        let replaced = Self::field_name(name);
        to_uppercase_text(replaced.as_str())
    }

    /// The name of a field: `-` replaced by `_`.
    pub fn field_name(name: &str) -> (out: String)
        ensures
            out@ == dashes_to_underscores(name@),
    {
        let chars = chars_of(name);
        let mut out = String::new();
        let mut i: usize = 0;
        while i < chars.len()
            invariant
                0 <= i <= chars@.len(),
                chars@ == name@,
                out@ == dashes_to_underscores(name@.take(i as int)),
            decreases chars@.len() - i,
        {
            let c = chars[i];
            out.push(
                if c == '-' {
                    '_'
                } else {
                    c
                },
            );
            assert(out@ =~= dashes_to_underscores(name@.take(i + 1)));
            i = i + 1;
        }
        assert(name@.take(i as int) =~= name@);
        out
    }

    /// The name of the `.proto` file of a model.
    pub fn model_file_name(model: &str) -> (out: String)
        ensures
            out@ == proto_file_name(model@),
    {
        let mut name = Self::model_name(model, '_');
        push_all(&mut name, ".proto");
        name
    }

    /// A model name in lower case, its words parted by `separator` (see
    /// [`separated_name_fold`]).
    pub fn model_name(model: &str, separator: char) -> (out: String)
        ensures
            out@ == separated_name(model@, separator),
    {
        let chars = chars_of(model);
        let n = chars.len();
        let mut out = String::new();
        let mut prev_lowered = false;
        let mut i: usize = 0;
        while i < n
            invariant
                0 <= i <= n,
                n == chars@.len(),
                chars@ == model@,
                (out@, prev_lowered) == separated_name_fold(model@, i as nat, separator),
            decreases n - i,
        {
            let c = chars[i];
            let mut lowered = false;
            if is_uppercase(c) {
                if out.as_str().unicode_len() > 0 {
                    if !prev_lowered {
                        out.push(separator);
                    } else if i + 1 < n && is_lowercase(chars[i + 1]) {
                        out.push(separator);
                    }
                }
                lowered = true;
                let lower = to_lowercase(c);
                push_all(&mut out, lower.as_str());
            } else if c == '-' {
                out.push(separator);
            } else {
                out.push(c);
            }
            prev_lowered = lowered;
            i = i + 1;
        }
        out
    }

    /// The protobuf package of a model: its name in lower case, the words parted by `.`.
    pub fn model_to_package(model: &str) -> (out: String)
        ensures
            out@ == proto_package(model@),
    {
        Self::model_name(model, '.')
    }
}

} // verus!
