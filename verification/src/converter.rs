//! Reading ASN.1 modules and converting them into other definitions.
use vstd::prelude::*;

use crate::gen::protobuf::{is_file_of, Error as ProtobufGeneratorError, ProtobufDefGenerator};
use crate::model::parse::{error_view, model_at, model_view};
use crate::model::protobuf::{protobuf_definitions_of, protobuf_definitions_view, same_import, Protobuf};
use crate::model::rust::{import_view, model_defs, model_fits, module_name, rust_import};
use crate::model::{Asn, Error as ModelError, Import, Model};
use crate::parser::{tokenize, Tokenizer};

verus! {

/// Why modules could not be read or converted.
#[derive(Debug)]
pub enum Error {
    ProtobufGenerator(ProtobufGeneratorError),
    Model(ModelError),
}

/// Whether `p` is the protobuf model of the ASN.1 model `m`: the Rust model of `m` converted
/// to protobuf.
pub open spec fn is_protobuf_of(p: Model<Protobuf>, m: Model<Asn>) -> bool {
    &&& p.name@ == module_name(m.name@)
    &&& p.imports@.map_values(|i: Import| import_view(i)) == m.imports@.map_values(|i: Import| rust_import(i))
    &&& protobuf_definitions_view(p.definitions@) == protobuf_definitions_of(model_defs(m.definitions@))
}

/// Whether `entry` holds the name of `m` and the one `.proto` file of its protobuf model.
pub open spec fn is_conversion_of(entry: (String, Vec<(String, String)>), m: Model<Asn>) -> bool {
    &&& entry.0@ == m.name@
    &&& entry.1@.len() == 1
    &&& exists|p: Model<Protobuf>| #[trigger] is_protobuf_of(p, m) && is_file_of(entry.1@[0], p)
}

/// Whether a model's every integer range fits, as the conversion into Rust requires.
pub open spec fn all_fit(models: Seq<Model<Asn>>) -> bool {
    forall|i: int| 0 <= i < models.len() ==> model_fits(#[trigger] models[i].definitions@)
}

/// The ASN.1 modules read so far, to convert together.
pub struct Converter {
    models: Vec<Model<Asn>>,
}

impl Default for Converter {
    fn default() -> (c: Self)
        ensures
            c.models_spec() == Seq::<Model<Asn>>::empty(),
    {
        Converter { models: Vec::new() }
    }
}

impl Converter {
    /// The modules read so far.
    pub closed spec fn models_spec(&self) -> Seq<Model<Asn>> {
        self.models@
    }

    /// The modules read so far.
    pub fn models(&self) -> (m: &[Model<Asn>])
        ensures
            m@ == self.models_spec(),
    {
        self.models.as_slice()
    }

    /// Reads the ASN.1 text `input` as a module (see [`model_at`]) and adds it; a text that
    /// is no module is refused and nothing is added.
    pub fn load(&mut self, input: &str) -> (r: Result<(), Error>)
        ensures
            match model_at(tokenize(input@)) {
                Ok(m) => r is Ok && final(self).models_spec().len() == old(self).models_spec().len() + 1
                    && final(self).models_spec().drop_last() == old(self).models_spec() && model_view(
                    final(self).models_spec().last(),
                ) == m,
                Err(e) => (r matches Err(Error::Model(me)) && error_view(me) == e)
                    && final(self).models_spec() == old(self).models_spec(),
            },
    {
        let tokens = Tokenizer.parse(input);
        match Model::try_from(tokens) {
            Ok(model) => {
                self.models.push(model);
                assert(self.models@.drop_last() =~= old(self).models@);
                Ok(())
            },
            Err(e) => Err(Error::Model(e)),
        }
    }

    /// Whether every integer range of every module fits, as [`Converter::to_protobuf`]
    /// requires.
    pub fn integers_fit(&self) -> (b: bool)
        ensures
            b == all_fit(self.models_spec()),
    {
        let mut i: usize = 0;
        while i < self.models.len()
            invariant
                0 <= i <= self.models@.len(),
                forall|j: int| 0 <= j < i ==> model_fits(#[trigger] self.models@[j].definitions@),
            decreases self.models@.len() - i,
        {
            if !self.models[i].integers_fit() {
                return false;
            }
            i = i + 1;
        }
        true
    }

    /// The `.proto` files of the modules: for each module, in order, its name and the files
    /// of its protobuf model, with the name and the text of each.
    pub fn to_protobuf(&self) -> (r: Result<Vec<(String, Vec<(String, String)>)>, Error>)
        requires
            all_fit(self.models_spec()),
        ensures
            r is Ok,
            r->Ok_0@.len() == self.models_spec().len(),
            forall|i: int| 0 <= i < self.models_spec().len() ==> is_conversion_of(
                #[trigger] r->Ok_0@[i],
                self.models_spec()[i],
            ),
    {
        let mut out: Vec<(String, Vec<(String, String)>)> = Vec::new();
        let mut i: usize = 0;
        while i < self.models.len()
            invariant
                0 <= i <= self.models@.len(),
                all_fit(self.models@),
                out@.len() == i,
                forall|j: int| 0 <= j < i ==> is_conversion_of(#[trigger] out@[j], self.models@[j]),
            decreases self.models@.len() - i,
        {
            let model = &self.models[i];
            assert(model_fits(model.definitions@));
            let rust = model.to_rust();
            let protobuf = rust.to_protobuf();
            assert(protobuf.imports@.map_values(|i: Import| import_view(i)) =~= model.imports@.map_values(
                |i: Import| rust_import(i),
            )) by {
                assert forall|k: int| 0 <= k < protobuf.imports@.len() implies #[trigger] import_view(
                    protobuf.imports@[k],
                ) == import_view(rust.imports@[k]) by {
                    assert(same_import(protobuf.imports@[k], rust.imports@[k]));
                }
                assert(protobuf.imports@.map_values(|i: Import| import_view(i)) =~= rust.imports@.map_values(
                    |i: Import| import_view(i),
                ));
            }
            let ghost p = protobuf;
            let mut generator = ProtobufDefGenerator::default();
            generator.add_model(protobuf);
            let files = match generator.to_string() {
                Ok(files) => files,
                Err(e) => return Err(Error::ProtobufGenerator(e)),
            };
            assert(generator.models_spec() =~= seq![p]);
            assert(is_file_of(files@[0], p));
            let entry = (model.name.clone(), files);
            let ghost before = out@;
            out.push(entry);
            assert forall|j: int| 0 <= j < i + 1 implies is_conversion_of(
                #[trigger] out@[j],
                self.models@[j],
            ) by {
                if j < i {
                    assert(out@[j] == before[j]);
                } else {
                    assert(out@[j] == entry);
                    assert(is_protobuf_of(p, self.models@[j]));
                }
            }
            i = i + 1;
        }
        Ok(out)
    }
}

} // verus!
