//! Pieces of the generators of Rust code.
use vstd::prelude::*;

use crate::gen::protobuf::{dashes_to_underscores, ProtobufDefGenerator};
use crate::model::rust::push_all;
use crate::parser::text_eq;

pub mod async_psql;
pub mod code;
pub mod protobuf;
pub mod psql;
pub mod uper;

verus! {

/// Whether a name is one of the Rust keywords that generated code avoids as a field name.
pub open spec fn is_keyword(name: Seq<char>) -> bool {
    name == "use"@ || name == "mod"@ || name == "const"@ || name == "type"@ || name == "pub"@
        || name == "enum"@ || name == "struct"@ || name == "impl"@ || name == "trait"@
}

/// The name of a generated field: `-` replaced by `_`, and, where keywords are checked, `_`
/// appended to a keyword.
pub open spec fn generated_field_name(name: Seq<char>, check_for_keywords: bool) -> Seq<char> {
    let n = dashes_to_underscores(name);
    if check_for_keywords && is_keyword(n) {
        n + "_"@
    } else {
        n
    }
}

/// The name of a generated field: `-` replaced by `_`, and, where `check_for_keywords` asks
/// for it, `_` appended to a keyword.
pub fn generator_field_name(name: &str, check_for_keywords: bool) -> (out: String)
    ensures
        out@ == generated_field_name(name@, check_for_keywords),
{
    let mut name = ProtobufDefGenerator::field_name(name);
    if check_for_keywords {
        let n = name.as_str();
        if text_eq(n, "use") || text_eq(n, "mod") || text_eq(n, "const") || text_eq(n, "type")
            || text_eq(n, "pub") || text_eq(n, "enum") || text_eq(n, "struct") || text_eq(n, "impl")
            || text_eq(n, "trait") {
            push_all(&mut name, "_");
        }
    }
    name
}

} // verus!
