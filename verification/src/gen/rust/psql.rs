//! Pieces of the generator of code that stores values in PostgreSQL.
use vstd::prelude::*;

use crate::model::rust::{inner_type_view, is_primitive_view, RustType, RustTypeView};

verus! {

/// The generator of code that stores values in PostgreSQL.
pub struct PsqlInserter;

/// Whether values of a Rust type go into a column of their own: the innermost type within
/// vectors and options is a text, octets, a boolean or an integer.
pub open spec fn is_sql_primitive_view(t: RustTypeView) -> bool {
    match inner_type_view(t) {
        RustTypeView::String => true,
        RustTypeView::VecU8 => true,
        r => is_primitive_view(r),
    }
}

impl PsqlInserter {
    /// Whether values of `rust` go into a column of their own: the innermost type within
    /// vectors and options is a text, octets, a boolean or an integer.
    pub fn is_sql_primitive(rust: &RustType) -> (b: bool)
        ensures
            b == is_sql_primitive_view(rust@),
    {
        match rust.clone().into_inner_type() {
            RustType::String => true,
            RustType::VecU8 => true,
            r => r.is_primitive(),
        }
    }
}

} // verus!
