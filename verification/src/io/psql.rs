//! What types stored in PostgreSQL tell about themselves.
use vstd::prelude::*;

verus! {

/// A type whose values are rows of a table.
pub trait Representable {
    /// The name of the table.
    fn table_name(&self) -> &'static str;
}

} // verus!
