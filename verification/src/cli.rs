//! The parameters of a conversion.
use vstd::prelude::*;

verus! {

/// What to convert the input files to, where to write the output and how.
pub struct Parameters {
    /// Whether the fields in generated Rust code are not `pub`.
    pub rust_fields_not_public: bool,
    /// Whether getters and setters are generated for the fields of generated Rust structs.
    pub rust_getter_and_setter: bool,
    /// What to convert the input files to.
    pub conversion_target: ConversionTarget,
    /// The directory to write the output files to.
    pub destination_dir: String,
    /// The ASN.1 files to convert.
    pub source_files: Vec<String>,
}

/// What to convert ASN.1 files to.
#[derive(Debug, Copy, Clone, PartialEq, Eq, PartialOrd, Ord, Structural)]
pub enum ConversionTarget {
    Rust,
    Proto,
}

} // verus!
