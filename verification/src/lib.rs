//! ASN.1 encoding building blocks: bit- and octet-buffers, the UNALIGNED packed encoding rules,
//! distinguished length encoding, protobuf wire primitives and the ASN.1 model conversions.
use vstd::prelude::*;

pub mod cli;
pub mod converter;
pub mod gen;
pub mod io;
pub mod model;
pub mod parser;
pub mod protocol;

verus! {

} // verus!
