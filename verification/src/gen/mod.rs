//! Generators of definitions in other languages.
pub mod protobuf;
pub mod rust;
pub mod sql;
