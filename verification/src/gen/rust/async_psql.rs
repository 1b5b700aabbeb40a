//! Pieces of the generator of asynchronous code that stores values in PostgreSQL.
use vstd::prelude::*;

use crate::model::rust::RustType;

verus! {

/// The generator of asynchronous code that stores values in PostgreSQL.
pub struct AsyncPsqlInserter;

/// How a field is stored: a vector or a named type, each by an asynchronous statement of its
/// own, or a value of a column, with its type where it is known.
pub enum FieldInsert {
    AsyncVec,
    AsyncComplex(String),
    Primitive(String, Option<RustType>),
}

impl FieldInsert {
    /// Whether the field is stored by an asynchronous statement of its own.
    pub fn is_async(&self) -> (b: bool)
        ensures
            b == !(*self is Primitive),
    {
        match self {
            FieldInsert::AsyncVec => true,
            FieldInsert::AsyncComplex(_) => true,
            FieldInsert::Primitive(_, _) => false,
        }
    }

    /// Whether the field is a vector.
    pub fn is_vec(&self) -> (b: bool)
        ensures
            b == (*self is AsyncVec),
    {
        if let FieldInsert::AsyncVec = self {
            true
        } else {
            false
        }
    }

    /// Whether the field is of a named type.
    pub fn is_complex(&self) -> (b: bool)
        ensures
            b == (*self is AsyncComplex),
    {
        if let FieldInsert::AsyncComplex(_) = &self {
            true
        } else {
            false
        }
    }

    /// Whether the field is a value of a column.
    pub fn is_primitve(&self) -> (b: bool)
        ensures
            b == (*self is Primitive),
    {
        if let FieldInsert::Primitive(_, _) = &self {
            true
        } else {
            false
        }
    }
}

} // verus!
