//! The basic family of encoding rules (ITU-T X.690).
use vstd::prelude::*;

pub mod distinguished;

pub use distinguished::DistinguishedEncodingRules;

use crate::model::Tag;
use std::ops::Range;

verus! {

/// Why reading failed.
#[derive(Debug, PartialEq, Eq)]
pub enum ErrorKind {
    /// Another tag was expected.
    UnexpectedTypeTag { expected: Tag, got: Tag },
    /// A length outside the expected ones.
    UnexpectedTypeLength { expected: Range<u64>, got: u64 },
    /// A choice index outside the expected ones.
    UnexpectedChoiceIndex { expected: Range<u64>, got: u64 },
    /// The input ended before the value.
    UnexpectedEndOfInput,
    /// A number was announced with more octets than it can have.
    UnsupportedByteLen { max: u8, got: u8 },
}

/// A reading error, carrying its [`ErrorKind`].
#[derive(Debug, PartialEq, Eq)]
pub struct Error {
    pub kind: ErrorKind,
}

impl Error {
    /// The kind of this error.
    pub fn kind(&self) -> (k: &ErrorKind)
        ensures
            *k == self.kind,
    {
        &self.kind
    }

    /// The tag `got` where `expected` was expected.
    pub fn unexpected_tag(expected: Tag, got: Tag) -> (e: Self)
        ensures
            e.kind == (ErrorKind::UnexpectedTypeTag { expected, got }),
    {
        Error { kind: ErrorKind::UnexpectedTypeTag { expected, got } }
    }

    /// The length `got` outside the lengths `expected`.
    pub fn unexpected_length(expected: Range<u64>, got: u64) -> (e: Self)
        ensures
            e.kind == (ErrorKind::UnexpectedTypeLength { expected, got }),
    {
        Error { kind: ErrorKind::UnexpectedTypeLength { expected, got } }
    }

    /// The choice index `got` outside the indices `expected`.
    pub fn unexpected_choice_index(expected: Range<u64>, got: u64) -> (e: Self)
        ensures
            e.kind == (ErrorKind::UnexpectedChoiceIndex { expected, got }),
    {
        Error { kind: ErrorKind::UnexpectedChoiceIndex { expected, got } }
    }

    /// A number announced with `got` octets where at most `max` are supported.
    pub fn unsupported_byte_len(max: u8, got: u8) -> (e: Self)
        ensures
            e.kind == (ErrorKind::UnsupportedByteLen { max, got }),
    {
        Error { kind: ErrorKind::UnsupportedByteLen { max, got } }
    }
}

} // verus!
