//! Errors and limits of the first UNALIGNED PER reader and writer.
use vstd::prelude::*;
use crate::io::per::err::ErrorKind;

verus! {

/// Number of bits in one octet.
pub const BYTE_LEN: usize = 8;

/// The largest length a length determinant of one octet holds.
pub const UPER_LENGTH_DET_L1: i64 = 127;

/// The largest length a length determinant of two octets holds.
pub const UPER_LENGTH_DET_L2: i64 = 16383;

/// Why reading or writing failed.
#[derive(Debug, PartialOrd, PartialEq)]
pub enum Error {
    InvalidUtf8String,
    UnsupportedOperation(String),
    InsufficientSpaceInDestinationBuffer,
    InsufficientDataInSourceBuffer,
    ValueNotInRange(i64, i64, i64),
    EndOfStream,
}

/// `e` is the error of kind `k`: the kinds the two error types share map one to one; an
/// unsupported operation carries a message that this relation does not look at.
pub open spec fn is_error_of_kind(e: Error, k: ErrorKind) -> bool {
    match k {
        ErrorKind::InsufficientSpaceInDestinationBuffer => e is InsufficientSpaceInDestinationBuffer,
        ErrorKind::InsufficientDataInSourceBuffer => e is InsufficientDataInSourceBuffer,
        ErrorKind::ValueNotInRange(v, l, u) => e == Error::ValueNotInRange(v, l, u),
        ErrorKind::EndOfStream => e is EndOfStream,
        ErrorKind::UnsupportedOperation => e is UnsupportedOperation,
        _ => false,
    }
}

} // verus!
