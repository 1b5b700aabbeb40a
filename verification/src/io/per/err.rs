use vstd::prelude::*;

verus! {

/// The reason why an encoding or decoding step failed.
#[derive(Debug, Clone, Copy, PartialEq, Eq, Structural)]
pub enum ErrorKind {
    InsufficientSpaceInDestinationBuffer,
    InsufficientDataInSourceBuffer,
    InvalidChoiceIndex(u64, u64),
    ValueNotInRange(i64, i64, i64),
    ValueExceedsMaxInt,
    ValueIsNegativeButExpectedUnsigned(i64),
    SizeNotInRange(u64, u64, u64),
    UnsupportedOperation,
    OptFlagsExhausted,
    EndOfStream,
}

/// An encoding or decoding error, carrying its [`ErrorKind`].
#[derive(Debug, Clone, Copy, PartialEq, Eq, Structural)]
pub struct Error {
    pub kind: ErrorKind,
}

impl Error {
    /// The kind of this error.
    pub fn kind(&self) -> (k: &ErrorKind)
        ensures
            *k == self.kind,
    {
        &self.kind
    }

    /// The destination has fewer bits than the operation needs.
    pub fn insufficient_space_in_destination_buffer() -> (e: Self)
        ensures
            e.kind == ErrorKind::InsufficientSpaceInDestinationBuffer,
    {
        Error { kind: ErrorKind::InsufficientSpaceInDestinationBuffer }
    }

    /// The source has fewer bits than the operation needs.
    pub fn insufficient_data_in_source_buffer() -> (e: Self)
        ensures
            e.kind == ErrorKind::InsufficientDataInSourceBuffer,
    {
        Error { kind: ErrorKind::InsufficientDataInSourceBuffer }
    }
}

impl From<ErrorKind> for Error {
    fn from(kind: ErrorKind) -> (e: Self) {
        Error { kind }
    }
}

impl vstd::std_specs::convert::FromSpecImpl<ErrorKind> for Error {
    open spec fn obeys_from_spec() -> bool {
        true
    }

    open spec fn from_spec(kind: ErrorKind) -> Error {
        Error { kind }
    }
}

} // verus!
