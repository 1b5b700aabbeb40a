//! Packed encoding rules (PER): error type and the UNALIGNED specialisation.
pub mod err;
pub mod unaligned;

pub use err::Error;
pub use err::ErrorKind;
pub mod packed;
