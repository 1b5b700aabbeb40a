//! Encoding rules that work on whole octets.
pub mod basic;
