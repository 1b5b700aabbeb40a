//! Input/output building blocks of the different ASN.1 representations.
pub mod buf;
pub mod buffer;
pub mod buffer_strings;
pub mod der;
pub mod per;
pub mod protobuf;
pub mod protobuf_eq;
pub mod psql;
pub mod uper;
