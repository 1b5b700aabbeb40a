//! UNALIGNED packed encoding: bit level reading and writing on byte slices and buffers.
pub mod bits;
pub mod buffer;
pub mod slice;
