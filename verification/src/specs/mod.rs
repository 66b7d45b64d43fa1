//! What this crate takes on trust about the crates it calls.

pub mod buffers;
pub mod text;
pub mod zlib;
