//! Codecs of the primitive wire types.

pub mod fixed;
pub mod identifier;
pub mod var_int;
