//! Packets that the server sends.

pub mod play;
