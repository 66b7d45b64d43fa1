//! Packets that the server receives.

pub mod config;
pub mod handshake;
pub mod login;
pub mod status;
