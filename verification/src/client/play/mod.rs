//! Packets of the play state.

pub mod c_login;
