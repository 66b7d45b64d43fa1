//! Byte cursors: a reading view over received bytes and a growable sink
//! with a hard capacity. Every codec goes through one of the two.

pub mod packet_id;
pub mod read;
pub mod write;
