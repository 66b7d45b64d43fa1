//! The errors of the protocol layer.

use vstd::prelude::*;

verus! {

/// Why a value could not be read from the wire.
#[derive(Debug, Clone, Copy, PartialEq, Eq, Structural)]
pub enum DecodeError {
    /// The cursor ran out of bytes before the value was complete.
    UnexpectedEnd,
    /// The bytes do not form a value of the expected kind.
    InvalidEncoding,
    /// A variable-length integer went on past its fifth byte.
    VarIntTooLong,
    /// A string declared more bytes than the caller allows.
    StringTooLong,
    /// A length field asked for more than the configured capacity.
    CapacityExceeded,
    /// A frame declared a length outside `0..=MAX_PACKET_SIZE`.
    FrameTooLarge,
    /// A compressed frame did not inflate to the length it declared.
    DecompressionMismatch,
}

/// Why a value could not be written.
#[derive(Debug, Clone, Copy, PartialEq, Eq, Structural)]
pub enum EncodeError {
    /// The sink has a hard capacity and the value does not fit in what is left of it.
    CapacityExceeded,
    /// The frame would be longer than `MAX_PACKET_SIZE`.
    FrameTooLarge,
    /// The compressor reported an error.
    CompressionFailed,
}

} // verus!
