//! Packets of the status state.

use vstd::prelude::*;
use crate::bytebuf::packet_id::{Packet, StateSet};
use crate::bytebuf::read::{parse_i64, ReadBuf};
use crate::error::DecodeError;
use crate::{ConnectionState, ServerPacket};

verus! {

/// The request for the server's status. It has no fields.
pub struct SStatusRequest {}

/// A ping. The server answers with the same number.
pub struct SStatusPingRequest {
    pub payload: i64,
}

impl Packet for SStatusRequest {
    open spec fn spec_packet_id() -> i32 {
        0x00
    }

    open spec fn spec_states() -> StateSet {
        StateSet::spec_only(ConnectionState::Status)
    }

    fn packet_id() -> (id: i32) {
        0x00
    }

    fn states() -> (set: StateSet) {
        StateSet::only(ConnectionState::Status)
    }
}

impl ServerPacket for SStatusRequest {
    open spec fn parse_len(s: Seq<u8>) -> Result<nat, DecodeError> {
        Ok(0nat)
    }

    open spec fn spelled_by(&self, s: Seq<u8>) -> bool {
        true
    }

    fn read(bytebuf: &mut ReadBuf) -> (r: Result<Self, DecodeError>) {
        assert(bytebuf@.skip(0) =~= bytebuf@);
        Ok(SStatusRequest {  })
    }
}

impl Packet for SStatusPingRequest {
    open spec fn spec_packet_id() -> i32 {
        0x01
    }

    open spec fn spec_states() -> StateSet {
        StateSet::spec_only(ConnectionState::Status)
    }

    fn packet_id() -> (id: i32) {
        0x01
    }

    fn states() -> (set: StateSet) {
        StateSet::only(ConnectionState::Status)
    }
}

impl ServerPacket for SStatusPingRequest {
    open spec fn parse_len(s: Seq<u8>) -> Result<nat, DecodeError> {
        match parse_i64(s) {
            Ok((_, n)) => Ok(n),
            Err(e) => Err(e),
        }
    }

    open spec fn spelled_by(&self, s: Seq<u8>) -> bool {
        parse_i64(s) is Ok && self.payload == parse_i64(s)->Ok_0.0
    }

    fn read(bytebuf: &mut ReadBuf) -> (r: Result<Self, DecodeError>) {
        match bytebuf.try_get_i64() {
            Ok(payload) => Ok(SStatusPingRequest { payload }),
            Err(e) => Err(e),
        }
    }
}

} // verus!
