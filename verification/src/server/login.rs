//! Packets of the login state.

use vstd::prelude::*;
use crate::bytebuf::packet_id::{Packet, StateSet};
use crate::bytebuf::read::ReadBuf;
use crate::error::DecodeError;
use crate::{ConnectionState, ServerPacket};

verus! {

/// The client's word that it saw the login succeed. It has no fields.
pub struct SLoginAcknowledged {}

impl Packet for SLoginAcknowledged {
    open spec fn spec_packet_id() -> i32 {
        0x03
    }

    open spec fn spec_states() -> StateSet {
        StateSet::spec_only(ConnectionState::Login)
    }

    fn packet_id() -> (id: i32) {
        0x03
    }

    fn states() -> (set: StateSet) {
        StateSet::only(ConnectionState::Login)
    }
}

impl ServerPacket for SLoginAcknowledged {
    open spec fn parse_len(s: Seq<u8>) -> Result<nat, DecodeError> {
        Ok(0nat)
    }

    open spec fn spelled_by(&self, s: Seq<u8>) -> bool {
        true
    }

    fn read(bytebuf: &mut ReadBuf) -> (r: Result<Self, DecodeError>) {
        assert(bytebuf@.skip(0) =~= bytebuf@);
        Ok(SLoginAcknowledged {  })
    }
}

} // verus!
