//! The first packet of every connection.

use vstd::prelude::*;
use crate::bytebuf::packet_id::{Packet, StateSet};
use crate::bytebuf::read::{parse_string, parse_u16, parse_var_int_field, ReadBuf};
use crate::codec::var_int::VarInt;
use crate::error::DecodeError;
use crate::{ConnectionState, ServerPacket};

verus! {

/// The longest server address, in bytes, that a handshake may carry.
pub const MAX_ADDRESS_LEN: u32 = 255;

/// The packet by which a client says what it came for.
pub struct SHandShake {
    pub protocol_version: VarInt,
    pub server_address: String,
    pub server_port: u16,
    /// The intent as it came. A value that names no intent is worth a
    /// line in the log.
    pub intent: VarInt,
    /// The state that the intent asks for.
    pub next_state: ConnectionState,
}

/// What a handshake holds, field by field.
pub struct SHandShakeView {
    pub protocol_version: i32,
    pub server_address: Seq<char>,
    pub server_port: u16,
    pub intent: i32,
    pub next_state: ConnectionState,
}

impl View for SHandShake {
    type V = SHandShakeView;

    open spec fn view(&self) -> SHandShakeView {
        SHandShakeView {
            protocol_version: self.protocol_version.0,
            server_address: self.server_address@,
            server_port: self.server_port,
            intent: self.intent.0,
            next_state: self.next_state,
        }
    }
}

/// A handshake at the front of `s`: the protocol version, the address as a
/// string of at most `MAX_ADDRESS_LEN` bytes, the port, and the intent, which
/// names the next state.
pub open spec fn parse_handshake(s: Seq<u8>) -> Result<(SHandShakeView, nat), DecodeError> {
    match parse_var_int_field(s) {
        Err(e) => Err(e),
        Ok((version, a)) => match parse_string(s.skip(a as int), MAX_ADDRESS_LEN as nat) {
            Err(e) => Err(e),
            Ok((address, b)) => match parse_u16(s.skip((a + b) as int)) {
                Err(e) => Err(e),
                Ok((port, c)) => match parse_var_int_field(s.skip((a + b + c) as int)) {
                    Err(e) => Err(e),
                    Ok((intent, d)) => Ok(
                        (
                            SHandShakeView {
                                protocol_version: version.0,
                                server_address: address,
                                server_port: port,
                                intent: intent.0,
                                next_state: ConnectionState::of_intent(intent),
                            },
                            a + b + c + d,
                        ),
                    ),
                },
            },
        },
    }
}

impl SHandShake {
    fn read_fields(bytebuf: &mut ReadBuf) -> (r: Result<SHandShake, DecodeError>)
        ensures
            match parse_handshake(old(bytebuf)@) {
                Ok((v, n)) => r is Ok && r->Ok_0@ == v && final(bytebuf)@ =~= old(bytebuf)@.skip(
                    n as int,
                ),
                Err(e) => r is Err && r->Err_0 == e,
            },
    {
        let ghost all = bytebuf@;
        let protocol_version: VarInt = bytebuf.try_get_var_int()?;
        let ghost a = (all.len() - bytebuf@.len()) as nat;
        let server_address: String = bytebuf.try_get_string_len(MAX_ADDRESS_LEN)?;
        let ghost b = (all.len() - a - bytebuf@.len()) as nat;
        assert(bytebuf@ =~= all.skip((a + b) as int));
        let server_port: u16 = bytebuf.try_get_u16()?;
        assert(bytebuf@ =~= all.skip((a + b + 2) as int));
        let intent: VarInt = bytebuf.try_get_var_int()?;
        Ok(
            SHandShake {
                protocol_version,
                server_address,
                server_port,
                intent,
                next_state: ConnectionState::from_intent(intent),
            },
        )
    }
}

impl Packet for SHandShake {
    open spec fn spec_packet_id() -> i32 {
        0x00
    }

    open spec fn spec_states() -> StateSet {
        StateSet::spec_only(ConnectionState::HandShake)
    }

    fn packet_id() -> (id: i32) {
        0x00
    }

    fn states() -> (set: StateSet) {
        StateSet::only(ConnectionState::HandShake)
    }
}

impl ServerPacket for SHandShake {
    open spec fn parse_len(s: Seq<u8>) -> Result<nat, DecodeError> {
        match parse_handshake(s) {
            Ok((_, n)) => Ok(n),
            Err(e) => Err(e),
        }
    }

    open spec fn spelled_by(&self, s: Seq<u8>) -> bool {
        parse_handshake(s) is Ok && self@ == parse_handshake(s)->Ok_0.0
    }

    fn read(bytebuf: &mut ReadBuf) -> (r: Result<Self, DecodeError>) {
        let mark: ReadBuf = bytebuf.checkpoint();
        match SHandShake::read_fields(bytebuf) {
            Ok(packet) => Ok(packet),
            Err(e) => {
                bytebuf.rewind(mark);
                Err(e)
            },
        }
    }
}

} // verus!
