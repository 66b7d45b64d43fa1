//! The packet registry: which packet a packet ID stands for in a state, and
//! what a packet type says of itself.

use vstd::prelude::*;
use crate::bytebuf::packet_id::{Packet, StateSet};
use crate::bytebuf::read::ReadBuf;
use crate::error::DecodeError;
use crate::server::config::SAcknowledgeFinishConfig;
use crate::server::handshake::SHandShake;
use crate::server::login::SLoginAcknowledged;
use crate::server::status::{SStatusPingRequest, SStatusRequest};
use crate::specs::buffers::bytes_view;
use crate::{ConnectionState, RawPacket, ServerPacket, Transition};

verus! {

/// The packets that the server can receive, by name.
#[derive(Debug, Clone, Copy, PartialEq, Eq, Structural)]
pub enum PacketKind {
    HandShake,
    StatusRequest,
    StatusPingRequest,
    LoginAcknowledged,
    AcknowledgeFinishConfig,
}

/// A packet that the server received, read into its fields.
pub enum ServerBound {
    HandShake(SHandShake),
    StatusRequest(SStatusRequest),
    StatusPingRequest(SStatusPingRequest),
    LoginAcknowledged(SLoginAcknowledged),
    AcknowledgeFinishConfig(SAcknowledgeFinishConfig),
}

/// Whether packets of type `P` have the ID `id` and are valid in `state`.
pub open spec fn claims<P: Packet>(state: ConnectionState, id: i32) -> bool {
    P::spec_packet_id() == id && P::spec_states().spec_contains(state)
}

/// The registry as a table: the packet that claims `id` in `state`.
pub open spec fn spec_resolve(state: ConnectionState, id: i32) -> Option<PacketKind> {
    if claims::<SHandShake>(state, id) {
        Some(PacketKind::HandShake)
    } else if claims::<SStatusRequest>(state, id) {
        Some(PacketKind::StatusRequest)
    } else if claims::<SStatusPingRequest>(state, id) {
        Some(PacketKind::StatusPingRequest)
    } else if claims::<SLoginAcknowledged>(state, id) {
        Some(PacketKind::LoginAcknowledged)
    } else if claims::<SAcknowledgeFinishConfig>(state, id) {
        Some(PacketKind::AcknowledgeFinishConfig)
    } else {
        None
    }
}

/// Whether the type behind `kind` claims `id` in `state`.
pub open spec fn kind_claims(kind: PacketKind, state: ConnectionState, id: i32) -> bool {
    match kind {
        PacketKind::HandShake => claims::<SHandShake>(state, id),
        PacketKind::StatusRequest => claims::<SStatusRequest>(state, id),
        PacketKind::StatusPingRequest => claims::<SStatusPingRequest>(state, id),
        PacketKind::LoginAcknowledged => claims::<SLoginAcknowledged>(state, id),
        PacketKind::AcknowledgeFinishConfig => claims::<SAcknowledgeFinishConfig>(state, id),
    }
}

/// What reading a packet of `kind` from the front of `s` comes to.
pub open spec fn kind_parse_len(kind: PacketKind, s: Seq<u8>) -> Result<nat, DecodeError> {
    match kind {
        PacketKind::HandShake => SHandShake::parse_len(s),
        PacketKind::StatusRequest => SStatusRequest::parse_len(s),
        PacketKind::StatusPingRequest => SStatusPingRequest::parse_len(s),
        PacketKind::LoginAcknowledged => SLoginAcknowledged::parse_len(s),
        PacketKind::AcknowledgeFinishConfig => SAcknowledgeFinishConfig::parse_len(s),
    }
}

impl ServerBound {
    /// The name of the packet.
    pub open spec fn kind(&self) -> PacketKind {
        match self {
            ServerBound::HandShake(_) => PacketKind::HandShake,
            ServerBound::StatusRequest(_) => PacketKind::StatusRequest,
            ServerBound::StatusPingRequest(_) => PacketKind::StatusPingRequest,
            ServerBound::LoginAcknowledged(_) => PacketKind::LoginAcknowledged,
            ServerBound::AcknowledgeFinishConfig(_) => PacketKind::AcknowledgeFinishConfig,
        }
    }

    /// Whether the fields of the packet are the ones that the front of `s`
    /// spells.
    pub open spec fn spelled_by(&self, s: Seq<u8>) -> bool {
        match self {
            ServerBound::HandShake(p) => p.spelled_by(s),
            ServerBound::StatusRequest(p) => p.spelled_by(s),
            ServerBound::StatusPingRequest(p) => p.spelled_by(s),
            ServerBound::LoginAcknowledged(p) => p.spelled_by(s),
            ServerBound::AcknowledgeFinishConfig(p) => p.spelled_by(s),
        }
    }
}

impl ServerBound {
    /// The transition that the packet asks for, if it asks for one.
    pub open spec fn spec_transition(&self) -> Option<Transition> {
        match self {
            ServerBound::HandShake(p) => Some(Transition::Intent(p.next_state)),
            ServerBound::StatusRequest(_) => None,
            ServerBound::StatusPingRequest(_) => None,
            ServerBound::LoginAcknowledged(_) => Some(Transition::LoginSuccess),
            ServerBound::AcknowledgeFinishConfig(_) => Some(Transition::AcknowledgeFinish),
        }
    }

    /// The transition that the packet asks for, if it asks for one.
    #[verifier::when_used_as_spec(spec_transition)]
    pub fn transition(&self) -> (t: Option<Transition>)
        ensures
            t == self.spec_transition(),
    {
        match self {
            ServerBound::HandShake(p) => Some(Transition::Intent(p.next_state)),
            ServerBound::StatusRequest(_) => None,
            ServerBound::StatusPingRequest(_) => None,
            ServerBound::LoginAcknowledged(_) => Some(Transition::LoginSuccess),
            ServerBound::AcknowledgeFinishConfig(_) => Some(Transition::AcknowledgeFinish),
        }
    }
}

/// The state of a connection after a transition: where the transition
/// leads, and on from `Transfer` to `Login` at once. `None` where the state
/// has no such way out.
pub open spec fn spec_state_after(state: ConnectionState, transition: Option<Transition>) -> Option<
    ConnectionState,
> {
    match transition {
        None => Some(state),
        Some(t) => match state.spec_next(t) {
            Some(ConnectionState::Transfer) => ConnectionState::Transfer.spec_next(
                Transition::Proceed,
            ),
            reached => reached,
        },
    }
}

/// The state of a connection after a packet that asked for `transition`,
/// or for none. `None` says that the packet came out of order.
#[verifier::when_used_as_spec(spec_state_after)]
pub fn state_after(state: ConnectionState, transition: Option<Transition>) -> (r: Option<
    ConnectionState,
>)
    ensures
        r == spec_state_after(state, transition),
{
    match transition {
        None => Some(state),
        Some(t) => match state.next(t) {
            Some(ConnectionState::Transfer) => ConnectionState::Transfer.next(Transition::Proceed),
            reached => reached,
        },
    }
}

fn claims_it<P: Packet>(state: ConnectionState, id: i32) -> (b: bool)
    ensures
        b == claims::<P>(state, id),
{
    P::packet_id() == id && P::states().contains(state)
}

/// What a packet type says of itself: the states in which its ID is valid,
/// and the ID.
pub fn identify<P: Packet>(_packet: &P) -> (r: (StateSet, i32))
    ensures
        r.0 == P::spec_states(),
        r.1 == P::spec_packet_id(),
{
    (P::states(), P::packet_id())
}

/// Looks up the packet that `id` stands for in `state`. The same ID stands
/// for different packets in different states, and for none in some.
#[verifier::when_used_as_spec(spec_resolve)]
pub fn resolve(state: ConnectionState, id: i32) -> (kind: Option<PacketKind>)
    ensures
        kind == spec_resolve(state, id),
{
    if claims_it::<SHandShake>(state, id) {
        Some(PacketKind::HandShake)
    } else if claims_it::<SStatusRequest>(state, id) {
        Some(PacketKind::StatusRequest)
    } else if claims_it::<SStatusPingRequest>(state, id) {
        Some(PacketKind::StatusPingRequest)
    } else if claims_it::<SLoginAcknowledged>(state, id) {
        Some(PacketKind::LoginAcknowledged)
    } else if claims_it::<SAcknowledgeFinishConfig>(state, id) {
        Some(PacketKind::AcknowledgeFinishConfig)
    } else {
        None
    }
}

/// The registry is a table with one entry for a state and an ID at most:
/// what it resolves to is the one packet type that claims the two.
pub proof fn lemma_registry_is_exact(state: ConnectionState, id: i32, kind: PacketKind)
    ensures
        spec_resolve(state, id) == Some(kind) <==> kind_claims(kind, state, id),
{
}

/// Reads the fields of a packet of `kind`.
pub fn read_packet(kind: PacketKind, bytebuf: &mut ReadBuf) -> (r: Result<
    ServerBound,
    DecodeError,
>)
    ensures
        match kind_parse_len(kind, old(bytebuf)@) {
            Ok(n) => r is Ok && r->Ok_0.kind() == kind && r->Ok_0.spelled_by(old(bytebuf)@)
                && final(bytebuf)@ == old(bytebuf)@.skip(n as int),
            Err(e) => r is Err && r->Err_0 == e && final(bytebuf)@ == old(bytebuf)@,
        },
{
    match kind {
        PacketKind::HandShake => match SHandShake::read(bytebuf) {
            Ok(p) => Ok(ServerBound::HandShake(p)),
            Err(e) => Err(e),
        },
        PacketKind::StatusRequest => match SStatusRequest::read(bytebuf) {
            Ok(p) => Ok(ServerBound::StatusRequest(p)),
            Err(e) => Err(e),
        },
        PacketKind::StatusPingRequest => match SStatusPingRequest::read(bytebuf) {
            Ok(p) => Ok(ServerBound::StatusPingRequest(p)),
            Err(e) => Err(e),
        },
        PacketKind::LoginAcknowledged => match SLoginAcknowledged::read(bytebuf) {
            Ok(p) => Ok(ServerBound::LoginAcknowledged(p)),
            Err(e) => Err(e),
        },
        PacketKind::AcknowledgeFinishConfig => match SAcknowledgeFinishConfig::read(bytebuf) {
            Ok(p) => Ok(ServerBound::AcknowledgeFinishConfig(p)),
            Err(e) => Err(e),
        },
    }
}

/// What dispatching a packet with `id` and the field bytes `body` comes to
/// in `state`: the kind of the packet, or the error. An ID that stands for
/// no packet in the state is an invalid encoding.
pub open spec fn spec_dispatch(state: ConnectionState, id: i32, body: Seq<u8>) -> Result<
    PacketKind,
    DecodeError,
> {
    match spec_resolve(state, id) {
        None => Err(DecodeError::InvalidEncoding),
        Some(kind) => match kind_parse_len(kind, body) {
            Ok(_) => Ok(kind),
            Err(e) => Err(e),
        },
    }
}

/// Reads a packet that the frame codec cut off: the state and the ID pick
/// the packet type, and that type reads its fields.
pub fn dispatch(state: ConnectionState, packet: RawPacket) -> (r: Result<ServerBound, DecodeError>)
    ensures
        match spec_dispatch(state, packet.id.0, bytes_view(packet.bytebuf)) {
            Ok(kind) => r is Ok && r->Ok_0.kind() == kind && r->Ok_0.spelled_by(
                bytes_view(packet.bytebuf),
            ),
            Err(e) => r is Err && r->Err_0 == e,
        },
{
    match resolve(state, packet.id.0) {
        None => Err(DecodeError::InvalidEncoding),
        Some(kind) => {
            let mut cursor: ReadBuf = ReadBuf::new(packet.bytebuf);
            read_packet(kind, &mut cursor)
        },
    }
}

/// A packet that the registry takes in a state always has a way on: the
/// transition that it asks for is one that the state has.
pub proof fn lemma_dispatched_packets_fit(
    state: ConnectionState,
    id: i32,
    body: Seq<u8>,
    packet: ServerBound,
)
    requires
        spec_dispatch(state, id, body) == Ok::<PacketKind, DecodeError>(packet.kind()),
        packet.spelled_by(body),
    ensures
        spec_state_after(state, packet.spec_transition()) is Some,
{
}

/// Takes in a packet that the frame codec cut off: reads it as
/// [`dispatch`] does and says which state the connection is in after it.
pub fn accept(state: ConnectionState, packet: RawPacket) -> (r: Result<
    (ServerBound, ConnectionState),
    DecodeError,
>)
    ensures
        match spec_dispatch(state, packet.id.0, bytes_view(packet.bytebuf)) {
            Ok(kind) => r is Ok && r->Ok_0.0.kind() == kind && r->Ok_0.0.spelled_by(
                bytes_view(packet.bytebuf),
            ) && Some(r->Ok_0.1) == spec_state_after(state, r->Ok_0.0.spec_transition()),
            Err(e) => r is Err && r->Err_0 == e,
        },
{
    let ghost id = packet.id.0;
    let ghost body = bytes_view(packet.bytebuf);
    let read: ServerBound = dispatch(state, packet)?;
    proof {
        lemma_dispatched_packets_fit(state, id, body, read);
    }
    match state_after(state, read.transition()) {
        Some(next) => Ok((read, next)),
        None => Err(DecodeError::InvalidEncoding),
    }
}

} // verus!
