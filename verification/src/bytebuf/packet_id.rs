//! How a packet type names itself.

use vstd::prelude::*;
use crate::ConnectionState;

verus! {

/// A set of connection states.
#[derive(Debug, PartialEq, Eq, Clone, Copy, Structural)]
pub struct StateSet {
    pub hand_shake: bool,
    pub status: bool,
    pub login: bool,
    pub transfer: bool,
    pub config: bool,
    pub play: bool,
}

impl StateSet {
    /// Whether `state` is in the set.
    pub open spec fn spec_contains(&self, state: ConnectionState) -> bool {
        match state {
            ConnectionState::HandShake => self.hand_shake,
            ConnectionState::Status => self.status,
            ConnectionState::Login => self.login,
            ConnectionState::Transfer => self.transfer,
            ConnectionState::Config => self.config,
            ConnectionState::Play => self.play,
        }
    }

    /// Whether `state` is in the set.
    #[verifier::when_used_as_spec(spec_contains)]
    pub fn contains(&self, state: ConnectionState) -> (b: bool)
        ensures
            b == self.spec_contains(state),
    {
        match state {
            ConnectionState::HandShake => self.hand_shake,
            ConnectionState::Status => self.status,
            ConnectionState::Login => self.login,
            ConnectionState::Transfer => self.transfer,
            ConnectionState::Config => self.config,
            ConnectionState::Play => self.play,
        }
    }

    /// The set without a state.
    pub fn empty() -> (s: StateSet)
        ensures
            forall|state: ConnectionState| !s.spec_contains(state),
    {
        StateSet {
            hand_shake: false,
            status: false,
            login: false,
            transfer: false,
            config: false,
            play: false,
        }
    }

    /// The set of one state.
    pub open spec fn spec_only(state: ConnectionState) -> StateSet {
        StateSet {
            hand_shake: state == ConnectionState::HandShake,
            status: state == ConnectionState::Status,
            login: state == ConnectionState::Login,
            transfer: state == ConnectionState::Transfer,
            config: state == ConnectionState::Config,
            play: state == ConnectionState::Play,
        }
    }

    /// The set of one state.
    #[verifier::when_used_as_spec(spec_only)]
    pub fn only(state: ConnectionState) -> (s: StateSet)
        ensures
            s == Self::spec_only(state),
    {
        StateSet {
            hand_shake: state == ConnectionState::HandShake,
            status: state == ConnectionState::Status,
            login: state == ConnectionState::Login,
            transfer: state == ConnectionState::Transfer,
            config: state == ConnectionState::Config,
            play: state == ConnectionState::Play,
        }
    }

    /// This set with `state` added.
    pub fn with(self, state: ConnectionState) -> (s: StateSet)
        ensures
            forall|other: ConnectionState|
                s.spec_contains(other) == (other == state || self.spec_contains(other)),
    {
        match state {
            ConnectionState::HandShake => StateSet { hand_shake: true, ..self },
            ConnectionState::Status => StateSet { status: true, ..self },
            ConnectionState::Login => StateSet { login: true, ..self },
            ConnectionState::Transfer => StateSet { transfer: true, ..self },
            ConnectionState::Config => StateSet { config: true, ..self },
            ConnectionState::Play => StateSet { play: true, ..self },
        }
    }
}

/// What every packet type says of itself: its numeric ID and the states in
/// which that ID means this packet. An ID alone names no packet: the same
/// number stands for different packets in different states.
pub trait Packet {
    /// The ID of this packet type.
    spec fn spec_packet_id() -> i32;

    /// The states in which the ID means this packet type.
    spec fn spec_states() -> StateSet;

    /// The ID of this packet type.
    fn packet_id() -> (id: i32)
        ensures
            id == Self::spec_packet_id(),
    ;

    /// The states in which the ID means this packet type.
    fn states() -> (set: StateSet)
        ensures
            set == Self::spec_states(),
    ;
}

} // verus!
