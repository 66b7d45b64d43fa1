//! Wire protocol of a Minecraft server: primitive codecs, byte cursors,
//! the packet contract, connection states and the frame codec.

use vstd::prelude::*;
use bytes::Bytes;
use crate::bytebuf::packet_id::Packet;
use crate::bytebuf::read::ReadBuf;
use crate::bytebuf::write::{put_outcome, WriteBuf};
use crate::codec::var_int::VarInt;
use crate::error::{DecodeError, EncodeError};

pub mod bytebuf;
pub mod client;
pub mod codec;
pub mod error;
pub mod packet_decoder;
pub mod position;
pub mod packet_encoder;
pub mod registry;
pub mod round_trip;
pub mod server;
pub mod specs;

verus! {

/// The protocol version that this layer speaks. It is not zero.
pub const CURRENT_MC_PROTOCOL: u16 = 769;

/// The largest length a frame may declare, in bytes.
pub const MAX_PACKET_SIZE: i32 = 2097152;

/// A bit set of a size that the packet fixes, carried as its bytes.
pub type FixedBitSet = bytes::Bytes;

/// The phase of a connection. It decides which packet a packet ID stands for.
#[derive(Debug, PartialEq, Eq, Clone, Copy, Structural)]
pub enum ConnectionState {
    HandShake,
    Status,
    Login,
    Transfer,
    Config,
    Play,
}

/// What moves a connection from one phase to the next.
#[derive(Debug, PartialEq, Eq, Clone, Copy, Structural)]
pub enum Transition {
    /// The handshake named this state as its intent.
    Intent(ConnectionState),
    /// A transferred client goes on to log in, with nothing in between.
    Proceed,
    /// The login succeeded.
    LoginSuccess,
    /// The client acknowledged the end of configuration.
    AcknowledgeFinish,
    /// The server sends the client to another server.
    ServerTransfer,
}

impl From<VarInt> for ConnectionState {
    /// The phase that a handshake's intent asks for: 1 is `Status`, 2 is
    /// `Login`, 3 is `Transfer`. Every other value is taken for `Status`.
    fn from(value: VarInt) -> (state: Self) {
        ConnectionState::from_intent(value)
    }
}

impl vstd::std_specs::convert::FromSpecImpl<VarInt> for ConnectionState {
    open spec fn obeys_from_spec() -> bool {
        true
    }

    open spec fn from_spec(value: VarInt) -> Self {
        ConnectionState::of_intent(value)
    }
}

impl ConnectionState {
    /// The phase that a handshake's intent asks for: 1 is `Status`, 2 is
    /// `Login`, 3 is `Transfer`. Every other value is taken for `Status`.
    pub open spec fn of_intent(value: VarInt) -> ConnectionState {
        if value.0 == 1 {
            ConnectionState::Status
        } else if value.0 == 2 {
            ConnectionState::Login
        } else if value.0 == 3 {
            ConnectionState::Transfer
        } else {
            ConnectionState::Status
        }
    }

    /// The phase that a handshake's intent asks for. A value that names no
    /// intent does not fail the handshake: it is taken for `Status`.
    #[verifier::when_used_as_spec(of_intent)]
    pub fn from_intent(value: VarInt) -> (state: ConnectionState)
        ensures
            state == ConnectionState::of_intent(value),
    {
        match value.0 {
            1 => ConnectionState::Status,
            2 => ConnectionState::Login,
            3 => ConnectionState::Transfer,
            _ => ConnectionState::Status,
        }
    }

    /// Whether `value` is one of the intents that a handshake may name.
    pub open spec fn spec_is_known_intent(value: VarInt) -> bool {
        1 <= value.0 <= 3
    }

    /// Whether `value` is one of the intents that a handshake may name. The
    /// others are taken for `Status`; a caller may want to report them.
    #[verifier::when_used_as_spec(spec_is_known_intent)]
    pub fn is_known_intent(value: VarInt) -> (known: bool)
        ensures
            known == Self::spec_is_known_intent(value),
    {
        1 <= value.0 && value.0 <= 3
    }

    /// The transition table. `None` where the phase has no such way out.
    /// A handshake leads to the state that it names, which is one of
    /// `Status`, `Login` and `Transfer`.
    pub open spec fn spec_next(self, transition: Transition) -> Option<ConnectionState> {
        match (self, transition) {
            (ConnectionState::HandShake, Transition::Intent(ConnectionState::Status)) => Some(
                ConnectionState::Status,
            ),
            (ConnectionState::HandShake, Transition::Intent(ConnectionState::Login)) => Some(
                ConnectionState::Login,
            ),
            (ConnectionState::HandShake, Transition::Intent(ConnectionState::Transfer)) => Some(
                ConnectionState::Transfer,
            ),
            (ConnectionState::Transfer, Transition::Proceed) => Some(ConnectionState::Login),
            (ConnectionState::Login, Transition::LoginSuccess) => Some(ConnectionState::Config),
            (ConnectionState::Config, Transition::AcknowledgeFinish) => Some(
                ConnectionState::Play,
            ),
            (ConnectionState::Play, Transition::ServerTransfer) => Some(ConnectionState::Login),
            _ => None,
        }
    }

    /// The phase that `transition` leads to from this one, or `None` where
    /// this phase has no such way out.
    #[verifier::when_used_as_spec(spec_next)]
    pub fn next(self, transition: Transition) -> (r: Option<ConnectionState>)
        ensures
            r == self.spec_next(transition),
    {
        match (self, transition) {
            (ConnectionState::HandShake, Transition::Intent(ConnectionState::Status)) => Some(
                ConnectionState::Status,
            ),
            (ConnectionState::HandShake, Transition::Intent(ConnectionState::Login)) => Some(
                ConnectionState::Login,
            ),
            (ConnectionState::HandShake, Transition::Intent(ConnectionState::Transfer)) => Some(
                ConnectionState::Transfer,
            ),
            (ConnectionState::Transfer, Transition::Proceed) => Some(ConnectionState::Login),
            (ConnectionState::Login, Transition::LoginSuccess) => Some(ConnectionState::Config),
            (ConnectionState::Config, Transition::AcknowledgeFinish) => Some(
                ConnectionState::Play,
            ),
            (ConnectionState::Play, Transition::ServerTransfer) => Some(ConnectionState::Login),
            _ => None,
        }
    }
}

/// The intents of a handshake: 1 asks for `Status`, 2 for `Login`, 3 for
/// `Transfer`, and every other value is taken for `Status`.
pub proof fn lemma_intent_table(value: VarInt)
    ensures
        value.0 == 1 ==> ConnectionState::of_intent(value) == ConnectionState::Status,
        value.0 == 2 ==> ConnectionState::of_intent(value) == ConnectionState::Login,
        value.0 == 3 ==> ConnectionState::of_intent(value) == ConnectionState::Transfer,
        !(1 <= value.0 <= 3) ==> ConnectionState::of_intent(value) == ConnectionState::Status,
        ConnectionState::HandShake.spec_next(
            Transition::Intent(ConnectionState::of_intent(value)),
        ) == Some(ConnectionState::of_intent(value)),
{
}

/// What the transition table rules out: no transition leads back to the
/// handshake, a handshake leads to `Status`, `Login` or `Transfer` only,
/// and `Status` is left by closing the connection alone.
pub proof fn lemma_transitions_go_forward(state: ConnectionState, transition: Transition)
    ensures
        state.spec_next(transition) != Some(ConnectionState::HandShake),
        state == ConnectionState::Status ==> state.spec_next(transition) is None,
        state == ConnectionState::HandShake && state.spec_next(transition) is Some ==> ({
            let next = state.spec_next(transition)->Some_0;
            next == ConnectionState::Status || next == ConnectionState::Login || next
                == ConnectionState::Transfer
        }),
{
}

/// The mixer channel that a sound plays on.
pub enum SoundCategory {
    Master,
    Music,
    Records,
    Weather,
    Blocks,
    Hostile,
    Neutral,
    Players,
    Ambient,
    Voice,
}

/// One packet as the frame codec hands it over: its ID and the bytes of its
/// fields, not looked at yet.
pub struct RawPacket {
    pub id: VarInt,
    pub bytebuf: Bytes,
}

/// A packet that the server sends.
pub trait ClientPacket: Packet {
    /// The bytes of the packet's fields, in the order the fields are declared.
    spec fn wire(&self) -> Seq<u8>;

    /// Appends the fields to `bytebuf`, all of them or, where they do not
    /// fit, none.
    fn write(&self, bytebuf: &mut WriteBuf) -> (r: Result<(), EncodeError>)
        requires
            old(bytebuf).wf(),
        ensures
            put_outcome(*old(bytebuf), *final(bytebuf), self.wire(), r),
    ;
}

/// A packet that the server receives.
pub trait ServerPacket: Packet + Sized {
    /// What reading the fields from the front of `s` comes to: the number of
    /// bytes they take, or the error of the first field that cannot be read.
    spec fn parse_len(s: Seq<u8>) -> Result<nat, DecodeError>;

    /// Whether the fields of this packet are the ones that the front of `s`
    /// spells.
    spec fn spelled_by(&self, s: Seq<u8>) -> bool;

    /// Reads the fields in the order they are declared. The first field
    /// that cannot be read ends the read, and the cursor stays where it was.
    fn read(bytebuf: &mut ReadBuf) -> (r: Result<Self, DecodeError>)
        ensures
            match Self::parse_len(old(bytebuf)@) {
                Ok(n) => r is Ok && r->Ok_0.spelled_by(old(bytebuf)@)
                    && final(bytebuf)@ == old(bytebuf)@.skip(n as int),
                Err(e) => r is Err && r->Err_0 == e && final(bytebuf)@ == old(bytebuf)@,
            },
    ;
}

/// What the server answers to a status request.
pub struct StatusResponse {
    /// The version on which the Server is running. Optional
    pub version: Option<Version>,
    /// Information about currently connected Players. Optional
    pub players: Option<Players>,
    /// The description displayed also called MOTD (Message of the day). Optional
    pub description: String,
    /// The icon displayed, Optional
    pub favicon: Option<String>,
    /// Players are forced to use Secure chat
    pub enforce_secure_chat: bool,
}

/// The version that a server runs.
pub struct Version {
    /// The current name of the Version (e.g. 1.21.4)
    pub name: String,
    /// The current Protocol Version (e.g. 767)
    pub protocol: u32,
}

/// The players of a server, as the status answer lists them.
pub struct Players {
    /// The maximum Player count the server allows
    pub max: u32,
    /// The current online player count
    pub online: u32,
    /// Information about currently connected players.
    /// Note player can disable listing here.
    pub sample: Vec<Sample>,
}

/// One player in the status answer.
pub struct Sample {
    /// Players Name
    pub name: String,
    /// Players UUID
    pub id: String,
}

/// A property of a game profile.
#[derive(Clone, Debug)]
pub struct Property {
    pub name: String,
    /// base 64
    pub value: String,
    /// base 64
    pub signature: Option<String>,
}

/// A data pack that both sides know.
pub struct KnownPack<'a> {
    pub namespace: &'a str,
    pub id: &'a str,
    pub version: &'a str,
}


/// One of the flags that say which parts of a position are relative. Each
/// has a bit of its own, and the bits are part of the wire format.
#[derive(Debug, PartialEq, Eq, Hash, Clone, Copy, Structural)]
pub enum PositionFlag {
    X,
    Y,
    Z,
    YRot,
    XRot,
    DeltaX,
    DeltaY,
    DeltaZ,
    RotateDelta,
}

proof fn lemma_or_keeps_other_bits(a: i32, m: i32, g: i32)
    by (bit_vector)
    requires
        m == 1 || m == 2 || m == 4 || m == 8 || m == 16 || m == 32 || m == 64 || m == 128 || m
            == 256,
        g == 1 || g == 2 || g == 4 || g == 8 || g == 16 || g == 32 || g == 64 || g == 128 || g
            == 256,
        0 <= a < 512,
    ensures
        (a | m) & g == (if m == g {
            g
        } else {
            a & g
        }),
        0 <= (a | m) < 512,
{
}

proof fn lemma_sum_of_bits(a: i32)
    by (bit_vector)
    requires
        0 <= a < 512,
    ensures
        a == (a & 1) + (a & 2) + (a & 4) + (a & 8) + (a & 16) + (a & 32) + (a & 64) + (a & 128)
            + (a & 256),
{
}

impl PositionFlag {
    /// The bit of this flag.
    pub open spec fn mask(self) -> i32 {
        match self {
            PositionFlag::X => 1,
            PositionFlag::Y => 2,
            PositionFlag::Z => 4,
            PositionFlag::YRot => 8,
            PositionFlag::XRot => 16,
            PositionFlag::DeltaX => 32,
            PositionFlag::DeltaY => 64,
            PositionFlag::DeltaZ => 128,
            PositionFlag::RotateDelta => 256,
        }
    }

    /// What `flag` adds to the bit field of `flags`: its bit when it occurs
    /// among them, however often, and nothing when it does not.
    pub open spec fn bit(flags: Seq<PositionFlag>, flag: PositionFlag) -> int {
        if flags.contains(flag) {
            flag.mask() as int
        } else {
            0
        }
    }

    /// The bit field of a list of flags: the bits of the flags that occur
    /// in it. Neither the order nor the number of occurrences matters.
    pub open spec fn bitfield(flags: Seq<PositionFlag>) -> int {
        Self::bit(flags, PositionFlag::X) + Self::bit(flags, PositionFlag::Y) + Self::bit(
            flags,
            PositionFlag::Z,
        ) + Self::bit(flags, PositionFlag::YRot) + Self::bit(flags, PositionFlag::XRot)
            + Self::bit(flags, PositionFlag::DeltaX) + Self::bit(flags, PositionFlag::DeltaY)
            + Self::bit(flags, PositionFlag::DeltaZ) + Self::bit(flags, PositionFlag::RotateDelta)
    }

    /// Whether the bits of `acc` are those of the flags in `flags`.
    spec fn tracks(acc: i32, flags: Seq<PositionFlag>) -> bool {
        &&& 0 <= acc < 512
        &&& forall|f: PositionFlag| acc & #[trigger] f.mask() == Self::bit(flags, f)
    }

    /// The bit of this flag.
    pub fn get_mask(&self) -> (m: i32)
        ensures
            m == self.mask(),
    {
        match self {
            PositionFlag::X => 1,
            PositionFlag::Y => 2,
            PositionFlag::Z => 4,
            PositionFlag::YRot => 8,
            PositionFlag::XRot => 16,
            PositionFlag::DeltaX => 32,
            PositionFlag::DeltaY => 64,
            PositionFlag::DeltaZ => 128,
            PositionFlag::RotateDelta => 256,
        }
    }

    /// Folds a list of flags into one integer, the bitwise OR of their bits.
    pub fn get_bitfield(flags: &[PositionFlag]) -> (field: i32)
        ensures
            field == Self::bitfield(flags@),
            0 <= field < 512,
    {
        let mut acc: i32 = 0;
        let mut i: usize = 0;
        proof {
            assert forall|f: PositionFlag| 0i32 & #[trigger] f.mask() == Self::bit(
                flags@.take(0),
                f,
            ) by {
                let m = f.mask();
                assert(0i32 & m == 0) by (bit_vector);
            }
        }
        while i < flags.len()
            invariant
                i <= flags.len(),
                Self::tracks(acc, flags@.take(i as int)),
            decreases flags.len() - i,
        {
            let m: i32 = flags[i].get_mask();
            proof {
                let before = flags@.take(i as int);
                let after = flags@.take(i + 1);
                let added = flags@[i as int];
                assert(after =~= before.push(added));
                assert forall|f: PositionFlag| (acc | m) & #[trigger] f.mask() == Self::bit(
                    after,
                    f,
                ) by {
                    lemma_or_keeps_other_bits(acc, m, f.mask());
                    if f == added {
                        assert(after[i as int] == f);
                    } else if before.contains(f) {
                        let j = choose|j: int| 0 <= j < before.len() && before[j] == f;
                        assert(after[j] == f);
                    } else {
                        assert(!after.contains(f));
                    }
                }
                lemma_or_keeps_other_bits(acc, m, 1);
            }
            acc = acc | m;
            i = i + 1;
        }
        proof {
            assert(flags@.take(i as int) =~= flags@);
            lemma_sum_of_bits(acc);
            assert(acc & PositionFlag::X.mask() == Self::bit(flags@, PositionFlag::X));
            assert(acc & PositionFlag::Y.mask() == Self::bit(flags@, PositionFlag::Y));
            assert(acc & PositionFlag::Z.mask() == Self::bit(flags@, PositionFlag::Z));
            assert(acc & PositionFlag::YRot.mask() == Self::bit(flags@, PositionFlag::YRot));
            assert(acc & PositionFlag::XRot.mask() == Self::bit(flags@, PositionFlag::XRot));
            assert(acc & PositionFlag::DeltaX.mask() == Self::bit(flags@, PositionFlag::DeltaX));
            assert(acc & PositionFlag::DeltaY.mask() == Self::bit(flags@, PositionFlag::DeltaY));
            assert(acc & PositionFlag::DeltaZ.mask() == Self::bit(flags@, PositionFlag::DeltaZ));
            assert(acc & PositionFlag::RotateDelta.mask() == Self::bit(
                flags@,
                PositionFlag::RotateDelta,
            ));
        }
        acc
    }

    /// The bit field of a list depends only on which flags occur in it: two
    /// lists with the same flags give the same field, whatever their order
    /// and however often a flag is repeated.
    pub proof fn lemma_bitfield_of_same_flags(a: Seq<PositionFlag>, b: Seq<PositionFlag>)
        requires
            forall|f: PositionFlag| a.contains(f) == b.contains(f),
        ensures
            Self::bitfield(a) == Self::bitfield(b),
    {
    }

    /// Swapping two flags changes nothing, and neither does repeating one.
    pub proof fn lemma_bitfield_swap_and_repeat(x: PositionFlag, y: PositionFlag)
        ensures
            Self::bitfield(seq![x, y]) == Self::bitfield(seq![y, x]),
            Self::bitfield(seq![x, x]) == Self::bitfield(seq![x]),
    {
        let xy = seq![x, y];
        let yx = seq![y, x];
        assert forall|f: PositionFlag| xy.contains(f) == yx.contains(f) by {
            if xy.contains(f) {
                let j = choose|j: int| 0 <= j < xy.len() && xy[j] == f;
                assert(yx[1 - j] == f);
            }
            if yx.contains(f) {
                let j = choose|j: int| 0 <= j < yx.len() && yx[j] == f;
                assert(xy[1 - j] == f);
            }
        }
        Self::lemma_bitfield_of_same_flags(xy, yx);
        let xx = seq![x, x];
        let one = seq![x];
        assert forall|f: PositionFlag| xx.contains(f) == one.contains(f) by {
            if xx.contains(f) {
                assert(one[0] == f);
            }
            if one.contains(f) {
                assert(xx[0] == f);
            }
        }
        Self::lemma_bitfield_of_same_flags(xx, one);
    }
}

} // verus!
