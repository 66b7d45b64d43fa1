//! The packet that takes a client into the game.

use vstd::prelude::*;
use crate::bytebuf::packet_id::{Packet, StateSet};
use crate::bytebuf::write::{bool_byte, string_bytes, written_or_stuck, WriteBuf};
use crate::codec::fixed::{u32_bytes, u64_bytes, unsigned_of_64};
use crate::codec::var_int::{
    lemma_var_int_round_trip, parse_var_int, unsigned_of, var_int_bytes, var_int_len, VarInt,
    VarIntParse,
};
use crate::error::EncodeError;
use crate::position::WorldPosition;
use crate::{ClientPacket, ConnectionState};

verus! {

/// The login packet: what a client is told when it enters the game. The
/// number of dimensions is not given but counted, see [`CLogin::new`].
pub struct CLogin<'a> {
    entity_id: i32,
    is_hardcore: bool,
    dimension_count: VarInt,
    dimension_names: &'a [&'a str],
    max_players: VarInt,
    view_distance: VarInt,
    simulated_distance: VarInt,
    reduced_debug_info: bool,
    enabled_respawn_screen: bool,
    limited_crafting: bool,
    dimension_type: VarInt,
    dimension_name: &'a str,
    hashed_seed: i64,
    game_mode: u8,
    previous_gamemode: i8,
    debug: bool,
    is_flat: bool,
    death_dimension_name: Option<(WorldPosition, i64)>,
    portal_cooldown: VarInt,
    enforce_secure_chat: bool,
}

/// What a login packet holds, field by field.
pub struct CLoginView {
    pub entity_id: i32,
    pub is_hardcore: bool,
    pub dimension_count: i32,
    pub dimension_names: Seq<Seq<char>>,
    pub max_players: i32,
    pub view_distance: i32,
    pub simulated_distance: i32,
    pub reduced_debug_info: bool,
    pub enabled_respawn_screen: bool,
    pub limited_crafting: bool,
    pub dimension_type: i32,
    pub dimension_name: Seq<char>,
    pub hashed_seed: i64,
    pub game_mode: u8,
    pub previous_gamemode: i8,
    pub debug: bool,
    pub is_flat: bool,
    pub death_dimension_name: Option<(WorldPosition, i64)>,
    pub portal_cooldown: i32,
    pub enforce_secure_chat: bool,
}

/// The strings of `names` on the wire, one after the other.
pub open spec fn strings_bytes(names: Seq<Seq<char>>) -> Seq<u8>
    decreases names.len(),
{
    if names.len() == 0 {
        Seq::<u8>::empty()
    } else {
        strings_bytes(names.drop_last()) + string_bytes(names.last())
    }
}

/// The byte of a signed byte.
pub open spec fn i8_byte(x: i8) -> u8 {
    (if x >= 0 {
        x as int
    } else {
        x + 0x100
    }) as u8
}

/// The place of death on the wire: a flag that says whether there is one,
/// then the position and the number that goes with it.
pub open spec fn death_bytes(death: Option<(WorldPosition, i64)>) -> Seq<u8> {
    match death {
        Some((position, number)) => seq![1u8] + position.bytes() + u64_bytes(
            unsigned_of_64(number),
        ),
        None => seq![0u8],
    }
}

/// The fields before the dimension names.
pub open spec fn head_bytes(v: CLoginView) -> Seq<u8> {
    u32_bytes(unsigned_of(v.entity_id)) + seq![bool_byte(v.is_hardcore)] + var_int_bytes(
        v.dimension_count,
    )
}

/// The fields `max_players`, `view_distance` and `simulated_distance`.
pub open spec fn limits_bytes(v: CLoginView) -> Seq<u8> {
    var_int_bytes(v.max_players) + var_int_bytes(v.view_distance) + var_int_bytes(
        v.simulated_distance,
    )
}

/// The fields `reduced_debug_info`, `enabled_respawn_screen` and
/// `limited_crafting`.
pub open spec fn options_bytes(v: CLoginView) -> Seq<u8> {
    seq![bool_byte(v.reduced_debug_info)] + seq![bool_byte(v.enabled_respawn_screen)] + seq![
        bool_byte(v.limited_crafting),
    ]
}

/// The fields `dimension_type` and `dimension_name`.
pub open spec fn dimension_bytes(v: CLoginView) -> Seq<u8> {
    var_int_bytes(v.dimension_type) + string_bytes(v.dimension_name)
}

/// The fields `hashed_seed`, `game_mode` and `previous_gamemode`.
pub open spec fn modes_bytes(v: CLoginView) -> Seq<u8> {
    u64_bytes(unsigned_of_64(v.hashed_seed)) + seq![v.game_mode] + seq![
        i8_byte(v.previous_gamemode),
    ]
}

/// The fields `debug`, `is_flat` and `death_dimension_name`.
pub open spec fn world_bytes(v: CLoginView) -> Seq<u8> {
    seq![bool_byte(v.debug)] + seq![bool_byte(v.is_flat)] + death_bytes(v.death_dimension_name)
}

/// The fields `portal_cooldown` and `enforce_secure_chat`.
pub open spec fn closing_bytes(v: CLoginView) -> Seq<u8> {
    var_int_bytes(v.portal_cooldown) + seq![bool_byte(v.enforce_secure_chat)]
}

/// The fields from `max_players` to `dimension_name`.
pub open spec fn middle_bytes(v: CLoginView) -> Seq<u8> {
    limits_bytes(v) + options_bytes(v) + dimension_bytes(v)
}

/// The fields from `hashed_seed` to the end.
pub open spec fn tail_bytes(v: CLoginView) -> Seq<u8> {
    modes_bytes(v) + world_bytes(v) + closing_bytes(v)
}

/// The fields of a login packet on the wire, in the order they are declared.
pub open spec fn login_bytes(v: CLoginView) -> Seq<u8> {
    head_bytes(v) + strings_bytes(v.dimension_names) + middle_bytes(v) + tail_bytes(v)
}

impl<'a> View for CLogin<'a> {
    type V = CLoginView;

    closed spec fn view(&self) -> CLoginView {
        CLoginView {
            entity_id: self.entity_id,
            is_hardcore: self.is_hardcore,
            dimension_count: self.dimension_count.0,
            dimension_names: self.dimension_names@.map_values(|s: &str| s@),
            max_players: self.max_players.0,
            view_distance: self.view_distance.0,
            simulated_distance: self.simulated_distance.0,
            reduced_debug_info: self.reduced_debug_info,
            enabled_respawn_screen: self.enabled_respawn_screen,
            limited_crafting: self.limited_crafting,
            dimension_type: self.dimension_type.0,
            dimension_name: self.dimension_name@,
            hashed_seed: self.hashed_seed,
            game_mode: self.game_mode,
            previous_gamemode: self.previous_gamemode,
            debug: self.debug,
            is_flat: self.is_flat,
            death_dimension_name: self.death_dimension_name,
            portal_cooldown: self.portal_cooldown.0,
            enforce_secure_chat: self.enforce_secure_chat,
        }
    }
}

impl<'a> CLogin<'a> {
    /// A login packet. The number of dimensions is taken from the list of
    /// their names, so that the two cannot disagree: it is the length of
    /// the list, cut to 32 bits.
    #[allow(clippy::too_many_arguments)]
    pub fn new(
        entity_id: i32,
        is_hardcore: bool,
        dimension_names: &'a [&'a str],
        max_players: VarInt,
        view_distance: VarInt,
        simulated_distance: VarInt,
        reduced_debug_info: bool,
        enabled_respawn_screen: bool,
        limited_crafting: bool,
        dimension_type: VarInt,
        dimension_name: &'a str,
        hashed_seed: i64,
        game_mode: u8,
        previous_gamemode: i8,
        debug: bool,
        is_flat: bool,
        death_dimension_name: Option<(WorldPosition, i64)>,
        portal_cooldown: VarInt,
        enforce_secure_chat: bool,
    ) -> (login: Self)
        ensures
            login@ == (CLoginView {
                entity_id,
                is_hardcore,
                dimension_count: dimension_names@.len() as i32,
                dimension_names: dimension_names@.map_values(|s: &str| s@),
                max_players: max_players.0,
                view_distance: view_distance.0,
                simulated_distance: simulated_distance.0,
                reduced_debug_info,
                enabled_respawn_screen,
                limited_crafting,
                dimension_type: dimension_type.0,
                dimension_name: dimension_name@,
                hashed_seed,
                game_mode,
                previous_gamemode,
                debug,
                is_flat,
                death_dimension_name,
                portal_cooldown: portal_cooldown.0,
                enforce_secure_chat,
            }),
            login@.dimension_names.len() <= i32::MAX ==> login@.dimension_count
                == login@.dimension_names.len(),
    {
        Self {
            entity_id,
            is_hardcore,
            dimension_count: VarInt(
                #[verifier::truncate]
                (dimension_names.len() as i32),
            ),
            dimension_names,
            max_players,
            view_distance,
            simulated_distance,
            reduced_debug_info,
            enabled_respawn_screen,
            limited_crafting,
            dimension_type,
            dimension_name,
            hashed_seed,
            game_mode,
            previous_gamemode,
            debug,
            is_flat,
            death_dimension_name,
            portal_cooldown,
            enforce_secure_chat,
        }
    }
}

/// The strings of a list take at least as many bytes as the strings of its
/// first `k` entries.
proof fn lemma_strings_prefix_len(names: Seq<Seq<char>>, k: int)
    requires
        0 <= k <= names.len(),
    ensures
        strings_bytes(names.take(k)).len() <= strings_bytes(names).len(),
    decreases names.len(),
{
    if k == names.len() {
        assert(names.take(k) =~= names);
    } else {
        lemma_strings_prefix_len(names.drop_last(), k);
        assert(names.drop_last().take(k) =~= names.take(k));
    }
}

/// The strings of the first `k + 1` entries are those of the first `k` and
/// then entry `k`.
proof fn lemma_strings_step(names: Seq<Seq<char>>, k: int)
    requires
        0 <= k < names.len(),
    ensures
        strings_bytes(names.take(k + 1)) == strings_bytes(names.take(k)) + string_bytes(names[k]),
{
    assert(names.take(k + 1).drop_last() =~= names.take(k));
}

impl<'a> CLogin<'a> {
    /// Whether the number of dimensions is the length of the list of their
    /// names. `new` makes it so for every list of up to `i32::MAX` names.
    pub open spec fn wf(&self) -> bool {
        self@.dimension_count == self@.dimension_names.len()
    }

    fn write_head(&self, bytebuf: &mut WriteBuf) -> (r: Result<(), EncodeError>)
        requires
            old(bytebuf).wf(),
        ensures
            written_or_stuck(*old(bytebuf), *final(bytebuf), head_bytes(self@), r),
    {
        bytebuf.put_i32(self.entity_id)?;
        bytebuf.put_bool(self.is_hardcore)?;
        bytebuf.put_var_int(&self.dimension_count)?;
        Ok(())
    }

    fn write_names(&self, bytebuf: &mut WriteBuf) -> (r: Result<(), EncodeError>)
        requires
            old(bytebuf).wf(),
        ensures
            written_or_stuck(
                *old(bytebuf),
                *final(bytebuf),
                strings_bytes(self@.dimension_names),
                r,
            ),
    {
        let ghost names = self@.dimension_names;
        let ghost before = old(bytebuf)@;
        let ghost cap = old(bytebuf).cap();
        let mut i: usize = 0;
        while i < self.dimension_names.len()
            invariant
                i <= self.dimension_names.len(),
                names == self@.dimension_names,
                before == old(bytebuf)@,
                cap == old(bytebuf).cap(),
                names.len() == self.dimension_names@.len(),
                forall|j: int| 0 <= j < names.len() ==> names[j] == self.dimension_names@[j]@,
                bytebuf.wf(),
                bytebuf.cap() == cap,
                bytebuf@ =~= before + strings_bytes(names.take(i as int)),
            decreases self.dimension_names.len() - i,
        {
            proof {
                lemma_strings_step(names, i as int);
                lemma_strings_prefix_len(names, i + 1);
            }
            assert(names[i as int] == self.dimension_names@[i as int]@);
            let r: Result<(), EncodeError> = bytebuf.put_string(self.dimension_names[i]);
            if r.is_err() {
                assert(bytebuf@.take(before.len() as int) =~= before);
                return Err(EncodeError::CapacityExceeded);
            }
            i = i + 1;
        }
        proof {
            assert(names.take(i as int) =~= names);
        }
        Ok(())
    }

    fn write_limits(&self, bytebuf: &mut WriteBuf) -> (r: Result<(), EncodeError>)
        requires
            old(bytebuf).wf(),
        ensures
            written_or_stuck(*old(bytebuf), *final(bytebuf), limits_bytes(self@), r),
    {
        bytebuf.put_var_int(&self.max_players)?;
        bytebuf.put_var_int(&self.view_distance)?;
        bytebuf.put_var_int(&self.simulated_distance)?;
        Ok(())
    }

    fn write_options(&self, bytebuf: &mut WriteBuf) -> (r: Result<(), EncodeError>)
        requires
            old(bytebuf).wf(),
        ensures
            written_or_stuck(*old(bytebuf), *final(bytebuf), options_bytes(self@), r),
    {
        bytebuf.put_bool(self.reduced_debug_info)?;
        bytebuf.put_bool(self.enabled_respawn_screen)?;
        bytebuf.put_bool(self.limited_crafting)?;
        Ok(())
    }

    fn write_dimension(&self, bytebuf: &mut WriteBuf) -> (r: Result<(), EncodeError>)
        requires
            old(bytebuf).wf(),
        ensures
            written_or_stuck(*old(bytebuf), *final(bytebuf), dimension_bytes(self@), r),
    {
        bytebuf.put_var_int(&self.dimension_type)?;
        bytebuf.put_string(self.dimension_name)?;
        Ok(())
    }

    fn write_middle(&self, bytebuf: &mut WriteBuf) -> (r: Result<(), EncodeError>)
        requires
            old(bytebuf).wf(),
        ensures
            written_or_stuck(*old(bytebuf), *final(bytebuf), middle_bytes(self@), r),
    {
        self.write_limits(bytebuf)?;
        self.write_options(bytebuf)?;
        self.write_dimension(bytebuf)?;
        Ok(())
    }

    fn write_modes(&self, bytebuf: &mut WriteBuf) -> (r: Result<(), EncodeError>)
        requires
            old(bytebuf).wf(),
        ensures
            written_or_stuck(*old(bytebuf), *final(bytebuf), modes_bytes(self@), r),
    {
        bytebuf.put_i64(self.hashed_seed)?;
        bytebuf.put_u8(self.game_mode)?;
        bytebuf.put_i8(self.previous_gamemode)?;
        Ok(())
    }

    fn write_death(&self, bytebuf: &mut WriteBuf) -> (r: Result<(), EncodeError>)
        requires
            old(bytebuf).wf(),
        ensures
            written_or_stuck(
                *old(bytebuf),
                *final(bytebuf),
                death_bytes(self@.death_dimension_name),
                r,
            ),
    {
        match self.death_dimension_name {
            Some((position, number)) => {
                bytebuf.put_bool(true)?;
                position.encode(bytebuf)?;
                bytebuf.put_i64(number)?;
            },
            None => {
                bytebuf.put_bool(false)?;
            },
        }
        Ok(())
    }

    fn write_world(&self, bytebuf: &mut WriteBuf) -> (r: Result<(), EncodeError>)
        requires
            old(bytebuf).wf(),
        ensures
            written_or_stuck(*old(bytebuf), *final(bytebuf), world_bytes(self@), r),
    {
        bytebuf.put_bool(self.debug)?;
        bytebuf.put_bool(self.is_flat)?;
        self.write_death(bytebuf)?;
        Ok(())
    }

    fn write_closing(&self, bytebuf: &mut WriteBuf) -> (r: Result<(), EncodeError>)
        requires
            old(bytebuf).wf(),
        ensures
            written_or_stuck(*old(bytebuf), *final(bytebuf), closing_bytes(self@), r),
    {
        bytebuf.put_var_int(&self.portal_cooldown)?;
        bytebuf.put_bool(self.enforce_secure_chat)?;
        Ok(())
    }

    fn write_tail(&self, bytebuf: &mut WriteBuf) -> (r: Result<(), EncodeError>)
        requires
            old(bytebuf).wf(),
        ensures
            written_or_stuck(*old(bytebuf), *final(bytebuf), tail_bytes(self@), r),
    {
        self.write_modes(bytebuf)?;
        self.write_world(bytebuf)?;
        self.write_closing(bytebuf)?;
        Ok(())
    }

    fn write_fields(&self, bytebuf: &mut WriteBuf) -> (r: Result<(), EncodeError>)
        requires
            old(bytebuf).wf(),
        ensures
            written_or_stuck(*old(bytebuf), *final(bytebuf), login_bytes(self@), r),
    {
        self.write_head(bytebuf)?;
        self.write_names(bytebuf)?;
        self.write_middle(bytebuf)?;
        self.write_tail(bytebuf)?;
        Ok(())
    }
}

impl<'a> Packet for CLogin<'a> {
    open spec fn spec_packet_id() -> i32 {
        0x2B
    }

    open spec fn spec_states() -> StateSet {
        StateSet::spec_only(ConnectionState::Play)
    }

    fn packet_id() -> (id: i32) {
        0x2B
    }

    fn states() -> (set: StateSet) {
        StateSet::only(ConnectionState::Play)
    }
}

impl<'a> ClientPacket for CLogin<'a> {
    open spec fn wire(&self) -> Seq<u8> {
        login_bytes(self@)
    }

    fn write(&self, bytebuf: &mut WriteBuf) -> (r: Result<(), EncodeError>) {
        let start: usize = bytebuf.len();
        let written: Result<(), EncodeError> = self.write_fields(bytebuf);
        bytebuf.settle(start, written)
    }
}

/// The count on the wire. The `VarInt` that follows the first five bytes of
/// a well-formed login packet is the number of its dimension names.
pub proof fn lemma_count_on_wire(login: CLogin)
    requires
        login.wf(),
    ensures
        parse_var_int(login.wire().skip(5)) == (VarIntParse::Value {
            value: login@.dimension_names.len() as i32,
            len: var_int_len(login@.dimension_names.len() as i32),
        }),
{
    let v = login@;
    let rest = strings_bytes(v.dimension_names) + middle_bytes(v) + tail_bytes(v);
    lemma_var_int_round_trip(v.dimension_count, rest);
    assert(login.wire().skip(5) =~= var_int_bytes(v.dimension_count) + rest);
}

} // verus!
