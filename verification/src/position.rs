//! Block positions.

use vstd::prelude::*;
use crate::bytebuf::write::{put_outcome, WriteBuf};
use crate::codec::fixed::{u64_bytes, u64_to_be};
use crate::error::EncodeError;

verus! {

/// The position of a block in a world.
#[derive(Debug, Clone, Copy, PartialEq, Eq, Structural)]
pub struct WorldPosition {
    pub x: i32,
    pub y: i32,
    pub z: i32,
}

impl WorldPosition {
    /// The 64 bits of a position on the wire: the low 26 bits of `x` on
    /// top, then the low 26 bits of `z`, then the low 12 bits of `y`.
    pub open spec fn packed(self) -> nat {
        ((self.x as int % 0x400_0000) * 0x40_0000_0000 + (self.z as int % 0x400_0000) * 0x1000 + (
        self.y as int % 0x1000)) as nat
    }

    /// The eight bytes of a position on the wire.
    pub open spec fn bytes(self) -> Seq<u8> {
        u64_bytes(self.packed())
    }

    /// The 64 bits of this position on the wire.
    pub fn pack(&self) -> (bits: u64)
        ensures
            bits == self.packed(),
    {
        let x: u64 = ((self.x as i64 + 0x8000_0000) % 0x400_0000) as u64;
        let z: u64 = ((self.z as i64 + 0x8000_0000) % 0x400_0000) as u64;
        let y: u64 = ((self.y as i64 + 0x8000_0000) % 0x1000) as u64;
        assert(x == self.x as int % 0x400_0000);
        assert(z == self.z as int % 0x400_0000);
        assert(y == self.y as int % 0x1000);
        x * 0x40_0000_0000 + z * 0x1000 + y
    }

    /// Writes the position as eight bytes.
    pub fn encode(&self, bytebuf: &mut WriteBuf) -> (r: Result<(), EncodeError>)
        requires
            old(bytebuf).wf(),
        ensures
            put_outcome(*old(bytebuf), *final(bytebuf), self.bytes(), r),
    {
        let bytes: Vec<u8> = u64_to_be(self.pack());
        bytebuf.put_slice(bytes.as_slice())
    }
}

} // verus!
