//! Variable-length 32-bit integers: seven data bits a byte, least significant
//! group first, the top bit of a byte set when another byte follows.

use vstd::prelude::*;
use crate::bytebuf::read::{get_outcome, parse_var_int_field, ReadBuf};
use crate::bytebuf::write::{put_outcome, WriteBuf};
use crate::error::{DecodeError, EncodeError};

verus! {

pub type VarIntType = i32;

/// A 32-bit signed integer that travels as one to five bytes.
#[derive(Debug, Clone, Copy, PartialEq, Eq, Structural)]
pub struct VarInt(pub VarIntType);

/// The 32 bits of `v` read as an unsigned number.
pub open spec fn unsigned_of(v: i32) -> nat {
    if v >= 0 {
        v as nat
    } else {
        (v + 0x1_0000_0000) as nat
    }
}

/// The signed number whose 32 bits are the low 32 bits of `u`.
pub open spec fn signed_of(u: nat) -> i32 {
    let low = u % 0x1_0000_0000;
    if low < 0x8000_0000 {
        low as i32
    } else {
        (low - 0x1_0000_0000) as i32
    }
}

/// The groups of seven bits of `u`, least significant first; every byte but
/// the last carries the continuation bit.
pub open spec fn groups(u: nat) -> Seq<u8>
    decreases u,
{
    if u < 0x80 {
        seq![u as u8]
    } else {
        seq![(u % 0x80 + 0x80) as u8] + groups(u / 0x80)
    }
}

/// The bytes that `v` is written as.
pub open spec fn var_int_bytes(v: i32) -> Seq<u8> {
    groups(unsigned_of(v))
}

/// The least number of seven-bit groups that hold every set bit of `v`.
pub open spec fn var_int_len(v: i32) -> nat {
    let u = unsigned_of(v);
    if u < 0x80 {
        1
    } else if u < 0x4000 {
        2
    } else if u < 0x20_0000 {
        3
    } else if u < 0x1000_0000 {
        4
    } else {
        5
    }
}

/// The seven data bits of byte `i` of `s`, or zero past its end.
pub open spec fn septet(s: Seq<u8>, i: int) -> nat {
    if 0 <= i < s.len() {
        (s[i] % 0x80) as nat
    } else {
        0
    }
}

/// The number that the first five bytes of `s` carry in their data bits.
pub open spec fn payload(s: Seq<u8>) -> nat {
    septet(s, 0) + septet(s, 1) * 0x80 + septet(s, 2) * 0x4000 + septet(s, 3) * 0x20_0000
        + septet(s, 4) * 0x1000_0000
}

/// Whether byte `i` of `s` exists and has the continuation bit clear.
pub open spec fn stops_at(s: Seq<u8>, i: int) -> bool {
    0 <= i < s.len() && s[i] < 0x80
}

/// The index of the first of the first five bytes of `s` that ends a value,
/// or -1 when none of them does.
pub open spec fn stop_index(s: Seq<u8>) -> int {
    if stops_at(s, 0) {
        0
    } else if stops_at(s, 1) {
        1
    } else if stops_at(s, 2) {
        2
    } else if stops_at(s, 3) {
        3
    } else if stops_at(s, 4) {
        4
    } else {
        -1
    }
}

/// What reading a value from the front of a byte sequence comes to.
pub enum VarIntParse {
    /// `len` bytes were read and carry `value`.
    Value { value: i32, len: nat },
    /// Every byte present asks for another and fewer than six are present.
    Incomplete,
    /// Five bytes asked for another and a sixth is present.
    TooLong,
}

/// Reads one value from the front of `s`: bytes are taken until one has the
/// continuation bit clear. A sixth byte is never part of a value.
pub open spec fn parse_var_int(s: Seq<u8>) -> VarIntParse {
    let k = stop_index(s);
    if k >= 0 {
        VarIntParse::Value { value: signed_of(payload(s.take(k + 1))), len: (k + 1) as nat }
    } else if s.len() <= 5 {
        VarIntParse::Incomplete
    } else {
        VarIntParse::TooLong
    }
}


/// What a reader hands back for each outcome of [`parse_var_int`].
pub open spec fn decoded(p: VarIntParse) -> Result<(VarInt, usize), DecodeError> {
    match p {
        VarIntParse::Value { value, len } => Ok((VarInt(value), len as usize)),
        VarIntParse::Incomplete => Err(DecodeError::UnexpectedEnd),
        VarIntParse::TooLong => Err(DecodeError::VarIntTooLong),
    }
}

/// The weight of the data bits of byte `i`: 128 to the power `i`.
pub open spec fn weight(i: int) -> nat {
    if i <= 0 {
        1
    } else if i == 1 {
        0x80
    } else if i == 2 {
        0x4000
    } else if i == 3 {
        0x20_0000
    } else {
        0x1000_0000
    }
}

pub(crate) fn to_unsigned(v: i32) -> (u: u32)
    ensures
        u == unsigned_of(v),
{
    if v >= 0 {
        v as u32
    } else {
        (v as i64 + 0x1_0000_0000) as u32
    }
}

pub(crate) fn to_signed(u: u64) -> (v: i32)
    ensures
        v == signed_of(u as nat),
{
    let low: u64 = u % 0x1_0000_0000;
    if low < 0x8000_0000 {
        low as i32
    } else {
        (low as i64 - 0x1_0000_0000) as i32
    }
}

proof fn lemma_payload_step(s: Seq<u8>, i: int)
    requires
        0 <= i < 5,
        i < s.len(),
    ensures
        payload(s.take(i + 1)) == payload(s.take(i)) + septet(s, i) * weight(i),
{
    let a = s.take(i);
    let b = s.take(i + 1);
    assert forall|j: int| 0 <= j < 5 implies septet(b, j) == if j == i {
        septet(s, i)
    } else {
        septet(a, j)
    } by {}
}

impl VarInt {
    /// The largest number of bytes a value is written as.
    pub const MAX_SIZE: usize = 5;

    /// The number of bytes this value is written as.
    pub fn written_size(self) -> (n: usize)
        ensures
            n == var_int_bytes(self.0).len(),
            n == var_int_len(self.0),
            1 <= n <= 5,
    {
        proof {
            lemma_groups_shape(unsigned_of(self.0));
        }
        let u: u32 = to_unsigned(self.0);
        if u < 0x80 {
            1
        } else if u < 0x4000 {
            2
        } else if u < 0x20_0000 {
            3
        } else if u < 0x1000_0000 {
            4
        } else {
            5
        }
    }

    /// The bytes of this value, in the order they are sent.
    pub fn to_bytes(self) -> (out: Vec<u8>)
        ensures
            out@ == var_int_bytes(self.0),
            1 <= out.len() <= 5,
    {
        proof {
            lemma_groups_shape(unsigned_of(self.0));
        }
        let mut out: Vec<u8> = Vec::new();
        let mut u: u32 = to_unsigned(self.0);
        while u >= 0x80
            invariant
                out@ + groups(u as nat) == var_int_bytes(self.0),
            decreases u,
        {
            proof {
                assert(groups(u as nat) == seq![(u % 0x80 + 0x80) as u8] + groups(
                    (u / 0x80) as nat,
                ));
                assert(out@.push((u % 0x80 + 0x80) as u8) + groups((u / 0x80) as nat) == out@
                    + groups(u as nat));
            }
            out.push((u % 0x80 + 0x80) as u8);
            u = u / 0x80;
        }
        proof {
            assert(groups(u as nat) == seq![u as u8]);
            assert(out@.push(u as u8) == out@ + groups(u as nat));
        }
        out.push(u as u8);
        out
    }

    /// Writes this value to `write` in its one to five bytes.
    pub fn encode(&self, write: &mut WriteBuf) -> (r: Result<(), EncodeError>)
        requires
            old(write).wf(),
        ensures
            put_outcome(*old(write), *final(write), var_int_bytes(self.0), r),
    {
        write.put_var_int(self)
    }

    /// Reads one value from `read`.
    pub fn decode(read: &mut ReadBuf) -> (r: Result<VarInt, DecodeError>)
        ensures
            get_outcome(*old(read), *final(read), parse_var_int_field(old(read)@), r),
    {
        read.try_get_var_int()
    }

    /// Reads one value from the front of `bytes` and says how many bytes it took.
    ///
    /// Bytes are read until one has the continuation bit clear. When five
    /// bytes all ask for another, a sixth byte makes the value too long;
    /// without one the input has ended inside the value.
    pub fn decode_slice(bytes: &[u8]) -> (r: Result<(VarInt, usize), DecodeError>)
        ensures
            r == decoded(parse_var_int(bytes@)),
    {
        let mut acc: u64 = 0;
        let mut scale: u64 = 1;
        let mut i: usize = 0;
        while i < 5
            invariant
                i <= 5,
                i <= bytes.len(),
                forall|j: int| 0 <= j < i ==> bytes@[j] >= 0x80,
                acc == payload(bytes@.take(i as int)),
                i < 5 ==> acc < weight(i as int),
                scale == weight(i as int),
            decreases 5 - i,
        {
            if i >= bytes.len() {
                return Err(DecodeError::UnexpectedEnd);
            }
            let b: u8 = bytes[i];
            let digit: u64 = (b % 0x80) as u64;
            proof {
                lemma_payload_step(bytes@, i as int);
                assert(digit * scale == digit * weight(i as int));
                assert(digit * weight(i as int) <= 0x7f * weight(i as int)) by (nonlinear_arith)
                    requires
                        digit <= 0x7f,
                ;
            }
            acc = acc + digit * scale;
            if b < 0x80 {
                assert(stop_index(bytes@) == i);
                return Ok((VarInt(to_signed(acc)), i + 1));
            }
            if i < 4 {
                scale = scale * 0x80;
            }
            i = i + 1;
        }
        assert(stop_index(bytes@) == -1);
        if bytes.len() > 5 {
            Err(DecodeError::VarIntTooLong)
        } else {
            Err(DecodeError::UnexpectedEnd)
        }
    }
}

/// The shape of the groups of a 32-bit number: as many bytes as the number
/// needs, all but the last with the continuation bit, and the number can be
/// read back from their data bits.
pub proof fn lemma_groups_shape(u: nat)
    requires
        u < 0x1_0000_0000,
    ensures
        groups(u).len() == if u < 0x80 {
            1nat
        } else if u < 0x4000 {
            2nat
        } else if u < 0x20_0000 {
            3nat
        } else if u < 0x1000_0000 {
            4nat
        } else {
            5nat
        },
        forall|j: int| 0 <= j < groups(u).len() - 1 ==> groups(u)[j] >= 0x80,
        groups(u).last() < 0x80,
        payload(groups(u)) == u,
{
    reveal_with_fuel(groups, 6);
    let g = groups(u);
    if u < 0x80 {
    } else if u < 0x4000 {
        assert(g =~= seq![(u % 0x80 + 0x80) as u8, (u / 0x80) as u8]);
    } else if u < 0x20_0000 {
        let u1 = u / 0x80;
        assert(g =~= seq![(u % 0x80 + 0x80) as u8, (u1 % 0x80 + 0x80) as u8, (u1 / 0x80) as u8]);
    } else if u < 0x1000_0000 {
        let u1 = u / 0x80;
        let u2 = u1 / 0x80;
        assert(g =~= seq![
            (u % 0x80 + 0x80) as u8,
            (u1 % 0x80 + 0x80) as u8,
            (u2 % 0x80 + 0x80) as u8,
            (u2 / 0x80) as u8,
        ]);
    } else {
        let u1 = u / 0x80;
        let u2 = u1 / 0x80;
        let u3 = u2 / 0x80;
        assert(g =~= seq![
            (u % 0x80 + 0x80) as u8,
            (u1 % 0x80 + 0x80) as u8,
            (u2 % 0x80 + 0x80) as u8,
            (u3 % 0x80 + 0x80) as u8,
            (u3 / 0x80) as u8,
        ]);
    }
}

/// Reading what was written gives the value back, whatever follows it, and
/// takes as many bytes as the value needs: one for each group of seven bits
/// up to its highest set bit.
pub proof fn lemma_var_int_round_trip(v: i32, rest: Seq<u8>)
    ensures
        parse_var_int(var_int_bytes(v) + rest) == (VarIntParse::Value {
            value: v,
            len: var_int_len(v),
        }),
        var_int_bytes(v).len() == var_int_len(v),
{
    let u = unsigned_of(v);
    let g = groups(u);
    let s = g + rest;
    lemma_groups_shape(u);
    let n = g.len() as int;
    assert forall|j: int| 0 <= j < n implies s[j] == g[j] by {}
    assert(g[n - 1] == g.last());
    assert(stop_index(s) == n - 1);
    assert(s.take(n) =~= g);
}

/// No byte sequence that reads as `v` is shorter than what `v` is written
/// as.
pub proof fn lemma_var_int_minimal(s: Seq<u8>)
    ensures
        parse_var_int(s) matches VarIntParse::Value { value, len } ==> len >= var_int_len(value),
{
    let k = stop_index(s);
    if k >= 0 {
        let t = s.take(k + 1);
        assert forall|j: int| 0 <= j < 5 implies septet(t, j) <= 0x7f && (j > k ==> septet(t, j)
            == 0) by {}
        let p = payload(t);
        if k < 4 {
            assert(p < 0x1000_0000);
            assert(unsigned_of(signed_of(p)) == p);
        }
    }
}

/// A value that was written and cut short reads as incomplete.
pub proof fn lemma_var_int_cut_short(v: i32, k: int)
    requires
        0 <= k < var_int_len(v),
    ensures
        parse_var_int(var_int_bytes(v).take(k)) == VarIntParse::Incomplete,
{
    let g = var_int_bytes(v);
    lemma_groups_shape(unsigned_of(v));
    let t = g.take(k);
    assert forall|j: int| 0 <= j < t.len() implies t[j] >= 0x80 by {
        assert(t[j] == g[j]);
    }
}

/// Five bytes that all ask for another make the value too long as soon as
/// a sixth byte is there, whatever that byte is.
pub proof fn lemma_var_int_overlong(s: Seq<u8>)
    requires
        s.len() >= 6,
        forall|i: int| 0 <= i < 5 ==> s[i] >= 0x80,
    ensures
        parse_var_int(s) == VarIntParse::TooLong,
{
}

} // verus!
