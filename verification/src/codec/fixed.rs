//! Fixed-width integers, most significant byte first.

use vstd::prelude::*;

verus! {

/// The 64 bits of `v` read as an unsigned number.
pub open spec fn unsigned_of_64(v: i64) -> nat {
    if v >= 0 {
        v as nat
    } else {
        (v + 0x1_0000_0000_0000_0000) as nat
    }
}

/// The signed number whose 64 bits are those of `u`.
pub open spec fn signed_of_64(u: nat) -> i64 {
    if u < 0x8000_0000_0000_0000 {
        u as i64
    } else {
        (u - 0x1_0000_0000_0000_0000) as i64
    }
}

/// The two bytes of `x`, high byte first.
pub open spec fn u16_bytes(x: nat) -> Seq<u8> {
    seq![(x / 0x100 % 0x100) as u8, (x % 0x100) as u8]
}

/// The four bytes of `x`, highest byte first.
pub open spec fn u32_bytes(x: nat) -> Seq<u8> {
    seq![
        (x / 0x100_0000 % 0x100) as u8,
        (x / 0x1_0000 % 0x100) as u8,
        (x / 0x100 % 0x100) as u8,
        (x % 0x100) as u8,
    ]
}

/// The eight bytes of `x`, highest byte first.
pub open spec fn u64_bytes(x: nat) -> Seq<u8> {
    seq![
        (x / 0x100_0000_0000_0000 % 0x100) as u8,
        (x / 0x1_0000_0000_0000 % 0x100) as u8,
        (x / 0x100_0000_0000 % 0x100) as u8,
        (x / 0x1_0000_0000 % 0x100) as u8,
        (x / 0x100_0000 % 0x100) as u8,
        (x / 0x1_0000 % 0x100) as u8,
        (x / 0x100 % 0x100) as u8,
        (x % 0x100) as u8,
    ]
}

/// The number that the first two bytes of `s` spell, high byte first.
pub open spec fn be16(s: Seq<u8>) -> nat {
    (s[0] * 0x100 + s[1]) as nat
}

/// The number that the first four bytes of `s` spell, highest byte first.
pub open spec fn be32(s: Seq<u8>) -> nat {
    (s[0] * 0x100_0000 + s[1] * 0x1_0000 + s[2] * 0x100 + s[3]) as nat
}

/// The number that the first eight bytes of `s` spell, highest byte first.
pub open spec fn be64(s: Seq<u8>) -> nat {
    (s[0] * 0x100_0000_0000_0000 + s[1] * 0x1_0000_0000_0000 + s[2] * 0x100_0000_0000 + s[3]
        * 0x1_0000_0000 + s[4] * 0x100_0000 + s[5] * 0x1_0000 + s[6] * 0x100 + s[7]) as nat
}

/// The bytes of `x`, high byte first.
pub fn u16_to_be(x: u16) -> (out: Vec<u8>)
    ensures
        out@ == u16_bytes(x as nat),
{
    let mut out: Vec<u8> = Vec::new();
    out.push((x / 0x100 % 0x100) as u8);
    out.push((x % 0x100) as u8);
    assert(out@ =~= u16_bytes(x as nat));
    out
}

/// The bytes of `x`, highest byte first.
pub fn u32_to_be(x: u32) -> (out: Vec<u8>)
    ensures
        out@ == u32_bytes(x as nat),
{
    let mut out: Vec<u8> = Vec::new();
    out.push((x / 0x100_0000 % 0x100) as u8);
    out.push((x / 0x1_0000 % 0x100) as u8);
    out.push((x / 0x100 % 0x100) as u8);
    out.push((x % 0x100) as u8);
    assert(out@ =~= u32_bytes(x as nat));
    out
}

/// The bytes of `x`, highest byte first.
pub fn u64_to_be(x: u64) -> (out: Vec<u8>)
    ensures
        out@ == u64_bytes(x as nat),
{
    let mut out: Vec<u8> = Vec::new();
    out.push((x / 0x100_0000_0000_0000 % 0x100) as u8);
    out.push((x / 0x1_0000_0000_0000 % 0x100) as u8);
    out.push((x / 0x100_0000_0000 % 0x100) as u8);
    out.push((x / 0x1_0000_0000 % 0x100) as u8);
    out.push((x / 0x100_0000 % 0x100) as u8);
    out.push((x / 0x1_0000 % 0x100) as u8);
    out.push((x / 0x100 % 0x100) as u8);
    out.push((x % 0x100) as u8);
    assert(out@ =~= u64_bytes(x as nat));
    out
}

/// The bit pattern of `v` as an unsigned number.
pub fn i64_to_unsigned(v: i64) -> (u: u64)
    ensures
        u == unsigned_of_64(v),
{
    if v >= 0 {
        v as u64
    } else {
        (v as i128 + 0x1_0000_0000_0000_0000) as u64
    }
}

/// The signed number with the bit pattern of `u`.
pub fn u64_to_signed(u: u64) -> (v: i64)
    ensures
        v == signed_of_64(u as nat),
{
    if u < 0x8000_0000_0000_0000 {
        u as i64
    } else {
        (u as i128 - 0x1_0000_0000_0000_0000) as i64
    }
}

/// Reads two bytes, high byte first.
pub(crate) fn be16_of(s: &[u8]) -> (x: u16)
    requires
        s@.len() >= 2,
    ensures
        x == be16(s@),
{
    (s[0] as u16) * 0x100 + (s[1] as u16)
}

/// Reads four bytes, highest byte first.
pub(crate) fn be32_of(s: &[u8]) -> (x: u32)
    requires
        s@.len() >= 4,
    ensures
        x == be32(s@),
{
    (s[0] as u32) * 0x100_0000 + (s[1] as u32) * 0x1_0000 + (s[2] as u32) * 0x100 + (s[3] as u32)
}

/// Reads eight bytes, highest byte first.
pub(crate) fn be64_of(s: &[u8]) -> (x: u64)
    requires
        s@.len() >= 8,
    ensures
        x == be64(s@),
{
    (s[0] as u64) * 0x100_0000_0000_0000 + (s[1] as u64) * 0x1_0000_0000_0000 + (s[2] as u64)
        * 0x100_0000_0000 + (s[3] as u64) * 0x1_0000_0000 + (s[4] as u64) * 0x100_0000 + (
    s[5] as u64) * 0x1_0000 + (s[6] as u64) * 0x100 + (s[7] as u64)
}

/// The bytes that a number was written as spell the number.
pub proof fn lemma_fixed_round_trip(x: nat)
    ensures
        x < 0x1_0000 ==> be16(u16_bytes(x)) == x,
        x < 0x1_0000_0000 ==> be32(u32_bytes(x)) == x,
        x < 0x1_0000_0000_0000_0000 ==> be64(u64_bytes(x)) == x,
{
    if x < 0x1_0000_0000 {
        let a = x / 0x100;
        let b = a / 0x100;
        let c = b / 0x100;
        assert(b == x / 0x1_0000);
        assert(c == x / 0x100_0000);
    }
    if x < 0x1_0000_0000_0000_0000 {
        let a = x / 0x100;
        let b = a / 0x100;
        let c = b / 0x100;
        let d = c / 0x100;
        let e = d / 0x100;
        let f = e / 0x100;
        let g = f / 0x100;
        assert(b == x / 0x1_0000);
        assert(c == x / 0x100_0000);
        assert(d == x / 0x1_0000_0000);
        assert(e == x / 0x100_0000_0000);
        assert(f == x / 0x1_0000_0000_0000);
        assert(g == x / 0x100_0000_0000_0000);
    }
}

} // verus!
