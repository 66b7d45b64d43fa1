//! The read cursor.

use vstd::prelude::*;
use vstd::slice::{slice_subrange, slice_to_vec};
use vstd::utf8::{
    decode_utf8, encode_utf8, encode_utf8_decode_utf8, encode_utf8_valid_utf8, valid_utf8,
};
use bytes::Bytes;
use crate::codec::fixed::{
    be16, be16_of, be32, be32_of, be64, be64_of, signed_of_64, u64_to_signed,
};
use crate::bytebuf::write::string_bytes;
use crate::codec::var_int::{
    lemma_var_int_round_trip, parse_var_int, signed_of, to_signed, to_unsigned, unsigned_of,
    var_int_bytes, var_int_len, VarInt, VarIntParse,
};
use crate::error::DecodeError;
use crate::specs::buffers::{bytes_get_u8, bytes_view};

verus! {

/// The longest string, in bytes, that is read when the caller names no limit.
pub const MAX_STRING_LEN: u32 = 32767;

/// A cursor over received bytes. A read takes its bytes off the front; a
/// read that fails takes nothing.
pub struct ReadBuf {
    data: Bytes,
}

impl View for ReadBuf {
    type V = Seq<u8>;

    /// The bytes not read yet.
    closed spec fn view(&self) -> Seq<u8> {
        bytes_view(self.data)
    }
}

/// What one read does to a cursor, given what the value's format makes of
/// the bytes in front of it: the value is returned and its bytes are gone,
/// or the error is returned and the cursor stays where it was.
pub open spec fn get_outcome<T>(
    pre: ReadBuf,
    post: ReadBuf,
    parsed: Result<(T, nat), DecodeError>,
    r: Result<T, DecodeError>,
) -> bool {
    match parsed {
        Ok((v, n)) => r == Ok::<T, DecodeError>(v) && post@ =~= pre@.skip(n as int),
        Err(e) => r == Err::<T, DecodeError>(e) && post@ =~= pre@,
    }
}

/// One byte.
pub open spec fn parse_u8(s: Seq<u8>) -> Result<(u8, nat), DecodeError> {
    if s.len() >= 1 {
        Ok((s[0], 1nat))
    } else {
        Err(DecodeError::UnexpectedEnd)
    }
}

/// One byte read as a flag: zero is `false`, anything else `true`.
pub open spec fn parse_bool(s: Seq<u8>) -> Result<(bool, nat), DecodeError> {
    if s.len() >= 1 {
        Ok((s[0] != 0, 1nat))
    } else {
        Err(DecodeError::UnexpectedEnd)
    }
}

/// One byte read as a signed number.
pub open spec fn parse_i8(s: Seq<u8>) -> Result<(i8, nat), DecodeError> {
    if s.len() >= 1 {
        Ok(
            (
                (if s[0] < 0x80 {
                    s[0] as int
                } else {
                    s[0] - 0x100
                }) as i8,
                1nat,
            ),
        )
    } else {
        Err(DecodeError::UnexpectedEnd)
    }
}

/// Two bytes, high byte first.
pub open spec fn parse_u16(s: Seq<u8>) -> Result<(u16, nat), DecodeError> {
    if s.len() >= 2 {
        Ok((be16(s) as u16, 2nat))
    } else {
        Err(DecodeError::UnexpectedEnd)
    }
}

/// Four bytes, highest byte first, read as a signed number.
pub open spec fn parse_i32(s: Seq<u8>) -> Result<(i32, nat), DecodeError> {
    if s.len() >= 4 {
        Ok((signed_of(be32(s)), 4nat))
    } else {
        Err(DecodeError::UnexpectedEnd)
    }
}

/// Eight bytes, highest byte first, read as a signed number.
pub open spec fn parse_i64(s: Seq<u8>) -> Result<(i64, nat), DecodeError> {
    if s.len() >= 8 {
        Ok((signed_of_64(be64(s)), 8nat))
    } else {
        Err(DecodeError::UnexpectedEnd)
    }
}

/// The number of bytes that a set of `bits` bits takes: eight bits a byte,
/// the last byte filled up.
pub open spec fn bit_set_len(bits: nat) -> nat {
    (bits + 7) / 8
}

/// A bit set of `bits` bits at the front of `s`.
pub open spec fn parse_fixed_bitset(s: Seq<u8>, bits: nat) -> Result<(Seq<u8>, nat), DecodeError> {
    if s.len() >= bit_set_len(bits) {
        Ok((s.take(bit_set_len(bits) as int), bit_set_len(bits)))
    } else {
        Err(DecodeError::UnexpectedEnd)
    }
}

/// A `VarInt` at the front of `s`.
pub open spec fn parse_var_int_field(s: Seq<u8>) -> Result<(VarInt, nat), DecodeError> {
    match parse_var_int(s) {
        VarIntParse::Value { value, len } => Ok((VarInt(value), len)),
        VarIntParse::Incomplete => Err(DecodeError::UnexpectedEnd),
        VarIntParse::TooLong => Err(DecodeError::VarIntTooLong),
    }
}

/// The bytes of a string at the front of `s`: a `VarInt` that declares
/// their number, read as unsigned, then that many bytes of UTF-8. A declared
/// length above `max` is refused before the bytes are looked at.
pub open spec fn parse_text(s: Seq<u8>, max: nat) -> Result<(Seq<u8>, nat), DecodeError> {
    match parse_var_int(s) {
        VarIntParse::Incomplete => Err(DecodeError::UnexpectedEnd),
        VarIntParse::TooLong => Err(DecodeError::VarIntTooLong),
        VarIntParse::Value { value, len } => {
            let declared = unsigned_of(value);
            let body = s.subrange(len as int, (len + declared) as int);
            if declared > max {
                Err(DecodeError::StringTooLong)
            } else if s.len() < len + declared {
                Err(DecodeError::UnexpectedEnd)
            } else if !valid_utf8(body) {
                Err(DecodeError::InvalidEncoding)
            } else {
                Ok((body, len + declared))
            }
        },
    }
}

/// A string at the front of `s`: the characters that the bytes of
/// [`parse_text`] encode.
pub open spec fn parse_string(s: Seq<u8>, max: nat) -> Result<(Seq<char>, nat), DecodeError> {
    match parse_text(s, max) {
        Ok((body, n)) => Ok((decode_utf8(body), n)),
        Err(e) => Err(e),
    }
}

/// What a read of a string does to a cursor: as [`get_outcome`], with the
/// string compared by its characters.
pub open spec fn get_string_outcome(
    pre: ReadBuf,
    post: ReadBuf,
    parsed: Result<(Seq<char>, nat), DecodeError>,
    r: Result<String, DecodeError>,
) -> bool {
    match parsed {
        Ok((chars, n)) => r is Ok && r->Ok_0@ == chars && post@ =~= pre@.skip(n as int),
        Err(e) => r == Err::<String, DecodeError>(e) && post@ =~= pre@,
    }
}

impl ReadBuf {
    /// A cursor at the front of `data`.
    pub fn new(data: Bytes) -> (r: ReadBuf)
        ensures
            r@ == bytes_view(data),
    {
        ReadBuf { data }
    }

    /// The number of bytes not read yet.
    pub fn remaining(&self) -> (n: usize)
        ensures
            n == self@.len(),
    {
        self.data.len()
    }

    /// Whether any byte is left.
    pub fn has_remaining(&self) -> (b: bool)
        ensures
            b == (self@.len() > 0),
    {
        self.data.len() > 0
    }

    /// The bytes not read yet.
    pub fn as_slice(&self) -> (s: &[u8])
        ensures
            s@ == self@,
    {
        self.data.as_ref()
    }

    /// A second cursor at the place of this one, to come back to.
    pub fn checkpoint(&self) -> (mark: ReadBuf)
        ensures
            mark@ == self@,
    {
        ReadBuf { data: self.data.clone() }
    }

    /// Puts the cursor back where `mark` was taken.
    pub fn rewind(&mut self, mark: ReadBuf)
        ensures
            final(self)@ == mark@,
    {
        self.data = mark.data;
    }

    /// Hands out the bytes not read yet.
    pub fn into_bytes(self) -> (b: Bytes)
        ensures
            bytes_view(b) == self@,
    {
        self.data
    }

    /// Reads one byte.
    pub fn try_get_u8(&mut self) -> (r: Result<u8, DecodeError>)
        ensures
            get_outcome(*old(self), *final(self), parse_u8(old(self)@), r),
    {
        if self.data.len() < 1 {
            return Err(DecodeError::UnexpectedEnd);
        }
        Ok(bytes_get_u8(&mut self.data))
    }

    /// Reads one byte as a flag.
    pub fn try_get_bool(&mut self) -> (r: Result<bool, DecodeError>)
        ensures
            get_outcome(*old(self), *final(self), parse_bool(old(self)@), r),
    {
        if self.data.len() < 1 {
            return Err(DecodeError::UnexpectedEnd);
        }
        let byte: u8 = bytes_get_u8(&mut self.data);
        Ok(byte != 0)
    }

    /// Reads one byte as a signed number.
    pub fn try_get_i8(&mut self) -> (r: Result<i8, DecodeError>)
        ensures
            get_outcome(*old(self), *final(self), parse_i8(old(self)@), r),
    {
        if self.data.len() < 1 {
            return Err(DecodeError::UnexpectedEnd);
        }
        let byte: u8 = bytes_get_u8(&mut self.data);
        if byte < 0x80 {
            Ok(byte as i8)
        } else {
            Ok((byte as i16 - 0x100) as i8)
        }
    }

    /// Reads two bytes, high byte first.
    pub fn try_get_u16(&mut self) -> (r: Result<u16, DecodeError>)
        ensures
            get_outcome(*old(self), *final(self), parse_u16(old(self)@), r),
    {
        if self.data.len() < 2 {
            return Err(DecodeError::UnexpectedEnd);
        }
        let head: Bytes = self.data.split_to(2);
        Ok(be16_of(head.as_ref()))
    }

    /// Reads four bytes, highest byte first, as a signed number.
    pub fn try_get_i32(&mut self) -> (r: Result<i32, DecodeError>)
        ensures
            get_outcome(*old(self), *final(self), parse_i32(old(self)@), r),
    {
        if self.data.len() < 4 {
            return Err(DecodeError::UnexpectedEnd);
        }
        let head: Bytes = self.data.split_to(4);
        Ok(to_signed(be32_of(head.as_ref()) as u64))
    }

    /// Reads eight bytes, highest byte first, as a signed number.
    pub fn try_get_i64(&mut self) -> (r: Result<i64, DecodeError>)
        ensures
            get_outcome(*old(self), *final(self), parse_i64(old(self)@), r),
    {
        if self.data.len() < 8 {
            return Err(DecodeError::UnexpectedEnd);
        }
        let head: Bytes = self.data.split_to(8);
        Ok(u64_to_signed(be64_of(head.as_ref())))
    }

    /// Takes the next `len` bytes.
    pub fn try_copy_to_bytes(&mut self, len: usize) -> (r: Result<Bytes, DecodeError>)
        ensures
            match r {
                Ok(b) => len <= old(self)@.len() && bytes_view(b) == old(self)@.take(len as int)
                    && final(self)@ == old(self)@.skip(len as int),
                Err(e) => len > old(self)@.len() && e == DecodeError::UnexpectedEnd
                    && final(self)@ == old(self)@,
            },
    {
        if len > self.data.len() {
            return Err(DecodeError::UnexpectedEnd);
        }
        Ok(self.data.split_to(len))
    }

    /// Reads a bit set of `bits` bits, which takes a byte for every eight
    /// bits or part of eight.
    pub fn try_get_fixed_bitset(&mut self, bits: usize) -> (r: Result<Bytes, DecodeError>)
        ensures
            match parse_fixed_bitset(old(self)@, bits as nat) {
                Ok((set, n)) => r is Ok && bytes_view(r->Ok_0) == set
                    && final(self)@ == old(self)@.skip(n as int),
                Err(e) => r is Err && r->Err_0 == e && final(self)@ == old(self)@,
            },
    {
        let whole: usize = bits / 8;
        let len: usize = if bits % 8 == 0 {
            whole
        } else {
            whole + 1
        };
        self.try_copy_to_bytes(len)
    }

    /// Reads a `VarInt`.
    pub fn try_get_var_int(&mut self) -> (r: Result<VarInt, DecodeError>)
        ensures
            get_outcome(*old(self), *final(self), parse_var_int_field(old(self)@), r),
    {
        match VarInt::decode_slice(self.data.as_ref()) {
            Ok((value, taken)) => {
                let _ = self.data.split_to(taken);
                Ok(value)
            },
            Err(e) => Err(e),
        }
    }

    /// Reads a string of at most `MAX_STRING_LEN` bytes.
    pub fn try_get_string(&mut self) -> (r: Result<String, DecodeError>)
        ensures
            get_string_outcome(
                *old(self),
                *final(self),
                parse_string(old(self)@, MAX_STRING_LEN as nat),
                r,
            ),
    {
        self.try_get_string_len(MAX_STRING_LEN)
    }

    /// Reads a string of at most `max_size` bytes. A longer declared length
    /// is refused whatever the cursor holds, and before anything is copied.
    pub fn try_get_string_len(&mut self, max_size: u32) -> (r: Result<String, DecodeError>)
        ensures
            get_string_outcome(
                *old(self),
                *final(self),
                parse_string(old(self)@, max_size as nat),
                r,
            ),
    {
        let all: &[u8] = self.data.as_ref();
        let (length, taken) = match VarInt::decode_slice(all) {
            Ok(pair) => pair,
            Err(e) => {
                return Err(e);
            },
        };
        let declared: u32 = to_unsigned(length.0);
        if declared > max_size {
            return Err(DecodeError::StringTooLong);
        }
        if declared as usize > all.len() - taken {
            return Err(DecodeError::UnexpectedEnd);
        }
        let end: usize = taken + declared as usize;
        let body: Vec<u8> = slice_to_vec(slice_subrange(all, taken, end));
        match String::from_utf8(body) {
            Ok(text) => {
                let _ = self.data.split_to(end);
                Ok(text)
            },
            Err(_) => Err(DecodeError::InvalidEncoding),
        }
    }
}

/// Bytes of UTF-8 behind their length read back as they are, whatever
/// follows them, where they are no more than the reader allows and no more
/// than a length prefix can state.
pub proof fn lemma_text_round_trip(body: Seq<u8>, max: nat, rest: Seq<u8>)
    requires
        valid_utf8(body),
        body.len() <= max,
        body.len() <= i32::MAX,
    ensures
        parse_text(var_int_bytes(body.len() as i32) + body + rest, max) == Ok::<
            (Seq<u8>, nat),
            DecodeError,
        >((body, var_int_len(body.len() as i32) + body.len())),
        var_int_bytes(body.len() as i32).len() == var_int_len(body.len() as i32),
{
    let declared = body.len() as i32;
    let prefix = var_int_len(declared) as int;
    let s = var_int_bytes(declared) + body + rest;
    lemma_var_int_round_trip(declared, body + rest);
    assert(s =~= var_int_bytes(declared) + (body + rest));
    assert(s.subrange(prefix, prefix + body.len()) =~= body);
}

/// A string that was written reads back as the same characters, whatever
/// follows it, where its bytes are no more than the reader allows and no
/// more than a length prefix can state.
pub proof fn lemma_string_round_trip(text: Seq<char>, max: nat, rest: Seq<u8>)
    requires
        encode_utf8(text).len() <= max,
        encode_utf8(text).len() <= i32::MAX,
    ensures
        parse_string(string_bytes(text) + rest, max) == Ok::<(Seq<char>, nat), DecodeError>(
            (text, string_bytes(text).len()),
        ),
{
    let body = encode_utf8(text);
    assert(signed_of(body.len()) == body.len() as i32);
    assert(string_bytes(text) + rest =~= var_int_bytes(body.len() as i32) + body + rest);
    assert(valid_utf8(body)) by {
        encode_utf8_valid_utf8(text);
    }
    assert(decode_utf8(body) == text) by {
        encode_utf8_decode_utf8(text);
    }
    lemma_text_round_trip(body, max, rest);
}

/// A string whose declared length is above the cap is refused for its
/// length, whatever follows the length and however much of it is there.
pub proof fn lemma_string_over_cap_is_refused(s: Seq<u8>, max: nat)
    requires
        parse_var_int(s) is Value,
        unsigned_of(parse_var_int(s)->value) > max,
    ensures
        parse_string(s, max) == Err::<(Seq<char>, nat), DecodeError>(DecodeError::StringTooLong),
        parse_text(s, max) == Err::<(Seq<u8>, nat), DecodeError>(DecodeError::StringTooLong),
{
}

} // verus!
