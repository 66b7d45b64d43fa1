//! The write cursor.

use vstd::prelude::*;
use vstd::utf8::encode_utf8;
use bytes::{Bytes, BytesMut};
use crate::codec::fixed::{
    i64_to_unsigned, u16_bytes, u16_to_be, u32_bytes, u32_to_be, u64_bytes, u64_to_be,
    unsigned_of_64,
};
use crate::codec::var_int::{signed_of, unsigned_of, var_int_bytes, VarInt};
use crate::error::EncodeError;
use crate::specs::buffers::{bytes_mut_put_u8, bytes_mut_view, bytes_view};

verus! {

/// The largest capacity a sink can have: the largest length that a length
/// prefix can state.
pub const MAX_CAPACITY: usize = 0x7fff_ffff;

/// A growable byte sink with a hard capacity. Bytes are only ever appended;
/// a write that does not fit leaves the sink as it was.
pub struct WriteBuf {
    buf: BytesMut,
    limit: usize,
}

impl View for WriteBuf {
    type V = Seq<u8>;

    /// The bytes written so far.
    closed spec fn view(&self) -> Seq<u8> {
        bytes_mut_view(self.buf)
    }
}

/// What one write does to a sink: the bytes are appended when they fit in
/// what is left of the capacity, and nothing changes when they do not.
pub open spec fn put_outcome(
    pre: WriteBuf,
    post: WriteBuf,
    data: Seq<u8>,
    r: Result<(), EncodeError>,
) -> bool {
    &&& post.wf()
    &&& post.cap() == pre.cap()
    &&& if pre@.len() + data.len() <= pre.cap() {
        r is Ok && post@ =~= pre@ + data
    } else {
        r == Err::<(), EncodeError>(EncodeError::CapacityExceeded) && post@ =~= pre@
    }
}

/// What a write of several parts has done to a sink when it returns: all of
/// `data` was appended, or a part did not fit, and then the sink holds what
/// it held before and perhaps some of the parts.
pub open spec fn written_or_stuck(
    pre: WriteBuf,
    post: WriteBuf,
    data: Seq<u8>,
    r: Result<(), EncodeError>,
) -> bool {
    &&& post.wf()
    &&& post.cap() == pre.cap()
    &&& match r {
        Ok(_) => post@ =~= pre@ + data,
        Err(e) => e == EncodeError::CapacityExceeded && pre@.len() + data.len() > pre.cap()
            && post@.len() >= pre@.len() && post@.take(pre@.len() as int) =~= pre@,
    }
}

/// The bytes of a string on the wire: its length in bytes as a `VarInt`,
/// then its UTF-8 encoding.
pub open spec fn string_bytes(s: Seq<char>) -> Seq<u8> {
    var_int_bytes(signed_of(encode_utf8(s).len())) + encode_utf8(s)
}

/// The byte of a flag.
pub open spec fn bool_byte(b: bool) -> u8 {
    if b {
        1
    } else {
        0
    }
}

impl WriteBuf {
    /// A sink never holds more than its capacity, and no capacity is above
    /// `MAX_CAPACITY`. Every sink that this module hands out is well formed.
    pub open spec fn wf(&self) -> bool {
        self@.len() <= self.cap() <= MAX_CAPACITY
    }

    /// The hard capacity: the sink never holds more bytes than this.
    pub closed spec fn cap(&self) -> nat {
        self.limit as nat
    }

    /// An empty sink with the largest capacity.
    pub fn new() -> (w: WriteBuf)
        ensures
            w.wf(),
            w@ == Seq::<u8>::empty(),
            w.cap() == MAX_CAPACITY,
    {
        WriteBuf { buf: BytesMut::new(), limit: MAX_CAPACITY }
    }

    /// An empty sink that holds at most `limit` bytes, and never more than
    /// `MAX_CAPACITY`.
    pub fn with_limit(limit: usize) -> (w: WriteBuf)
        ensures
            w.wf(),
            w@ == Seq::<u8>::empty(),
            w.cap() == if limit <= MAX_CAPACITY {
                limit
            } else {
                MAX_CAPACITY
            },
    {
        let limit: usize = if limit <= MAX_CAPACITY {
            limit
        } else {
            MAX_CAPACITY
        };
        WriteBuf { buf: BytesMut::new(), limit }
    }

    /// The number of bytes written so far.
    pub fn len(&self) -> (n: usize)
        requires
            self.wf(),
        ensures
            n == self@.len(),
            n <= self.cap(),
            self.cap() <= MAX_CAPACITY,
    {
        self.buf.len()
    }

    /// The hard capacity.
    pub fn capacity(&self) -> (n: usize)
        requires
            self.wf(),
        ensures
            n == self.cap(),
            self@.len() <= n <= MAX_CAPACITY,
    {
        self.limit
    }

    /// The number of bytes that can still be written.
    pub fn remaining_capacity(&self) -> (n: usize)
        requires
            self.wf(),
        ensures
            n == self.cap() - self@.len(),
    {
        self.limit - self.buf.len()
    }

    /// The bytes written so far.
    pub fn as_slice(&self) -> (s: &[u8])
        ensures
            s@ == self@,
    {
        self.buf.as_ref()
    }

    /// Drops everything written after the first `len` bytes. With `len` past
    /// the end nothing changes.
    pub fn truncate(&mut self, len: usize)
        requires
            old(self).wf(),
        ensures
            final(self).wf(),
            final(self).cap() == old(self).cap(),
            final(self)@ == if len <= old(self)@.len() {
                old(self)@.take(len as int)
            } else {
                old(self)@
            },
    {
        self.buf.truncate(len);
    }

    /// Takes the first `at` bytes off the front, or all of them when fewer
    /// are held. What stays can be appended to as before.
    pub fn take_front(&mut self, at: usize) -> (head: Bytes)
        requires
            old(self).wf(),
        ensures
            final(self).wf(),
            final(self).cap() == old(self).cap(),
            at <= old(self)@.len() ==> bytes_view(head) == old(self)@.take(at as int)
                && final(self)@ == old(self)@.skip(at as int),
            at > old(self)@.len() ==> bytes_view(head) == old(self)@ && final(self)@
                == Seq::<u8>::empty(),
    {
        let held: usize = self.buf.len();
        let at: usize = if at <= held {
            at
        } else {
            held
        };
        let head: BytesMut = self.buf.split_to(at);
        proof {
            assert(old(self)@.take(held as int) =~= old(self)@);
            assert(old(self)@.skip(held as int) =~= Seq::<u8>::empty());
        }
        head.freeze()
    }

    /// Ends a write of several parts that began when the sink held `start`
    /// bytes: where a part did not fit, the parts before it are taken out
    /// again, so that the write as a whole has happened or has not.
    pub fn settle(&mut self, start: usize, r: Result<(), EncodeError>) -> (settled: Result<
        (),
        EncodeError,
    >)
        requires
            old(self).wf(),
            r is Err ==> start <= old(self)@.len(),
        ensures
            settled == r,
            final(self).wf(),
            final(self).cap() == old(self).cap(),
            final(self)@ == if r is Err {
                old(self)@.take(start as int)
            } else {
                old(self)@
            },
    {
        if r.is_err() {
            self.truncate(start);
        }
        r
    }

    /// Hands out what was written as an immutable buffer.
    pub fn into_bytes(self) -> (b: Bytes)
        ensures
            bytes_view(b) == self@,
    {
        self.buf.freeze()
    }

    /// Appends `data`.
    pub fn put_slice(&mut self, data: &[u8]) -> (r: Result<(), EncodeError>)
        requires
            old(self).wf(),
        ensures
            put_outcome(*old(self), *final(self), data@, r),
    {
        if data.len() > self.limit - self.buf.len() {
            return Err(EncodeError::CapacityExceeded);
        }
        self.buf.extend_from_slice(data);
        Ok(())
    }

    /// Appends a bit set, which travels as its bytes.
    pub fn put_bit_set(&mut self, set: &Bytes) -> (r: Result<(), EncodeError>)
        requires
            old(self).wf(),
        ensures
            put_outcome(*old(self), *final(self), bytes_view(*set), r),
    {
        self.put_slice(set.as_ref())
    }

    /// Appends one byte.
    pub fn put_u8(&mut self, x: u8) -> (r: Result<(), EncodeError>)
        requires
            old(self).wf(),
        ensures
            put_outcome(*old(self), *final(self), seq![x], r),
    {
        if self.buf.len() >= self.limit {
            return Err(EncodeError::CapacityExceeded);
        }
        bytes_mut_put_u8(&mut self.buf, x);
        assert(self@ =~= old(self)@ + seq![x]);
        Ok(())
    }

    /// Appends a flag as one byte, 1 for `true` and 0 for `false`.
    pub fn put_bool(&mut self, b: bool) -> (r: Result<(), EncodeError>)
        requires
            old(self).wf(),
        ensures
            put_outcome(*old(self), *final(self), seq![bool_byte(b)], r),
    {
        self.put_u8(if b { 1 } else { 0 })
    }

    /// Appends a signed byte as its bit pattern.
    pub fn put_i8(&mut self, x: i8) -> (r: Result<(), EncodeError>)
        requires
            old(self).wf(),
        ensures
            put_outcome(
                *old(self),
                *final(self),
                seq![(if x >= 0 { x as int } else { x + 0x100 }) as u8],
                r,
            ),
    {
        let byte: u8 = if x >= 0 {
            x as u8
        } else {
            (x as i16 + 0x100) as u8
        };
        self.put_u8(byte)
    }

    /// Appends two bytes, high byte first.
    pub fn put_u16(&mut self, x: u16) -> (r: Result<(), EncodeError>)
        requires
            old(self).wf(),
        ensures
            put_outcome(*old(self), *final(self), u16_bytes(x as nat), r),
    {
        let bytes: Vec<u8> = u16_to_be(x);
        self.put_slice(bytes.as_slice())
    }

    /// Appends the four bytes of `x`, highest byte first.
    pub fn put_i32(&mut self, x: i32) -> (r: Result<(), EncodeError>)
        requires
            old(self).wf(),
        ensures
            put_outcome(*old(self), *final(self), u32_bytes(unsigned_of(x)), r),
    {
        let u: u32 = if x >= 0 {
            x as u32
        } else {
            (x as i64 + 0x1_0000_0000) as u32
        };
        let bytes: Vec<u8> = u32_to_be(u);
        self.put_slice(bytes.as_slice())
    }

    /// Appends the eight bytes of `x`, highest byte first.
    pub fn put_i64(&mut self, x: i64) -> (r: Result<(), EncodeError>)
        requires
            old(self).wf(),
        ensures
            put_outcome(*old(self), *final(self), u64_bytes(unsigned_of_64(x)), r),
    {
        let bytes: Vec<u8> = u64_to_be(i64_to_unsigned(x));
        self.put_slice(bytes.as_slice())
    }

    /// Appends `x` in its one to five bytes.
    pub fn put_var_int(&mut self, x: &VarInt) -> (r: Result<(), EncodeError>)
        requires
            old(self).wf(),
        ensures
            put_outcome(*old(self), *final(self), var_int_bytes(x.0), r),
    {
        let bytes: Vec<u8> = x.to_bytes();
        self.put_slice(bytes.as_slice())
    }

    /// Appends a string: its length in bytes, then its UTF-8 bytes.
    pub fn put_string(&mut self, s: &str) -> (r: Result<(), EncodeError>)
        requires
            old(self).wf(),
        ensures
            put_outcome(*old(self), *final(self), string_bytes(s@), r),
    {
        let body: &[u8] = s.as_bytes();
        let room: usize = self.limit - self.buf.len();
        if body.len() > room {
            return Err(EncodeError::CapacityExceeded);
        }
        let prefix: Vec<u8> = VarInt(body.len() as i32).to_bytes();
        if prefix.len() > room - body.len() {
            return Err(EncodeError::CapacityExceeded);
        }
        self.buf.extend_from_slice(prefix.as_slice());
        self.buf.extend_from_slice(body);
        assert(self@ =~= old(self)@ + string_bytes(s@));
        Ok(())
    }
}

} // verus!
