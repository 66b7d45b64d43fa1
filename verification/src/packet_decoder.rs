//! The inbound half of the frame codec: bytes go in as they arrive, packets
//! come out one frame at a time.

use vstd::prelude::*;
use bytes::Bytes;
use crate::bytebuf::read::ReadBuf;
use crate::bytebuf::write::{WriteBuf, MAX_CAPACITY};
use crate::codec::var_int::{parse_var_int, VarInt, VarIntParse};
use crate::error::DecodeError;
use crate::specs::buffers::bytes_view;
use crate::specs::zlib::{inflated, zlib_inflate, Inflated, StreamStatus};
use crate::{RawPacket, MAX_PACKET_SIZE};

verus! {

/// What the front of a stream holds.
pub enum FrameParse {
    /// Less than a whole frame: more bytes are needed.
    NeedMore,
    /// A frame of `taken` bytes, length prefix included, with one packet.
    Packet { id: i32, body: Seq<u8>, taken: nat },
    /// Something that is no frame. `taken` bytes of the stream belong to
    /// it: none where the length prefix is at fault, the whole frame where
    /// its inside is.
    Broken { error: DecodeError, taken: nat },
}

/// Splits a payload into the packet's ID and the bytes of its fields.
pub open spec fn parse_packet(payload: Seq<u8>) -> Result<(i32, Seq<u8>), DecodeError> {
    match parse_var_int(payload) {
        VarIntParse::Value { value, len } => Ok((value, payload.skip(len as int))),
        VarIntParse::Incomplete => Err(DecodeError::UnexpectedEnd),
        VarIntParse::TooLong => Err(DecodeError::VarIntTooLong),
    }
}

/// The payload that a zlib stream holds, where the decompressor read the
/// stream to its end and wrote exactly `size` bytes.
pub open spec fn inflated_payload(
    outcome: Option<(StreamStatus, Seq<u8>, u64)>,
    size: nat,
) -> Option<Seq<u8>> {
    match outcome {
        Some((status, bytes, written)) => if status == StreamStatus::Ended && written == size
            && bytes.len() == size {
            Some(bytes)
        } else {
            None
        },
        None => None,
    }
}

/// The packet in a payload that was compressed, given what the
/// decompressor made of it.
pub open spec fn parse_inflated(
    outcome: Option<(StreamStatus, Seq<u8>, u64)>,
    size: nat,
) -> Result<(i32, Seq<u8>), DecodeError> {
    match inflated_payload(outcome, size) {
        Some(payload) => parse_packet(payload),
        None => Err(DecodeError::DecompressionMismatch),
    }
}

/// The packet inside a frame, the length prefix left out. With compression
/// agreed on the inside starts with the length of the payload before
/// compression: zero says that the payload follows as it is, any other
/// length that a zlib stream follows, which has to inflate to that length.
pub open spec fn parse_inner(inner: Seq<u8>, compression: bool) -> Result<
    (i32, Seq<u8>),
    DecodeError,
> {
    if !compression {
        parse_packet(inner)
    } else {
        match parse_var_int(inner) {
            VarIntParse::Incomplete => Err(DecodeError::UnexpectedEnd),
            VarIntParse::TooLong => Err(DecodeError::VarIntTooLong),
            VarIntParse::Value { value, len } => {
                let rest = inner.skip(len as int);
                if value == 0 {
                    parse_packet(rest)
                } else if value < 0 || value > MAX_PACKET_SIZE {
                    Err(DecodeError::FrameTooLarge)
                } else {
                    parse_inflated(inflated(rest, value as nat), value as nat)
                }
            },
        }
    }
}

/// Reads one frame from the front of a stream. The length prefix is looked
/// at first: a length outside `0..=MAX_PACKET_SIZE` is refused before any
/// byte after the prefix counts. A frame that is not all there yet is no
/// error.
pub open spec fn parse_frame(stream: Seq<u8>, compression: bool) -> FrameParse {
    match parse_var_int(stream) {
        VarIntParse::Incomplete => FrameParse::NeedMore,
        VarIntParse::TooLong => FrameParse::Broken {
            error: DecodeError::VarIntTooLong,
            taken: 0,
        },
        VarIntParse::Value { value, len } => {
            if value < 0 || value > MAX_PACKET_SIZE {
                FrameParse::Broken { error: DecodeError::FrameTooLarge, taken: 0 }
            } else if stream.len() < len + value {
                FrameParse::NeedMore
            } else {
                let taken = (len + value) as nat;
                match parse_inner(stream.subrange(len as int, len + value), compression) {
                    Ok((id, body)) => FrameParse::Packet { id, body, taken },
                    Err(error) => FrameParse::Broken { error, taken },
                }
            }
        },
    }
}

/// Whether `r` is the packet, or the error, that `parsed` says.
pub open spec fn is_packet(
    parsed: Result<(i32, Seq<u8>), DecodeError>,
    r: Result<RawPacket, DecodeError>,
) -> bool {
    match parsed {
        Ok((id, body)) => r is Ok && r->Ok_0.id.0 == id && bytes_view(r->Ok_0.bytebuf) == body,
        Err(e) => r is Err && r->Err_0 == e,
    }
}

/// Splits a payload into the packet's ID and the bytes of its fields.
pub fn packet_of(payload: Bytes) -> (r: Result<RawPacket, DecodeError>)
    ensures
        is_packet(parse_packet(bytes_view(payload)), r),
{
    let mut cursor: ReadBuf = ReadBuf::new(payload);
    match cursor.try_get_var_int() {
        Ok(id) => Ok(RawPacket { id, bytebuf: cursor.into_bytes() }),
        Err(e) => Err(e),
    }
}

/// The packet in a payload that was compressed, given what the decompressor
/// handed back for a declared length of `size`: the payload has to be
/// complete and exactly as long as declared.
pub fn packet_of_inflated(outcome: Option<Inflated>, size: usize) -> (r: Result<
    RawPacket,
    DecodeError,
>)
    ensures
        is_packet(
            parse_inflated(
                match outcome {
                    Some(out) => Some((out.status, out.bytes@, out.written)),
                    None => None,
                },
                size as nat,
            ),
            r,
        ),
{
    match outcome {
        Some(out) => {
            if out.status == StreamStatus::Ended && out.written == size as u64 && out.bytes.len()
                == size {
                packet_of(Bytes::from(out.bytes))
            } else {
                Err(DecodeError::DecompressionMismatch)
            }
        },
        None => Err(DecodeError::DecompressionMismatch),
    }
}

/// The packet inside a frame, the length prefix left out.
pub fn packet_of_inner(inner: Bytes, compression: bool) -> (r: Result<RawPacket, DecodeError>)
    ensures
        is_packet(parse_inner(bytes_view(inner), compression), r),
{
    if !compression {
        return packet_of(inner);
    }
    let mut cursor: ReadBuf = ReadBuf::new(inner);
    let declared: i32 = match cursor.try_get_var_int() {
        Ok(value) => value.0,
        Err(e) => {
            return Err(e);
        },
    };
    if declared == 0 {
        return packet_of(cursor.into_bytes());
    }
    if declared < 0 || declared > MAX_PACKET_SIZE {
        return Err(DecodeError::FrameTooLarge);
    }
    let size: usize = declared as usize;
    let outcome: Option<Inflated> = match zlib_inflate(cursor.as_slice(), size) {
        Ok(out) => Some(out),
        Err(_) => None,
    };
    packet_of_inflated(outcome, size)
}

/// Collects the bytes of a connection as they arrive and cuts them into
/// packets.
pub struct PacketDecoder {
    buf: WriteBuf,
    compression: bool,
}

impl PacketDecoder {
    /// The bytes that arrived and were not decoded yet.
    pub closed spec fn buffered(&self) -> Seq<u8> {
        self.buf@
    }

    /// Whether compression was agreed on.
    pub closed spec fn compression(&self) -> bool {
        self.compression
    }

    /// The most bytes that the decoder holds at a time.
    pub closed spec fn cap(&self) -> nat {
        self.buf.cap()
    }

    /// A decoder never holds more than its capacity.
    pub closed spec fn wf(&self) -> bool {
        self.buf.wf()
    }

    /// A decoder without compression that holds up to `MAX_CAPACITY` bytes.
    pub fn new() -> (d: PacketDecoder)
        ensures
            d.wf(),
            d.buffered() == Seq::<u8>::empty(),
            !d.compression(),
            d.cap() == MAX_CAPACITY,
    {
        PacketDecoder { buf: WriteBuf::new(), compression: false }
    }

    /// A decoder without compression that holds up to `limit` bytes, and
    /// never more than `MAX_CAPACITY`.
    pub fn with_capacity(limit: usize) -> (d: PacketDecoder)
        ensures
            d.wf(),
            d.buffered() == Seq::<u8>::empty(),
            !d.compression(),
            d.cap() == if limit <= MAX_CAPACITY {
                limit
            } else {
                MAX_CAPACITY
            },
    {
        PacketDecoder { buf: WriteBuf::with_limit(limit), compression: false }
    }

    /// Says whether the frames to come are in the compressed format.
    pub fn set_compression(&mut self, compression: bool)
        requires
            old(self).wf(),
        ensures
            final(self).wf(),
            final(self).buffered() == old(self).buffered(),
            final(self).cap() == old(self).cap(),
            final(self).compression() == compression,
    {
        self.compression = compression;
    }

    /// The number of bytes held.
    pub fn buffered_len(&self) -> (n: usize)
        requires
            self.wf(),
        ensures
            n == self.buffered().len(),
            n <= self.cap(),
    {
        self.buf.len()
    }

    /// Takes in bytes that arrived. Where they would take the decoder over
    /// its capacity none of them is taken.
    pub fn queue_slice(&mut self, bytes: &[u8]) -> (r: Result<(), DecodeError>)
        requires
            old(self).wf(),
        ensures
            final(self).wf(),
            final(self).compression() == old(self).compression(),
            final(self).cap() == old(self).cap(),
            if old(self).buffered().len() + bytes@.len() <= old(self).cap() {
                r is Ok && final(self).buffered() == old(self).buffered() + bytes@
            } else {
                r == Err::<(), DecodeError>(DecodeError::CapacityExceeded)
                    && final(self).buffered() == old(self).buffered()
            },
    {
        match self.buf.put_slice(bytes) {
            Ok(()) => Ok(()),
            Err(_) => Err(DecodeError::CapacityExceeded),
        }
    }

    /// Cuts the next packet off the front of the bytes held.
    ///
    /// `Ok(None)` says that no whole frame is there yet: nothing is taken,
    /// and the call can be made again when more bytes have arrived. A frame
    /// that is all there is taken whole, whether its inside can be read or
    /// not. A length prefix that is at fault is left where it is.
    pub fn decode(&mut self) -> (r: Result<Option<RawPacket>, DecodeError>)
        requires
            old(self).wf(),
        ensures
            final(self).wf(),
            final(self).compression() == old(self).compression(),
            final(self).cap() == old(self).cap(),
            match parse_frame(old(self).buffered(), old(self).compression()) {
                FrameParse::NeedMore => r is Ok && r->Ok_0 is None && final(self).buffered()
                    == old(self).buffered(),
                FrameParse::Packet { id, body, taken } => r is Ok && r->Ok_0 is Some
                    && r->Ok_0->Some_0.id.0 == id && bytes_view(r->Ok_0->Some_0.bytebuf) == body
                    && final(self).buffered() == old(self).buffered().skip(taken as int),
                FrameParse::Broken { error, taken } => r is Err && r->Err_0 == error
                    && final(self).buffered() == old(self).buffered().skip(taken as int),
            },
    {
        let all: &[u8] = self.buf.as_slice();
        let (length, prefix) = match VarInt::decode_slice(all) {
            Ok(pair) => pair,
            Err(DecodeError::UnexpectedEnd) => {
                return Ok(None);
            },
            Err(e) => {
                assert(self.buffered().skip(0) =~= self.buffered());
                return Err(e);
            },
        };
        if length.0 < 0 || length.0 > MAX_PACKET_SIZE {
            assert(self.buffered().skip(0) =~= self.buffered());
            return Err(DecodeError::FrameTooLarge);
        }
        let declared: usize = length.0 as usize;
        if all.len() - prefix < declared {
            return Ok(None);
        }
        let _ = self.buf.take_front(prefix);
        let inner: Bytes = self.buf.take_front(declared);
        proof {
            let held = old(self).buffered();
            assert(held.skip(prefix as int).take(declared as int) =~= held.subrange(
                prefix as int,
                prefix + declared,
            ));
            assert(held.skip(prefix as int).skip(declared as int) =~= held.skip(
                prefix + declared,
            ));
        }
        match packet_of_inner(inner, self.compression) {
            Ok(packet) => Ok(Some(packet)),
            Err(e) => Err(e),
        }
    }
}

/// A frame that declares more than `MAX_PACKET_SIZE` bytes, or fewer than
/// none, is refused for its length: nothing is taken from the stream, and
/// what follows the length prefix does not count.
pub proof fn lemma_oversized_frame_is_refused(stream: Seq<u8>, compression: bool)
    requires
        parse_var_int(stream) is Value,
        parse_var_int(stream)->value > MAX_PACKET_SIZE || parse_var_int(stream)->value < 0,
    ensures
        parse_frame(stream, compression) == (FrameParse::Broken {
            error: DecodeError::FrameTooLarge,
            taken: 0,
        }),
{
}

} // verus!
