//! The outbound half of the frame codec: packets go in, frames come out.

use vstd::prelude::*;
use bytes::Bytes;
use crate::bytebuf::packet_id::Packet;
use crate::bytebuf::write::{WriteBuf, MAX_CAPACITY};
use crate::codec::var_int::{var_int_bytes, VarInt};
use crate::error::EncodeError;
use crate::specs::buffers::bytes_view;
use crate::specs::zlib::{deflated, zlib_deflate};
use crate::{ClientPacket, RawPacket, MAX_PACKET_SIZE};

verus! {

/// The highest compression level.
pub const MAX_COMPRESSION_LEVEL: u32 = 9;

/// The compression that was agreed on for a connection.
#[derive(Debug, Clone, Copy, PartialEq, Eq, Structural)]
pub struct CompressionInfo {
    /// Payloads of at least this many bytes are compressed.
    pub threshold: u32,
    /// The compression level, 0 to 9. A higher number is taken for 9.
    pub level: u32,
}

impl CompressionInfo {
    /// The level that is used: `level`, or 9 where `level` is above it.
    pub open spec fn spec_effective_level(&self) -> u32 {
        if self.level <= MAX_COMPRESSION_LEVEL {
            self.level
        } else {
            MAX_COMPRESSION_LEVEL
        }
    }

    /// The level that is used: `level`, or 9 where `level` is above it.
    #[verifier::when_used_as_spec(spec_effective_level)]
    pub fn effective_level(&self) -> (level: u32)
        ensures
            level == self.spec_effective_level(),
    {
        if self.level <= MAX_COMPRESSION_LEVEL {
            self.level
        } else {
            MAX_COMPRESSION_LEVEL
        }
    }
}

/// The payload of a packet: its ID as a `VarInt`, then the bytes of its fields.
pub open spec fn packet_payload(id: i32, body: Seq<u8>) -> Seq<u8> {
    var_int_bytes(id) + body
}

/// A frame around `inner`: the length of `inner` as a `VarInt`, then
/// `inner`. No frame declares more than `MAX_PACKET_SIZE` bytes.
pub open spec fn framed(inner: Seq<u8>) -> Result<Seq<u8>, EncodeError> {
    if inner.len() > MAX_PACKET_SIZE {
        Err(EncodeError::FrameTooLarge)
    } else {
        Ok(var_int_bytes(inner.len() as i32) + inner)
    }
}

/// The inside of a frame with compression agreed on and a payload under the
/// threshold: a zero in place of the uncompressed length, then the payload
/// as it is.
pub open spec fn unpacked_inner(payload: Seq<u8>) -> Seq<u8> {
    seq![0u8] + payload
}

/// The inside of a compressed frame: the length of the payload before
/// compression as a `VarInt`, then the zlib stream.
pub open spec fn packed_inner(payload_len: nat, stream: Seq<u8>) -> Seq<u8> {
    var_int_bytes(payload_len as i32) + stream
}

/// The frame of a compressed payload, given what the compressor made of it.
pub open spec fn framed_stream(payload_len: nat, stream: Option<Seq<u8>>) -> Result<
    Seq<u8>,
    EncodeError,
> {
    if payload_len > MAX_PACKET_SIZE {
        Err(EncodeError::FrameTooLarge)
    } else {
        match stream {
            Some(z) => framed(packed_inner(payload_len, z)),
            None => Err(EncodeError::CompressionFailed),
        }
    }
}

/// The frame that carries `payload` under the given compression, or why
/// there is none.
pub open spec fn frame_bytes(payload: Seq<u8>, compression: Option<CompressionInfo>) -> Result<
    Seq<u8>,
    EncodeError,
> {
    if payload.len() > MAX_PACKET_SIZE {
        Err(EncodeError::FrameTooLarge)
    } else {
        match compression {
            None => framed(payload),
            Some(info) => if payload.len() >= info.threshold {
                framed_stream(payload.len(), deflated(payload, info.spec_effective_level()))
            } else {
                framed(unpacked_inner(payload))
            },
        }
    }
}

/// Puts the length of `first + second` in front of them.
fn frame_of(first: &[u8], second: &[u8]) -> (r: Result<Vec<u8>, EncodeError>)
    ensures
        match framed(first@ + second@) {
            Ok(frame) => r is Ok && r->Ok_0@ == frame,
            Err(e) => r is Err && r->Err_0 == e,
        },
{
    if first.len() > MAX_PACKET_SIZE as usize || second.len() > MAX_PACKET_SIZE as usize
        - first.len() {
        return Err(EncodeError::FrameTooLarge);
    }
    let total: usize = first.len() + second.len();
    let mut frame: Vec<u8> = VarInt(total as i32).to_bytes();
    frame.extend_from_slice(first);
    frame.extend_from_slice(second);
    assert(frame@ =~= var_int_bytes(total as i32) + (first@ + second@));
    Ok(frame)
}

/// The frame of `payload` on a connection without compression.
pub fn frame_plain(payload: &[u8]) -> (r: Result<Vec<u8>, EncodeError>)
    ensures
        match framed(payload@) {
            Ok(frame) => r is Ok && r->Ok_0@ == frame,
            Err(e) => r is Err && r->Err_0 == e,
        },
{
    let nothing: Vec<u8> = Vec::new();
    assert(nothing@ + payload@ =~= payload@);
    frame_of(nothing.as_slice(), payload)
}

/// The frame of a payload that stays as it is on a connection with
/// compression.
pub fn frame_unpacked(payload: &[u8]) -> (r: Result<Vec<u8>, EncodeError>)
    ensures
        match framed(unpacked_inner(payload@)) {
            Ok(frame) => r is Ok && r->Ok_0@ == frame,
            Err(e) => r is Err && r->Err_0 == e,
        },
{
    let mut marker: Vec<u8> = Vec::new();
    marker.push(0u8);
    assert(marker@ =~= seq![0u8]);
    frame_of(marker.as_slice(), payload)
}

/// The frame of a compressed payload of `payload_len` bytes, given what the
/// compressor handed back: its stream, or nothing where it failed.
pub fn frame_packed(payload_len: usize, stream: Option<Vec<u8>>) -> (r: Result<
    Vec<u8>,
    EncodeError,
>)
    ensures
        match framed_stream(
            payload_len as nat,
            match stream {
                Some(z) => Some(z@),
                None => None,
            },
        ) {
            Ok(frame) => r is Ok && r->Ok_0@ == frame,
            Err(e) => r is Err && r->Err_0 == e,
        },
{
    if payload_len > MAX_PACKET_SIZE as usize {
        return Err(EncodeError::FrameTooLarge);
    }
    match stream {
        Some(z) => {
            let declared: Vec<u8> = VarInt(payload_len as i32).to_bytes();
            frame_of(declared.as_slice(), z.as_slice())
        },
        None => Err(EncodeError::CompressionFailed),
    }
}

/// Turns packets into frames and collects the frames until they are taken.
pub struct PacketEncoder {
    out: WriteBuf,
    compression: Option<CompressionInfo>,
}

/// What appending one payload does to an encoder: its frame is added to
/// the pending bytes, or, where there is no frame or no room for it,
/// nothing changes.
pub open spec fn append_outcome(
    pre: PacketEncoder,
    post: PacketEncoder,
    payload: Seq<u8>,
    r: Result<(), EncodeError>,
) -> bool {
    &&& post.wf()
    &&& post.compression() == pre.compression()
    &&& match frame_bytes(payload, pre.compression()) {
        Ok(frame) => if pre.pending().len() + frame.len() <= MAX_CAPACITY {
            r is Ok && post.pending() == pre.pending() + frame
        } else {
            r == Err::<(), EncodeError>(EncodeError::CapacityExceeded) && post.pending()
                == pre.pending()
        },
        Err(e) => r == Err::<(), EncodeError>(e) && post.pending() == pre.pending(),
    }
}

impl PacketEncoder {
    /// The frames that were appended and not taken yet.
    pub closed spec fn pending(&self) -> Seq<u8> {
        self.out@
    }

    /// The compression in use.
    pub closed spec fn compression(&self) -> Option<CompressionInfo> {
        self.compression
    }

    /// An encoder never holds more than `MAX_CAPACITY` pending bytes.
    pub closed spec fn wf(&self) -> bool {
        self.out.wf() && self.out.cap() == MAX_CAPACITY
    }

    /// An encoder without compression and with nothing pending.
    pub fn new() -> (e: PacketEncoder)
        ensures
            e.wf(),
            e.pending() == Seq::<u8>::empty(),
            e.compression() is None,
    {
        PacketEncoder { out: WriteBuf::new(), compression: None }
    }

    /// Switches compression on, with the given settings, or off.
    pub fn set_compression(&mut self, compression: Option<CompressionInfo>)
        requires
            old(self).wf(),
        ensures
            final(self).wf(),
            final(self).pending() == old(self).pending(),
            final(self).compression() == compression,
    {
        self.compression = compression;
    }

    /// The number of pending bytes.
    pub fn pending_len(&self) -> (n: usize)
        requires
            self.wf(),
        ensures
            n == self.pending().len(),
            n <= MAX_CAPACITY,
    {
        self.out.len()
    }

    /// Hands out the pending frames and starts afresh.
    pub fn take(&mut self) -> (frames: Bytes)
        requires
            old(self).wf(),
        ensures
            final(self).wf(),
            final(self).compression() == old(self).compression(),
            final(self).pending() == Seq::<u8>::empty(),
            bytes_view(frames) == old(self).pending(),
    {
        let held: usize = self.out.len();
        let frames: Bytes = self.out.take_front(held);
        proof {
            assert(old(self).pending().take(held as int) =~= old(self).pending());
            assert(old(self).pending().skip(held as int) =~= Seq::<u8>::empty());
        }
        frames
    }

    /// Frames `payload`, the ID and fields of one packet, and appends the
    /// frame to the pending bytes. With compression agreed on, a payload of
    /// at least the threshold is compressed, and a shorter one is marked as
    /// not compressed.
    pub fn append_payload(&mut self, payload: &[u8]) -> (r: Result<(), EncodeError>)
        requires
            old(self).wf(),
        ensures
            append_outcome(*old(self), *final(self), payload@, r),
    {
        if payload.len() > MAX_PACKET_SIZE as usize {
            return Err(EncodeError::FrameTooLarge);
        }
        let framing: Result<Vec<u8>, EncodeError> = match self.compression {
            None => frame_plain(payload),
            Some(info) => {
                if payload.len() >= info.threshold as usize {
                    let stream: Option<Vec<u8>> = match zlib_deflate(
                        payload,
                        info.effective_level(),
                    ) {
                        Ok(z) => Some(z),
                        Err(_) => None,
                    };
                    frame_packed(payload.len(), stream)
                } else {
                    frame_unpacked(payload)
                }
            },
        };
        match framing {
            Ok(frame) => self.out.put_slice(frame.as_slice()),
            Err(e) => Err(e),
        }
    }

    /// Frames a packet that is given as its ID and the bytes of its fields.
    pub fn append_raw(&mut self, packet: &RawPacket) -> (r: Result<(), EncodeError>)
        requires
            old(self).wf(),
        ensures
            append_outcome(
                *old(self),
                *final(self),
                packet_payload(packet.id.0, bytes_view(packet.bytebuf)),
                r,
            ),
    {
        let mut scratch: WriteBuf = WriteBuf::with_limit(MAX_PACKET_SIZE as usize);
        let body: &[u8] = packet.bytebuf.as_ref();
        if scratch.put_var_int(&packet.id).is_err() || scratch.put_slice(body).is_err() {
            return Err(EncodeError::FrameTooLarge);
        }
        self.append_payload(scratch.as_slice())
    }

    /// Writes a packet's ID and fields and frames them.
    pub fn append_packet<P: ClientPacket>(&mut self, packet: &P) -> (r: Result<(), EncodeError>)
        requires
            old(self).wf(),
        ensures
            append_outcome(
                *old(self),
                *final(self),
                packet_payload(P::spec_packet_id(), packet.wire()),
                r,
            ),
    {
        let mut scratch: WriteBuf = WriteBuf::with_limit(MAX_PACKET_SIZE as usize);
        if scratch.put_var_int(&VarInt(P::packet_id())).is_err() || packet.write(
            &mut scratch,
        ).is_err() {
            return Err(EncodeError::FrameTooLarge);
        }
        self.append_payload(scratch.as_slice())
    }
}

} // verus!
