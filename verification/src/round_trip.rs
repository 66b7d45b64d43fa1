//! What the two halves of the frame codec owe each other: a frame that the
//! encoder wrote is cut whole by the decoder, gives back the packet that
//! went in, and is never mistaken for a frame while part of it is missing.

use vstd::prelude::*;
use crate::error::DecodeError;
use crate::codec::var_int::{
    lemma_var_int_cut_short, lemma_var_int_round_trip, parse_var_int, var_int_bytes, var_int_len,
    VarIntParse,
};
use crate::packet_decoder::{parse_frame, parse_inner, parse_packet, FrameParse};
use crate::packet_encoder::{
    frame_bytes, framed, packed_inner, packet_payload, unpacked_inner, CompressionInfo,
};
use crate::specs::zlib::{deflated, inflated, StreamStatus};
use crate::MAX_PACKET_SIZE;

verus! {

/// Whether the decompressor undoes what the compressor does to `payload`
/// at `level`: where there is a stream, inflating it with exactly the
/// payload's length as room ends the stream and gives the payload back.
pub open spec fn inflates_back(payload: Seq<u8>, level: u32) -> bool {
    match deflated(payload, level) {
        Some(stream) => inflated(stream, payload.len()) == Some(
            (StreamStatus::Ended, payload, payload.len() as u64),
        ),
        None => true,
    }
}

/// A payload that was written reads back as the ID and the bytes that it
/// was made of.
pub proof fn lemma_payload_round_trip(id: i32, body: Seq<u8>)
    ensures
        parse_packet(packet_payload(id, body)) == Ok::<(i32, Seq<u8>), DecodeError>((id, body)),
{
    lemma_var_int_round_trip(id, body);
    assert(packet_payload(id, body).skip(var_int_len(id) as int) =~= body);
}

/// The decoder cuts a frame that `framed` made exactly at its end, whatever
/// follows it in the stream, and reads its inside.
pub proof fn lemma_framed_is_cut_whole(inner: Seq<u8>, rest: Seq<u8>, compression: bool)
    requires
        framed(inner) is Ok,
    ensures
        parse_frame(framed(inner)->Ok_0 + rest, compression) == (match parse_inner(
            inner,
            compression,
        ) {
            Ok((id, body)) => FrameParse::Packet { id, body, taken: framed(inner)->Ok_0.len() },
            Err(error) => FrameParse::Broken { error, taken: framed(inner)->Ok_0.len() },
        }),
{
    let declared = inner.len() as i32;
    let frame = framed(inner)->Ok_0;
    let stream = frame + rest;
    let prefix = var_int_len(declared) as int;
    lemma_var_int_round_trip(declared, inner + rest);
    assert(stream =~= var_int_bytes(declared) + (inner + rest));
    assert(stream.subrange(prefix, prefix + declared) =~= inner);
}

/// While a byte of a frame is missing the decoder asks for more.
pub proof fn lemma_framed_cut_short_needs_more(inner: Seq<u8>, k: int, compression: bool)
    requires
        framed(inner) is Ok,
        0 <= k < framed(inner)->Ok_0.len(),
    ensures
        parse_frame(framed(inner)->Ok_0.take(k), compression) == FrameParse::NeedMore,
{
    let declared = inner.len() as i32;
    let frame = framed(inner)->Ok_0;
    let prefix = var_int_len(declared) as int;
    lemma_var_int_round_trip(declared, inner);
    if k < prefix {
        lemma_var_int_cut_short(declared, k);
        assert(frame.take(k) =~= var_int_bytes(declared).take(k));
    } else {
        let part = inner.take(k - prefix);
        lemma_var_int_round_trip(declared, part);
        assert(frame.take(k) =~= var_int_bytes(declared) + part);
    }
}

/// The inside of a frame without compression reads as the packet.
proof fn lemma_inner_plain(id: i32, body: Seq<u8>)
    ensures
        parse_inner(packet_payload(id, body), false) == Ok::<(i32, Seq<u8>), DecodeError>(
            (id, body),
        ),
{
    lemma_payload_round_trip(id, body);
}

/// The inside of a frame with a payload that was left as it is reads as
/// the packet.
proof fn lemma_inner_unpacked(id: i32, body: Seq<u8>)
    ensures
        parse_inner(unpacked_inner(packet_payload(id, body)), true) == Ok::<
            (i32, Seq<u8>),
            DecodeError,
        >((id, body)),
{
    let payload = packet_payload(id, body);
    let inner = unpacked_inner(payload);
    lemma_payload_round_trip(id, body);
    assert(inner[0] == 0u8);
    assert(inner.take(1) =~= seq![0u8]);
    assert(parse_var_int(inner) == (VarIntParse::Value { value: 0, len: 1 }));
    assert(inner.skip(1) =~= payload);
}

/// The inside of a frame with a compressed payload reads as the packet,
/// where the stream inflates back to the payload.
proof fn lemma_inner_packed(id: i32, body: Seq<u8>, stream: Seq<u8>)
    requires
        packet_payload(id, body).len() <= MAX_PACKET_SIZE,
        inflated(stream, packet_payload(id, body).len()) == Some(
            (
                StreamStatus::Ended,
                packet_payload(id, body),
                packet_payload(id, body).len() as u64,
            ),
        ),
    ensures
        parse_inner(packed_inner(packet_payload(id, body).len(), stream), true) == Ok::<
            (i32, Seq<u8>),
            DecodeError,
        >((id, body)),
{
    let payload = packet_payload(id, body);
    let declared = payload.len() as i32;
    let inner = packed_inner(payload.len(), stream);
    lemma_payload_round_trip(id, body);
    lemma_var_int_round_trip(id, body);
    assert(payload.len() >= 1);
    lemma_var_int_round_trip(declared, stream);
    assert(inner.skip(var_int_len(declared) as int) =~= stream);
}

/// Frame round trip. A packet that the encoder framed comes out of the
/// decoder with the ID and the bytes that went in: without compression,
/// with compression and a payload under the threshold, and with a
/// compressed payload wherever the decompressor undoes the compressor. The
/// frame is taken whole and what follows it in the stream is left.
pub proof fn lemma_frame_round_trip(
    id: i32,
    body: Seq<u8>,
    compression: Option<CompressionInfo>,
    rest: Seq<u8>,
)
    requires
        frame_bytes(packet_payload(id, body), compression) is Ok,
        compression matches Some(info) ==> inflates_back(
            packet_payload(id, body),
            info.spec_effective_level(),
        ),
    ensures
        parse_frame(
            frame_bytes(packet_payload(id, body), compression)->Ok_0 + rest,
            compression is Some,
        ) == (FrameParse::Packet {
            id,
            body,
            taken: frame_bytes(packet_payload(id, body), compression)->Ok_0.len(),
        }),
{
    let payload = packet_payload(id, body);
    match compression {
        None => {
            lemma_inner_plain(id, body);
            lemma_framed_is_cut_whole(payload, rest, false);
        },
        Some(info) => {
            if payload.len() >= info.threshold {
                let stream = deflated(payload, info.spec_effective_level())->Some_0;
                lemma_inner_packed(id, body, stream);
                lemma_framed_is_cut_whole(packed_inner(payload.len(), stream), rest, true);
            } else {
                lemma_inner_unpacked(id, body);
                lemma_framed_is_cut_whole(unpacked_inner(payload), rest, true);
            }
        },
    }
}

/// Partial streams. Of a frame that the encoder wrote, every proper prefix
/// makes the decoder ask for more, under either setting of compression;
/// only the last byte completes the frame.
pub proof fn lemma_partial_frame_needs_more(
    payload: Seq<u8>,
    compression: Option<CompressionInfo>,
    k: int,
    decoding_compressed: bool,
)
    requires
        frame_bytes(payload, compression) is Ok,
        0 <= k < frame_bytes(payload, compression)->Ok_0.len(),
    ensures
        parse_frame(frame_bytes(payload, compression)->Ok_0.take(k), decoding_compressed)
            == FrameParse::NeedMore,
{
    match compression {
        None => {
            lemma_framed_cut_short_needs_more(payload, k, decoding_compressed);
        },
        Some(info) => {
            if payload.len() >= info.threshold {
                let stream = deflated(payload, info.spec_effective_level())->Some_0;
                lemma_framed_cut_short_needs_more(
                    packed_inner(payload.len(), stream),
                    k,
                    decoding_compressed,
                );
            } else {
                lemma_framed_cut_short_needs_more(unpacked_inner(payload), k, decoding_compressed);
            }
        },
    }
}

} // verus!
