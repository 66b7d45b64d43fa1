//! The zlib streams of the `flate2` crate.
//!
//! Nothing here is proved. What the compressor writes and what the
//! decompressor makes of given bytes is not spelled out: each result only
//! gets a name, which says that the same arguments give the same result.

use std::io::Write;
use vstd::prelude::*;

verus! {

#[verifier::external_type_specification]
#[verifier::external_body]
pub struct ExIoError(std::io::Error);

#[verifier::external_type_specification]
#[verifier::external_body]
pub struct ExDecompressError(flate2::DecompressError);

/// How a call of the decompressor ended, as `flate2::Status` tells it.
#[derive(Debug, Clone, Copy, PartialEq, Eq, Structural)]
pub enum StreamStatus {
    /// `Status::Ok`: progress was made and the stream has not ended.
    Progress,
    /// `Status::BufError`: no progress was possible, input or room for
    /// output ran out.
    Stalled,
    /// `Status::StreamEnd`: the whole stream was read and its checksum agrees.
    Ended,
}

/// What came of inflating into a buffer of a given size.
pub struct Inflated {
    /// How the call ended.
    pub status: StreamStatus,
    /// The output buffer, as long as it was made.
    pub bytes: Vec<u8>,
    /// The number of bytes the decompressor wrote into it.
    pub written: u64,
}

/// The zlib stream that `flate2` writes for `data` at `level`, or `None`
/// where it reports an error.
pub uninterp spec fn deflated(data: Seq<u8>, level: u32) -> Option<Seq<u8>>;

/// What `flate2` makes of the zlib stream `data` when it is given `size`
/// bytes of room for output: the status of the call, the output buffer and
/// the number of bytes written, or `None` where it reports corrupt input.
pub uninterp spec fn inflated(data: Seq<u8>, size: nat) -> Option<(StreamStatus, Seq<u8>, u64)>;

/// A `flate2::write::ZlibEncoder` over a fresh vector, given all of `data`
/// and finished. The result is a function of `data` and `level` alone.
/// Levels above 9 are left out: `flate2` asserts on them in debug builds.
#[verifier::external_body]
pub(crate) fn zlib_deflate(data: &[u8], level: u32) -> (r: Result<Vec<u8>, std::io::Error>)
    requires
        level <= 9,
    ensures
        match r {
            Ok(stream) => deflated(data@, level) == Some(stream@),
            Err(_) => deflated(data@, level) is None,
        },
{
    let mut encoder = flate2::write::ZlibEncoder::new(Vec::new(), flate2::Compression::new(level));
    encoder.write_all(data)?;
    encoder.finish()
}

/// One call of `flate2::Decompress::decompress` on a fresh zlib
/// decompressor, with all of `data` as input, a zeroed buffer of `size`
/// bytes as output and `FlushDecompress::Finish`. The result is a function
/// of `data` and `size` alone, and the buffer handed back has `size` bytes.
/// Sizes past `isize::MAX`, which no buffer can have, are left out.
#[verifier::external_body]
pub(crate) fn zlib_inflate(data: &[u8], size: usize) -> (r: Result<
    Inflated,
    flate2::DecompressError,
>)
    requires
        size <= isize::MAX,
    ensures
        match r {
            Ok(out) => inflated(data@, size as nat) == Some((out.status, out.bytes@, out.written))
                && out.bytes@.len() == size,
            Err(_) => inflated(data@, size as nat) is None,
        },
{
    let mut bytes = vec![0u8; size];
    let mut inflater = flate2::Decompress::new(true);
    let status = match inflater.decompress(data, &mut bytes, flate2::FlushDecompress::Finish)? {
        flate2::Status::Ok => StreamStatus::Progress,
        flate2::Status::BufError => StreamStatus::Stalled,
        flate2::Status::StreamEnd => StreamStatus::Ended,
    };
    Ok(Inflated { status, bytes, written: inflater.total_out() })
}

} // verus!
