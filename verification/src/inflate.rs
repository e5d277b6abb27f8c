//! Decompression of zlib streams with the `flate2` crate.

use vstd::prelude::*;
use crate::make_image::LoadImageError;

verus! {

/// How a run of the decompressor ended.
#[derive(Debug, Clone, Copy, PartialEq, Eq, Structural)]
pub enum InflateStatus {
    /// The decompressor made progress but the stream has not ended.
    Progress,
    /// The decompressor ran out of input or of room for its output.
    BufError,
    /// The stream ended and its checksum holds.
    StreamEnd,
    /// The input is not a zlib stream.
    Corrupt,
}

/// What a run of the decompressor left behind.
#[derive(Debug)]
pub struct Inflated {
    pub status: InflateStatus,
    /// Number of bytes that the decompressor wrote.
    pub total_out: u64,
    /// The buffer that the decompressor wrote into, from its start.
    pub output: Vec<u8>,
}

/// What decompressing `data` as one zlib stream into a zeroed buffer of
/// `capacity` bytes gives: how the run ended, how many bytes it wrote, and
/// the buffer after it.
pub uninterp spec fn zlib_inflate(data: Seq<u8>, capacity: nat) -> (InflateStatus, u64, Seq<u8>);

/// Runs `flate2::Decompress::decompress` once, on a decompressor made for a
/// stream with a zlib header, with all of `data` as input, a zeroed buffer
/// of `capacity` bytes as output, and the request to finish. The outcome
/// depends on `data` and `capacity` alone; the buffer keeps its length.
#[verifier::external_body]
fn inflate(data: &[u8], capacity: usize) -> (inflated: Inflated)
    requires
        capacity <= isize::MAX,
    ensures
        (inflated.status, inflated.total_out, inflated.output@) == zlib_inflate(
            data@,
            capacity as nat,
        ),
        inflated.output@.len() == capacity,
{
    let mut output = vec![0u8; capacity];
    let mut decompressor = flate2::Decompress::new(true);
    let status = match decompressor.decompress(data, &mut output, flate2::FlushDecompress::Finish) {
        Ok(flate2::Status::Ok) => InflateStatus::Progress,
        Ok(flate2::Status::BufError) => InflateStatus::BufError,
        Ok(flate2::Status::StreamEnd) => InflateStatus::StreamEnd,
        Err(_) => InflateStatus::Corrupt,
    };
    Inflated { status, total_out: decompressor.total_out(), output }
}

/// The bytes that a run of the decompressor yields for a buffer of `size`
/// bytes: the buffer, if the stream ended and filled it to the last byte.
pub open spec fn spec_check_inflated(
    status: InflateStatus,
    total_out: u64,
    output: Seq<u8>,
    size: nat,
) -> Result<Seq<u8>, LoadImageError> {
    if status == InflateStatus::StreamEnd && total_out == size && output.len() == size {
        Ok(output)
    } else {
        Err(LoadImageError::DecompressError)
    }
}

/// The `size` bytes that the zlib stream `data` holds. A stream that holds
/// fewer or more bytes, or that is damaged, is a failure.
pub open spec fn spec_decompress(data: Seq<u8>, size: nat) -> Result<Seq<u8>, LoadImageError> {
    let (status, total_out, output) = zlib_inflate(data, size);
    spec_check_inflated(status, total_out, output, size)
}

/// Judges a run of the decompressor that was to fill `size` bytes.
pub fn check_inflated(inflated: Inflated, size: usize) -> (r: Result<Vec<u8>, LoadImageError>)
    ensures
        match r {
            Ok(bytes) => spec_check_inflated(
                inflated.status,
                inflated.total_out,
                inflated.output@,
                size as nat,
            ) == Ok::<Seq<u8>, LoadImageError>(bytes@),
            Err(e) => spec_check_inflated(
                inflated.status,
                inflated.total_out,
                inflated.output@,
                size as nat,
            ) == Err::<Seq<u8>, LoadImageError>(e),
        },
{
    match inflated.status {
        InflateStatus::StreamEnd => {
            if inflated.total_out == size as u64 && inflated.output.len() == size {
                Ok(inflated.output)
            } else {
                Err(LoadImageError::DecompressError)
            }
        },
        _ => Err(LoadImageError::DecompressError),
    }
}

/// Decompresses the zlib stream `data`, which is to hold `size` bytes.
pub fn decompress(data: &[u8], size: usize) -> (r: Result<Vec<u8>, LoadImageError>)
    requires
        size <= isize::MAX,
    ensures
        match r {
            Ok(bytes) => spec_decompress(data@, size as nat) == Ok::<Seq<u8>, LoadImageError>(
                bytes@,
            ),
            Err(e) => spec_decompress(data@, size as nat) == Err::<Seq<u8>, LoadImageError>(e),
        },
{
    check_inflated(inflate(data, size), size)
}

} // verus!
