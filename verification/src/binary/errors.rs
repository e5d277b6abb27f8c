//! Failures of the byte-level decoder.

use vstd::prelude::*;

verus! {

/// Why a run of bytes is not a well-formed piece of an Aseprite file.
#[derive(Debug, Clone, Copy, PartialEq, Eq, Structural)]
pub enum ParseError {
    /// The input ends before the field is complete.
    UnexpectedEof,
    /// The file header does not carry the file magic number.
    InvalidFileMagic(u16),
    /// The file header declares a size that is smaller than the header or
    /// larger than the bytes at hand.
    InvalidFileSize(u32),
    /// A frame declares a size that is smaller than its own header or larger
    /// than the bytes that are left.
    InvalidFrameSize(u32),
    /// A frame header does not carry the frame magic number.
    InvalidFrameMagic(u16),
    /// A chunk declares a size that is smaller than its own header or larger
    /// than the bytes that are left.
    InvalidChunkSize(u32),
    /// The first index, the last index and the size of a palette chunk do not
    /// agree.
    InvalidPaletteRange,
    /// A tag runs from a frame to an earlier frame.
    InvalidFrameRange(u16, u16),
    /// A string is not valid UTF-8.
    InvalidUtf8,
    /// A tileset carries both or neither of its two content flags.
    InvalidTilesetFlags(u32),
    /// The file holds no frame at all.
    NoFrames,
}

/// What a decoder returns: the bytes that follow the value, and the value.
pub type ParseResult<'a, T> = Result<(&'a [u8], T), ParseError>;

/// What the specification of a decoder returns.
pub type SpecResult<T> = Result<(Seq<u8>, T), ParseError>;

/// `r` is the outcome `s` for a value that is its own model.
pub open spec fn parsed<T>(r: Result<(&[u8], T), ParseError>, s: SpecResult<T>) -> bool {
    match r {
        Ok((rest, v)) => s == Ok::<(Seq<u8>, T), ParseError>((rest@, v)),
        Err(e) => s == Err::<(Seq<u8>, T), ParseError>(e),
    }
}

/// `r` is the outcome `s` for a value that is modelled by its view.
pub open spec fn parsed_view<T: View>(r: Result<(&[u8], T), ParseError>, s: SpecResult<T::V>) -> bool {
    match r {
        Ok((rest, v)) => s == Ok::<(Seq<u8>, T::V), ParseError>((rest@, v@)),
        Err(e) => s == Err::<(Seq<u8>, T::V), ParseError>(e),
    }
}

} // verus!
