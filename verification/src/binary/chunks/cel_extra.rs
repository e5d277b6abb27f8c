//! The cel extra chunk: bounds of a cel with a fraction of a pixel.

use vstd::prelude::*;
use crate::binary::errors::{parsed, ParseError, ParseResult, SpecResult};
use crate::binary::scalars::{dword_at, long_at, read_dword, read_long, skip};

verus! {

/// Bounds of the cel before it, each as a fixed-point number with 16 bits
/// after the point.
#[derive(Debug, Clone, Copy, PartialEq, Eq, Structural)]
pub struct CelExtraChunk {
    /// Bit 1: the bounds are set.
    pub flags: u32,
    pub x: i32,
    pub y: i32,
    pub width: i32,
    pub height: i32,
}

/// Bytes that a cel extra chunk takes.
pub const CEL_EXTRA_SIZE: usize = 36;

/// A cel extra chunk: flags, x, y, width, height, and 16 reserved bytes.
pub open spec fn spec_parse_cel_extra_chunk(s: Seq<u8>) -> SpecResult<CelExtraChunk> {
    if s.len() < CEL_EXTRA_SIZE {
        Err(ParseError::UnexpectedEof)
    } else {
        Ok(
            (
                s.skip(CEL_EXTRA_SIZE as int),
                CelExtraChunk {
                    flags: dword_at(s, 0),
                    x: long_at(s, 4),
                    y: long_at(s, 8),
                    width: long_at(s, 12),
                    height: long_at(s, 16),
                },
            ),
        )
    }
}

pub fn parse_cel_extra_chunk(input: &[u8]) -> (r: ParseResult<'_, CelExtraChunk>)
    ensures
        parsed(r, spec_parse_cel_extra_chunk(input@)),
{
    if input.len() < CEL_EXTRA_SIZE {
        return Err(ParseError::UnexpectedEof);
    }
    let chunk = CelExtraChunk {
        flags: read_dword(input, 0),
        x: read_long(input, 4),
        y: read_long(input, 8),
        width: read_long(input, 12),
        height: read_long(input, 16),
    };
    Ok((skip(input, CEL_EXTRA_SIZE), chunk))
}

} // verus!
