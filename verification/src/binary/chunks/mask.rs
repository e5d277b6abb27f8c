//! The mask chunk, which current files no longer write.

use vstd::prelude::*;
use crate::binary::errors::{ParseError, ParseResult, SpecResult};
use crate::binary::scalars::{
    parse_string, read_short, read_word, short_at, skip, spec_parse_string, spec_take, take,
    word_at,
};

verus! {

#[derive(Debug, Clone, Copy)]
pub struct MaskChunk<'a> {
    pub x: i16,
    pub y: i16,
    pub width: u16,
    pub height: u16,
    pub name: &'a str,
    /// One bit for each pixel, row by row, each row padded to whole bytes.
    pub data: &'a [u8],
}

pub struct MaskChunkView {
    pub x: i16,
    pub y: i16,
    pub width: u16,
    pub height: u16,
    pub name: Seq<char>,
    pub data: Seq<u8>,
}

impl View for MaskChunk<'_> {
    type V = MaskChunkView;

    open spec fn view(&self) -> MaskChunkView {
        MaskChunkView {
            x: self.x,
            y: self.y,
            width: self.width,
            height: self.height,
            name: self.name@,
            data: self.data@,
        }
    }
}

/// Bytes that a mask takes before its name.
pub const MASK_FIXED_SIZE: usize = 16;

/// Bytes of the bitmap of a mask of the given size.
pub open spec fn mask_data_size(width: u16, height: u16) -> nat {
    (height as nat) * (((width as nat) + 7) / 8)
}

/// A mask: x, y, width, height, 8 reserved bytes, the name, and the bitmap.
pub open spec fn spec_parse_mask_chunk(s: Seq<u8>) -> SpecResult<MaskChunkView> {
    if s.len() < MASK_FIXED_SIZE {
        Err(ParseError::UnexpectedEof)
    } else {
        match spec_parse_string(s.skip(MASK_FIXED_SIZE as int)) {
            Err(e) => Err(e),
            Ok((rest, name)) => match spec_take(
                rest,
                mask_data_size(word_at(s, 4), word_at(s, 6)),
            ) {
                Err(e) => Err(e),
                Ok((rest, data)) => Ok(
                    (
                        rest,
                        MaskChunkView {
                            x: short_at(s, 0),
                            y: short_at(s, 2),
                            width: word_at(s, 4),
                            height: word_at(s, 6),
                            name,
                            data,
                        },
                    ),
                ),
            },
        }
    }
}

pub fn parse_mask_chunk(input: &[u8]) -> (r: ParseResult<'_, MaskChunk<'_>>)
    ensures
        match r {
            Ok((rest, chunk)) => spec_parse_mask_chunk(input@) == Ok::<_, ParseError>(
                (rest@, chunk@),
            ),
            Err(e) => spec_parse_mask_chunk(input@) == Err::<(Seq<u8>, MaskChunkView), _>(e),
        },
{
    if input.len() < MASK_FIXED_SIZE {
        return Err(ParseError::UnexpectedEof);
    }
    let x = read_short(input, 0);
    let y = read_short(input, 2);
    let width = read_word(input, 4);
    let height = read_word(input, 6);
    let (rest, name) = parse_string(skip(input, MASK_FIXED_SIZE))?;
    let row: usize = (width as usize + 7) / 8;
    assert(height as nat * row as nat <= 65535 * 8192) by (nonlinear_arith)
        requires
            height <= 65535,
            row <= 8192,
    ;
    let size: usize = height as usize * row;
    let (rest, data) = take(rest, size)?;
    Ok((rest, MaskChunk { x, y, width, height, name, data }))
}

} // verus!
