//! The 128 bytes that every file starts with.

use vstd::prelude::*;
use crate::binary::color_depth::ColorDepth;
use crate::binary::errors::{parsed, ParseError, ParseResult, SpecResult};
use crate::binary::scalars::{
    dword_at, read_dword, read_short, read_word, short_at, skip, word_at,
};

verus! {

/// Number of bytes in the file header.
pub const HEADER_SIZE: usize = 128;

/// The word that marks a file as an Aseprite file.
pub const HEADER_MAGIC_NUMBER: u16 = 0xA5E0;

#[derive(Debug, Clone, Copy, PartialEq, Eq, Structural)]
pub struct Header {
    /// Size of the whole file in bytes, header included.
    pub file_size: u32,
    /// Number of frames the file declares.
    pub frames: u16,
    /// Width of the canvas in pixels.
    pub width: u16,
    /// Height of the canvas in pixels.
    pub height: u16,
    pub color_depth: ColorDepth,
    pub flags: u32,
    /// Milliseconds between frames; superseded by the duration of each frame.
    pub speed: u16,
    /// Palette entry that stands for the transparent color. It has a
    /// meaning only in indexed files.
    pub transparent_index: u8,
    /// Number of colors; 0 means 256 in old files.
    pub color_count: u16,
    pub pixel_width: u8,
    pub pixel_height: u8,
    pub grid_x: i16,
    pub grid_y: i16,
    pub grid_width: u16,
    pub grid_height: u16,
}

/// The header that the first 128 bytes of `s` lay out.
pub open spec fn header_fields(s: Seq<u8>) -> Header {
    Header {
        file_size: dword_at(s, 0),
        frames: word_at(s, 6),
        width: word_at(s, 8),
        height: word_at(s, 10),
        color_depth: ColorDepth::spec_from_word(word_at(s, 12)),
        flags: dword_at(s, 14),
        speed: word_at(s, 18),
        transparent_index: s[28],
        color_count: word_at(s, 32),
        pixel_width: s[34],
        pixel_height: s[35],
        grid_x: short_at(s, 36),
        grid_y: short_at(s, 38),
        grid_width: word_at(s, 40),
        grid_height: word_at(s, 42),
    }
}

/// A header is 128 bytes with the magic number at offset 4.
pub open spec fn spec_parse_header(s: Seq<u8>) -> SpecResult<Header> {
    if s.len() < HEADER_SIZE {
        Err(ParseError::UnexpectedEof)
    } else if word_at(s, 4) != HEADER_MAGIC_NUMBER {
        Err(ParseError::InvalidFileMagic(word_at(s, 4)))
    } else {
        Ok((s.skip(HEADER_SIZE as int), header_fields(s)))
    }
}

pub fn parse_header(input: &[u8]) -> (r: ParseResult<'_, Header>)
    ensures
        parsed(r, spec_parse_header(input@)),
{
    if input.len() < HEADER_SIZE {
        return Err(ParseError::UnexpectedEof);
    }
    let magic = read_word(input, 4);
    if magic != HEADER_MAGIC_NUMBER {
        return Err(ParseError::InvalidFileMagic(magic));
    }
    let header = Header {
        file_size: read_dword(input, 0),
        frames: read_word(input, 6),
        width: read_word(input, 8),
        height: read_word(input, 10),
        color_depth: ColorDepth::from_word(read_word(input, 12)),
        flags: read_dword(input, 14),
        speed: read_word(input, 18),
        transparent_index: input[28],
        color_count: read_word(input, 32),
        pixel_width: input[34],
        pixel_height: input[35],
        grid_x: read_short(input, 36),
        grid_y: read_short(input, 38),
        grid_width: read_word(input, 40),
        grid_height: read_word(input, 42),
    };
    Ok((skip(input, HEADER_SIZE), header))
}

} // verus!
