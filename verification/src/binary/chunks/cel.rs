//! The cel chunk: what one layer shows in one frame.

use vstd::prelude::*;
use crate::binary::errors::{ParseError, ParseResult, SpecResult};
use crate::binary::image::{Image, ImageView};
use crate::binary::scalars::{
    dword_at, read_dword, read_short, read_word, short_at, skip, word_at,
};

verus! {

#[derive(Debug, Clone, Copy)]
pub struct CelChunk<'a> {
    /// Index of the layer that the cel belongs to.
    pub layer_index: u16,
    /// Horizontal position of the left edge on the canvas.
    pub x: i16,
    /// Vertical position of the top edge on the canvas.
    pub y: i16,
    pub opacity: u8,
    /// Where the cel is drawn relative to its layer: below zero before the
    /// layer's own place, above zero after it.
    pub z_index: i16,
    pub content: CelContent<'a>,
}

#[derive(Debug, Clone, Copy)]
pub enum CelContent<'a> {
    /// The cel carries its own pixels, raw or compressed.
    Image(Image<'a>),
    /// The cel shows what the same layer shows in an earlier frame.
    LinkedCel { frame_position: u16 },
    /// The cel is a grid of tiles; its tiles are kept compressed.
    CompressedTilemap {
        /// Width in tiles.
        width: u16,
        /// Height in tiles.
        height: u16,
        bits_per_tile: u16,
        bitmask_tile_id: u32,
        bitmask_x_flip: u32,
        bitmask_y_flip: u32,
        bitmask_diagonal_flip: u32,
        data: &'a [u8],
    },
    /// A kind of content this decoder has no name for, kept as read.
    Unknown(u16),
}

pub enum CelContentView {
    Image(ImageView),
    LinkedCel { frame_position: u16 },
    CompressedTilemap {
        width: u16,
        height: u16,
        bits_per_tile: u16,
        bitmask_tile_id: u32,
        bitmask_x_flip: u32,
        bitmask_y_flip: u32,
        bitmask_diagonal_flip: u32,
        data: Seq<u8>,
    },
    Unknown(u16),
}

pub struct CelChunkView {
    pub layer_index: u16,
    pub x: i16,
    pub y: i16,
    pub opacity: u8,
    pub z_index: i16,
    pub content: CelContentView,
}

impl View for CelContent<'_> {
    type V = CelContentView;

    open spec fn view(&self) -> CelContentView {
        match *self {
            CelContent::Image(image) => CelContentView::Image(image@),
            CelContent::LinkedCel { frame_position } => CelContentView::LinkedCel { frame_position },
            CelContent::CompressedTilemap {
                width,
                height,
                bits_per_tile,
                bitmask_tile_id,
                bitmask_x_flip,
                bitmask_y_flip,
                bitmask_diagonal_flip,
                data,
            } => CelContentView::CompressedTilemap {
                width,
                height,
                bits_per_tile,
                bitmask_tile_id,
                bitmask_x_flip,
                bitmask_y_flip,
                bitmask_diagonal_flip,
                data: data@,
            },
            CelContent::Unknown(kind) => CelContentView::Unknown(kind),
        }
    }
}

impl View for CelChunk<'_> {
    type V = CelChunkView;

    open spec fn view(&self) -> CelChunkView {
        CelChunkView {
            layer_index: self.layer_index,
            x: self.x,
            y: self.y,
            opacity: self.opacity,
            z_index: self.z_index,
            content: self.content@,
        }
    }
}

/// Bytes that a cel takes before its content.
pub const CEL_FIXED_SIZE: usize = 16;

/// Bytes that a tilemap takes before its tiles.
pub const TILEMAP_FIXED_SIZE: usize = 32;

/// An image: width, height, and the pixels, which are all that is left of
/// the chunk.
pub open spec fn spec_parse_image(s: Seq<u8>, compressed: bool) -> SpecResult<CelContentView> {
    if s.len() < 4 {
        Err(ParseError::UnexpectedEof)
    } else {
        Ok(
            (
                Seq::<u8>::empty(),
                CelContentView::Image(
                    ImageView {
                        width: word_at(s, 0),
                        height: word_at(s, 2),
                        data: s.skip(4),
                        compressed,
                    },
                ),
            ),
        )
    }
}

/// A tilemap: width and height in tiles, bits per tile, four bitmasks, 10
/// reserved bytes, and the compressed tiles, which are all that is left of
/// the chunk.
pub open spec fn spec_parse_tilemap(s: Seq<u8>) -> SpecResult<CelContentView> {
    if s.len() < TILEMAP_FIXED_SIZE {
        Err(ParseError::UnexpectedEof)
    } else {
        Ok(
            (
                Seq::<u8>::empty(),
                CelContentView::CompressedTilemap {
                    width: word_at(s, 0),
                    height: word_at(s, 2),
                    bits_per_tile: word_at(s, 4),
                    bitmask_tile_id: dword_at(s, 6),
                    bitmask_x_flip: dword_at(s, 10),
                    bitmask_y_flip: dword_at(s, 14),
                    bitmask_diagonal_flip: dword_at(s, 18),
                    data: s.skip(TILEMAP_FIXED_SIZE as int),
                },
            ),
        )
    }
}

/// The content of a cel of the kind `kind`: 0 a raw image, 1 a link to an
/// earlier frame, 2 a compressed image, 3 a compressed tilemap. Any other
/// kind is kept as it is and nothing more is read.
pub open spec fn spec_parse_cel_content(s: Seq<u8>, kind: u16) -> SpecResult<CelContentView> {
    if kind == 0 {
        spec_parse_image(s, false)
    } else if kind == 1 {
        if s.len() < 2 {
            Err(ParseError::UnexpectedEof)
        } else {
            Ok((s.skip(2), CelContentView::LinkedCel { frame_position: word_at(s, 0) }))
        }
    } else if kind == 2 {
        spec_parse_image(s, true)
    } else if kind == 3 {
        spec_parse_tilemap(s)
    } else {
        Ok((s, CelContentView::Unknown(kind)))
    }
}

/// A cel: layer index, x, y, opacity, kind of content, z-index, 5 reserved
/// bytes, and the content.
pub open spec fn spec_parse_cel_chunk(s: Seq<u8>) -> SpecResult<CelChunkView> {
    if s.len() < CEL_FIXED_SIZE {
        Err(ParseError::UnexpectedEof)
    } else {
        match spec_parse_cel_content(s.skip(CEL_FIXED_SIZE as int), word_at(s, 7)) {
            Err(e) => Err(e),
            Ok((rest, content)) => Ok(
                (
                    rest,
                    CelChunkView {
                        layer_index: word_at(s, 0),
                        x: short_at(s, 2),
                        y: short_at(s, 4),
                        opacity: s[6],
                        z_index: short_at(s, 9),
                        content,
                    },
                ),
            ),
        }
    }
}

fn parse_image(input: &[u8], compressed: bool) -> (r: ParseResult<'_, CelContent<'_>>)
    ensures
        match r {
            Ok((rest, content)) => spec_parse_image(input@, compressed) == Ok::<_, ParseError>(
                (rest@, content@),
            ),
            Err(e) => spec_parse_image(input@, compressed) == Err::<(Seq<u8>, CelContentView), _>(e),
        },
{
    if input.len() < 4 {
        return Err(ParseError::UnexpectedEof);
    }
    let image = Image {
        width: read_word(input, 0),
        height: read_word(input, 2),
        data: skip(input, 4),
        compressed,
    };
    let rest = skip(input, input.len());
    assert(rest@ =~= Seq::<u8>::empty());
    Ok((rest, CelContent::Image(image)))
}

fn parse_tilemap(input: &[u8]) -> (r: ParseResult<'_, CelContent<'_>>)
    ensures
        match r {
            Ok((rest, content)) => spec_parse_tilemap(input@) == Ok::<_, ParseError>(
                (rest@, content@),
            ),
            Err(e) => spec_parse_tilemap(input@) == Err::<(Seq<u8>, CelContentView), _>(e),
        },
{
    if input.len() < TILEMAP_FIXED_SIZE {
        return Err(ParseError::UnexpectedEof);
    }
    let content = CelContent::CompressedTilemap {
        width: read_word(input, 0),
        height: read_word(input, 2),
        bits_per_tile: read_word(input, 4),
        bitmask_tile_id: read_dword(input, 6),
        bitmask_x_flip: read_dword(input, 10),
        bitmask_y_flip: read_dword(input, 14),
        bitmask_diagonal_flip: read_dword(input, 18),
        data: skip(input, TILEMAP_FIXED_SIZE),
    };
    let rest = skip(input, input.len());
    assert(rest@ =~= Seq::<u8>::empty());
    Ok((rest, content))
}

pub fn parse_cel_chunk(input: &[u8]) -> (r: ParseResult<'_, CelChunk<'_>>)
    ensures
        match r {
            Ok((rest, chunk)) => spec_parse_cel_chunk(input@) == Ok::<_, ParseError>(
                (rest@, chunk@),
            ),
            Err(e) => spec_parse_cel_chunk(input@) == Err::<(Seq<u8>, CelChunkView), _>(e),
        },
{
    if input.len() < CEL_FIXED_SIZE {
        return Err(ParseError::UnexpectedEof);
    }
    let layer_index = read_word(input, 0);
    let x = read_short(input, 2);
    let y = read_short(input, 4);
    let opacity = input[6];
    let kind = read_word(input, 7);
    let z_index = read_short(input, 9);
    let body = skip(input, CEL_FIXED_SIZE);
    let (rest, content) = match kind {
        0 => parse_image(body, false)?,
        1 => {
            if body.len() < 2 {
                return Err(ParseError::UnexpectedEof);
            }
            (skip(body, 2), CelContent::LinkedCel { frame_position: read_word(body, 0) })
        },
        2 => parse_image(body, true)?,
        3 => parse_tilemap(body)?,
        _ => (body, CelContent::Unknown(kind)),
    };
    Ok((rest, CelChunk { layer_index, x, y, opacity, z_index, content }))
}

} // verus!
