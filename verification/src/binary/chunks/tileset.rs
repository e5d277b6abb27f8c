//! The tileset chunk: a set of tiles, in the file itself or in another one.

use vstd::prelude::*;
use crate::binary::errors::{ParseError, ParseResult, SpecResult};
use crate::binary::scalars::{
    dword, dword_at, parse_string, read_dword, read_short, read_word, short_at, skip,
    spec_dword, spec_parse_string, spec_take, take, word_at,
};

verus! {

#[derive(Debug, Clone, Copy)]
pub struct TilesetChunk<'a> {
    /// Tileset ID.
    pub id: u32,
    pub flags: TilesetFlags,
    pub number_of_tiles: u32,
    /// Width of a tile.
    pub width: u16,
    /// Height of a tile.
    pub height: u16,
    /// Number that an editor shows for the tile with index 1. It has no
    /// part in how the tiles are stored.
    pub base_index: i16,
    pub name: &'a str,
    pub tiles: TilesetTiles<'a>,
}

#[derive(Debug, Clone, Copy)]
pub enum TilesetTiles<'a> {
    /// The tiles, one below the other in one image, compressed with zlib.
    CompressedTiles(&'a [u8]),
    TilesetExternalFile {
        /// ID of an entry of the external files chunk.
        external_file_id: u32,
        /// ID of the tileset in that file.
        tileset_id: u32,
    },
}

pub enum TilesetTilesView {
    CompressedTiles(Seq<u8>),
    TilesetExternalFile { external_file_id: u32, tileset_id: u32 },
}

pub struct TilesetChunkView {
    pub id: u32,
    pub flags: TilesetFlags,
    pub number_of_tiles: u32,
    pub width: u16,
    pub height: u16,
    pub base_index: i16,
    pub name: Seq<char>,
    pub tiles: TilesetTilesView,
}

impl View for TilesetTiles<'_> {
    type V = TilesetTilesView;

    open spec fn view(&self) -> TilesetTilesView {
        match *self {
            TilesetTiles::CompressedTiles(data) => TilesetTilesView::CompressedTiles(data@),
            TilesetTiles::TilesetExternalFile {
                external_file_id,
                tileset_id,
            } => TilesetTilesView::TilesetExternalFile { external_file_id, tileset_id },
        }
    }
}

impl View for TilesetChunk<'_> {
    type V = TilesetChunkView;

    open spec fn view(&self) -> TilesetChunkView {
        TilesetChunkView {
            id: self.id,
            flags: self.flags,
            number_of_tiles: self.number_of_tiles,
            width: self.width,
            height: self.height,
            base_index: self.base_index,
            name: self.name@,
            tiles: self.tiles@,
        }
    }
}

/// The flag double word of a tileset: link to an external file (1), tiles
/// in this file (2), tile 0 is the empty tile (4), match flipped tiles
/// along x (8), along y (16), along the diagonal (32).
#[derive(Debug, Clone, Copy, PartialEq, Eq, Structural)]
pub struct TilesetFlags {
    pub bits: u32,
}

impl TilesetFlags {
    pub open spec fn spec_from_bits_truncate(bits: u32) -> TilesetFlags {
        TilesetFlags { bits: bits % 64 }
    }

    /// The tileset links to an external file.
    pub open spec fn spec_external_file(self) -> bool {
        self.bits % 2 == 1
    }

    /// The tileset holds its tiles in this file.
    pub open spec fn spec_tiles(self) -> bool {
        (self.bits / 2) % 2 == 1
    }

    /// Keeps the bits that have a meaning and drops the others.
    pub fn from_bits_truncate(bits: u32) -> (flags: TilesetFlags)
        ensures
            flags == Self::spec_from_bits_truncate(bits),
    {
        TilesetFlags { bits: bits % 64 }
    }

    pub fn external_file(self) -> (b: bool)
        ensures
            b == self.spec_external_file(),
    {
        self.bits % 2 == 1
    }

    pub fn tiles(self) -> (b: bool)
        ensures
            b == self.spec_tiles(),
    {
        (self.bits / 2) % 2 == 1
    }
}

/// Bytes that a tileset takes before its name.
pub const TILESET_FIXED_SIZE: usize = 32;

/// A link to a tileset in another file: the ID of the file, then the ID of
/// the tileset in it.
pub open spec fn spec_parse_external_file(s: Seq<u8>) -> SpecResult<TilesetTilesView> {
    if s.len() < 8 {
        Err(ParseError::UnexpectedEof)
    } else {
        Ok(
            (
                s.skip(8),
                TilesetTilesView::TilesetExternalFile {
                    external_file_id: dword_at(s, 0),
                    tileset_id: dword_at(s, 4),
                },
            ),
        )
    }
}

/// Tiles in the file: the length of the compressed data, then the data.
pub open spec fn spec_parse_tiles(s: Seq<u8>) -> SpecResult<TilesetTilesView> {
    match spec_dword(s) {
        Err(e) => Err(e),
        Ok((s, len)) => match spec_take(s, len as nat) {
            Err(e) => Err(e),
            Ok((s, data)) => Ok((s, TilesetTilesView::CompressedTiles(data))),
        },
    }
}

/// A tileset: ID, flags, number of tiles, width and height of a tile, base
/// index, 14 reserved bytes, the name, and then either the tiles or the link
/// to another file. A tileset must carry exactly one of the two; one that
/// carries both or neither is refused as soon as its flags are read.
pub open spec fn spec_parse_tileset_chunk(s: Seq<u8>) -> SpecResult<TilesetChunkView> {
    if s.len() < 8 {
        Err(ParseError::UnexpectedEof)
    } else {
        let flags = TilesetFlags::spec_from_bits_truncate(dword_at(s, 4));
        if flags.spec_external_file() == flags.spec_tiles() {
            Err(ParseError::InvalidTilesetFlags(dword_at(s, 4)))
        } else if s.len() < TILESET_FIXED_SIZE {
            Err(ParseError::UnexpectedEof)
        } else {
            match spec_parse_string(s.skip(TILESET_FIXED_SIZE as int)) {
                Err(e) => Err(e),
                Ok((rest, name)) => match (if flags.spec_tiles() {
                    spec_parse_tiles(rest)
                } else {
                    spec_parse_external_file(rest)
                }) {
                    Err(e) => Err(e),
                    Ok((rest, tiles)) => Ok(
                        (
                            rest,
                            TilesetChunkView {
                                id: dword_at(s, 0),
                                flags,
                                number_of_tiles: dword_at(s, 8),
                                width: word_at(s, 12),
                                height: word_at(s, 14),
                                base_index: short_at(s, 16),
                                name,
                                tiles,
                            },
                        ),
                    ),
                },
            }
        }
    }
}

pub fn parse_external_file(input: &[u8]) -> (r: ParseResult<'_, TilesetTiles<'_>>)
    ensures
        match r {
            Ok((rest, tiles)) => spec_parse_external_file(input@) == Ok::<_, ParseError>(
                (rest@, tiles@),
            ),
            Err(e) => spec_parse_external_file(input@) == Err::<(Seq<u8>, TilesetTilesView), _>(e),
        },
{
    if input.len() < 8 {
        return Err(ParseError::UnexpectedEof);
    }
    let external_file_id = read_dword(input, 0);
    let tileset_id = read_dword(input, 4);
    Ok((skip(input, 8), TilesetTiles::TilesetExternalFile { external_file_id, tileset_id }))
}

pub fn parse_tiles(input: &[u8]) -> (r: ParseResult<'_, TilesetTiles<'_>>)
    ensures
        match r {
            Ok((rest, tiles)) => spec_parse_tiles(input@) == Ok::<_, ParseError>((rest@, tiles@)),
            Err(e) => spec_parse_tiles(input@) == Err::<(Seq<u8>, TilesetTilesView), _>(e),
        },
{
    let (rest, len) = dword(input)?;
    let (rest, data) = take(rest, len as usize)?;
    Ok((rest, TilesetTiles::CompressedTiles(data)))
}

pub fn parse_tileset_chunk(input: &[u8]) -> (r: ParseResult<'_, TilesetChunk<'_>>)
    ensures
        match r {
            Ok((rest, chunk)) => spec_parse_tileset_chunk(input@) == Ok::<_, ParseError>(
                (rest@, chunk@),
            ),
            Err(e) => spec_parse_tileset_chunk(input@) == Err::<(Seq<u8>, TilesetChunkView), _>(e),
        },
{
    if input.len() < 8 {
        return Err(ParseError::UnexpectedEof);
    }
    let id = read_dword(input, 0);
    let bits = read_dword(input, 4);
    let flags = TilesetFlags::from_bits_truncate(bits);
    if flags.external_file() == flags.tiles() {
        return Err(ParseError::InvalidTilesetFlags(bits));
    }
    if input.len() < TILESET_FIXED_SIZE {
        return Err(ParseError::UnexpectedEof);
    }
    let number_of_tiles = read_dword(input, 8);
    let width = read_word(input, 12);
    let height = read_word(input, 14);
    let base_index = read_short(input, 16);
    let (rest, name) = parse_string(skip(input, TILESET_FIXED_SIZE))?;
    let (rest, tiles) = if flags.tiles() {
        parse_tiles(rest)?
    } else {
        parse_external_file(rest)?
    };
    Ok((rest, TilesetChunk { id, flags, number_of_tiles, width, height, base_index, name, tiles }))
}

} // verus!
