//! Framing of chunks: each chunk says how long it is and of what kind.

use vstd::prelude::*;
use vstd::slice::slice_subrange;
use crate::binary::chunk_type::ChunkType;
use crate::binary::chunks::cel::{parse_cel_chunk, spec_parse_cel_chunk, CelChunk, CelChunkView};
use crate::binary::chunks::cel_extra::{
    parse_cel_extra_chunk, spec_parse_cel_extra_chunk, CelExtraChunk,
};
use crate::binary::chunks::color_profile::{
    parse_color_profile_chunk, spec_parse_color_profile_chunk, ColorProfileChunk,
    ColorProfileChunkView,
};
use crate::binary::chunks::external_files::{
    parse_external_files_chunk, spec_parse_external_files_chunk, ExternalFilesChunk,
    ExternalFilesChunkView,
};
use crate::binary::chunks::layer::{
    parse_layer_chunk, spec_parse_layer_chunk, LayerChunk, LayerChunkView,
};
use crate::binary::chunks::mask::{parse_mask_chunk, spec_parse_mask_chunk, MaskChunk, MaskChunkView};
use crate::binary::chunks::old_palette::{
    parse_old_palette_chunk, spec_parse_old_palette_chunk, OldPaletteChunk, OldPaletteChunkView,
};
use crate::binary::chunks::palette::{
    parse_palette_chunk, spec_parse_palette_chunk, PaletteChunk, PaletteChunkView,
};
use crate::binary::chunks::slice::{
    parse_slice_chunk, spec_parse_slice_chunk, SliceChunk, SliceChunkView,
};
use crate::binary::chunks::tags::{parse_tags_chunk, spec_parse_tags_chunk, TagsChunk, TagsChunkView};
use crate::binary::chunks::tileset::{
    parse_tileset_chunk, spec_parse_tileset_chunk, TilesetChunk, TilesetChunkView,
};
use crate::binary::chunks::user_data::{
    parse_user_data_chunk, spec_parse_user_data_chunk, UserDataChunk, UserDataChunkView,
};
use crate::binary::errors::{ParseError, ParseResult, SpecResult};
use crate::binary::repeat::{
    after, lemma_count_end, lemma_count_start, lemma_count_step, lemma_views_empty,
    lemma_views_push, spec_count, views,
};
use crate::binary::scalars::{dword_at, read_dword, read_word, skip, word_at};

verus! {

#[derive(Debug)]
pub enum Chunk<'a> {
    Palette0004(OldPaletteChunk<'a>),
    Palette0011(OldPaletteChunk<'a>),
    Layer(LayerChunk<'a>),
    Cel(CelChunk<'a>),
    CelExtra(CelExtraChunk),
    ColorProfile(ColorProfileChunk<'a>),
    ExternalFiles(ExternalFilesChunk<'a>),
    Mask(MaskChunk<'a>),
    Path,
    Tags(TagsChunk<'a>),
    Palette(PaletteChunk<'a>),
    UserData(UserDataChunk<'a>),
    Slice(SliceChunk<'a>),
    Tileset(TilesetChunk<'a>),
    /// A chunk of a kind that has no decoder: its type word and its bytes.
    Unsupported(u16, &'a [u8]),
}

pub enum ChunkView {
    Palette0004(OldPaletteChunkView),
    Palette0011(OldPaletteChunkView),
    Layer(LayerChunkView),
    Cel(CelChunkView),
    CelExtra(CelExtraChunk),
    ColorProfile(ColorProfileChunkView),
    ExternalFiles(ExternalFilesChunkView),
    Mask(MaskChunkView),
    Path,
    Tags(TagsChunkView),
    Palette(PaletteChunkView),
    UserData(UserDataChunkView),
    Slice(SliceChunkView),
    Tileset(TilesetChunkView),
    Unsupported(u16, Seq<u8>),
}

impl View for Chunk<'_> {
    type V = ChunkView;

    open spec fn view(&self) -> ChunkView {
        match self {
            Chunk::Palette0004(chunk) => ChunkView::Palette0004(chunk@),
            Chunk::Palette0011(chunk) => ChunkView::Palette0011(chunk@),
            Chunk::Layer(chunk) => ChunkView::Layer(chunk@),
            Chunk::Cel(chunk) => ChunkView::Cel(chunk@),
            Chunk::CelExtra(chunk) => ChunkView::CelExtra(*chunk),
            Chunk::ColorProfile(chunk) => ChunkView::ColorProfile(chunk@),
            Chunk::ExternalFiles(chunk) => ChunkView::ExternalFiles(chunk@),
            Chunk::Mask(chunk) => ChunkView::Mask(chunk@),
            Chunk::Path => ChunkView::Path,
            Chunk::Tags(chunk) => ChunkView::Tags(chunk@),
            Chunk::Palette(chunk) => ChunkView::Palette(chunk@),
            Chunk::UserData(chunk) => ChunkView::UserData(chunk@),
            Chunk::Slice(chunk) => ChunkView::Slice(chunk@),
            Chunk::Tileset(chunk) => ChunkView::Tileset(chunk@),
            Chunk::Unsupported(kind, data) => ChunkView::Unsupported(*kind, data@),
        }
    }
}

impl Chunk<'_> {
    pub fn is_user_data(&self) -> (b: bool)
        ensures
            b == (self@ is UserData),
    {
        match self {
            Chunk::UserData(_) => true,
            _ => false,
        }
    }
}

/// Bytes of a chunk before its content: its size and its type.
pub const CHUNK_HEADER_SIZE: usize = 6;

/// What the content `body` of a chunk with the type word `kind` decodes to.
/// Bytes that the decoder of the kind leaves over are dropped; a kind
/// without a decoder keeps the content as it is.
pub open spec fn spec_decode_chunk(kind: u16, body: Seq<u8>) -> Result<ChunkView, ParseError> {
    match ChunkType::spec_from_word(kind) {
        Some(ChunkType::Palette0004) => match spec_parse_old_palette_chunk(body) {
            Err(e) => Err(e),
            Ok((_, chunk)) => Ok(ChunkView::Palette0004(chunk)),
        },
        Some(ChunkType::Palette0011) => match spec_parse_old_palette_chunk(body) {
            Err(e) => Err(e),
            Ok((_, chunk)) => Ok(ChunkView::Palette0011(chunk)),
        },
        Some(ChunkType::Layer) => match spec_parse_layer_chunk(body) {
            Err(e) => Err(e),
            Ok((_, chunk)) => Ok(ChunkView::Layer(chunk)),
        },
        Some(ChunkType::Cel) => match spec_parse_cel_chunk(body) {
            Err(e) => Err(e),
            Ok((_, chunk)) => Ok(ChunkView::Cel(chunk)),
        },
        Some(ChunkType::CelExtra) => match spec_parse_cel_extra_chunk(body) {
            Err(e) => Err(e),
            Ok((_, chunk)) => Ok(ChunkView::CelExtra(chunk)),
        },
        Some(ChunkType::ColorProfile) => match spec_parse_color_profile_chunk(body) {
            Err(e) => Err(e),
            Ok((_, chunk)) => Ok(ChunkView::ColorProfile(chunk)),
        },
        Some(ChunkType::ExternalFiles) => match spec_parse_external_files_chunk(body) {
            Err(e) => Err(e),
            Ok((_, chunk)) => Ok(ChunkView::ExternalFiles(chunk)),
        },
        Some(ChunkType::Mask) => match spec_parse_mask_chunk(body) {
            Err(e) => Err(e),
            Ok((_, chunk)) => Ok(ChunkView::Mask(chunk)),
        },
        Some(ChunkType::Path) => Ok(ChunkView::Path),
        Some(ChunkType::Tags) => match spec_parse_tags_chunk(body) {
            Err(e) => Err(e),
            Ok((_, chunk)) => Ok(ChunkView::Tags(chunk)),
        },
        Some(ChunkType::Palette) => match spec_parse_palette_chunk(body) {
            Err(e) => Err(e),
            Ok((_, chunk)) => Ok(ChunkView::Palette(chunk)),
        },
        Some(ChunkType::UserData) => match spec_parse_user_data_chunk(body) {
            Err(e) => Err(e),
            Ok((_, chunk)) => Ok(ChunkView::UserData(chunk)),
        },
        Some(ChunkType::Slice) => match spec_parse_slice_chunk(body) {
            Err(e) => Err(e),
            Ok((_, chunk)) => Ok(ChunkView::Slice(chunk)),
        },
        Some(ChunkType::Tileset) => match spec_parse_tileset_chunk(body) {
            Err(e) => Err(e),
            Ok((_, chunk)) => Ok(ChunkView::Tileset(chunk)),
        },
        None => Ok(ChunkView::Unsupported(kind, body)),
    }
}

/// A chunk: its size in bytes as a double word, which counts the size and
/// the type too; its type as a word; and its content, which is what is left
/// of those bytes. A size under 6 or over the bytes at hand is refused.
pub open spec fn spec_parse_chunk(s: Seq<u8>) -> SpecResult<ChunkView> {
    if s.len() < 4 {
        Err(ParseError::UnexpectedEof)
    } else {
        let size = dword_at(s, 0);
        if size < CHUNK_HEADER_SIZE || size > s.len() {
            Err(ParseError::InvalidChunkSize(size))
        } else {
            match spec_decode_chunk(word_at(s, 4), s.subrange(CHUNK_HEADER_SIZE as int, size as int)) {
                Err(e) => Err(e),
                Ok(chunk) => Ok((s.skip(size as int), chunk)),
            }
        }
    }
}

/// `count` chunks in a row.
pub open spec fn spec_parse_chunks(s: Seq<u8>, count: nat) -> SpecResult<Seq<ChunkView>> {
    spec_count(|s: Seq<u8>| spec_parse_chunk(s), s, count)
}

/// Decodes the content of a chunk of the given kind.
pub fn decode_chunk(kind: u16, body: &[u8]) -> (r: Result<Chunk<'_>, ParseError>)
    ensures
        match r {
            Ok(chunk) => spec_decode_chunk(kind, body@) == Ok::<ChunkView, ParseError>(chunk@),
            Err(e) => spec_decode_chunk(kind, body@) == Err::<ChunkView, ParseError>(e),
        },
{
    match ChunkType::from_word(kind) {
        Some(ChunkType::Palette0004) => {
            let (_, chunk) = parse_old_palette_chunk(body)?;
            Ok(Chunk::Palette0004(chunk))
        },
        Some(ChunkType::Palette0011) => {
            let (_, chunk) = parse_old_palette_chunk(body)?;
            Ok(Chunk::Palette0011(chunk))
        },
        Some(ChunkType::Layer) => {
            let (_, chunk) = parse_layer_chunk(body)?;
            Ok(Chunk::Layer(chunk))
        },
        Some(ChunkType::Cel) => {
            let (_, chunk) = parse_cel_chunk(body)?;
            Ok(Chunk::Cel(chunk))
        },
        Some(ChunkType::CelExtra) => {
            let (_, chunk) = parse_cel_extra_chunk(body)?;
            Ok(Chunk::CelExtra(chunk))
        },
        Some(ChunkType::ColorProfile) => {
            let (_, chunk) = parse_color_profile_chunk(body)?;
            Ok(Chunk::ColorProfile(chunk))
        },
        Some(ChunkType::ExternalFiles) => {
            let (_, chunk) = parse_external_files_chunk(body)?;
            Ok(Chunk::ExternalFiles(chunk))
        },
        Some(ChunkType::Mask) => {
            let (_, chunk) = parse_mask_chunk(body)?;
            Ok(Chunk::Mask(chunk))
        },
        Some(ChunkType::Path) => Ok(Chunk::Path),
        Some(ChunkType::Tags) => {
            let (_, chunk) = parse_tags_chunk(body)?;
            Ok(Chunk::Tags(chunk))
        },
        Some(ChunkType::Palette) => {
            let (_, chunk) = parse_palette_chunk(body)?;
            Ok(Chunk::Palette(chunk))
        },
        Some(ChunkType::UserData) => {
            let (_, chunk) = parse_user_data_chunk(body)?;
            Ok(Chunk::UserData(chunk))
        },
        Some(ChunkType::Slice) => {
            let (_, chunk) = parse_slice_chunk(body)?;
            Ok(Chunk::Slice(chunk))
        },
        Some(ChunkType::Tileset) => {
            let (_, chunk) = parse_tileset_chunk(body)?;
            Ok(Chunk::Tileset(chunk))
        },
        None => Ok(Chunk::Unsupported(kind, body)),
    }
}

pub fn parse_chunk(input: &[u8]) -> (r: ParseResult<'_, Chunk<'_>>)
    ensures
        match r {
            Ok((rest, chunk)) => spec_parse_chunk(input@) == Ok::<_, ParseError>((rest@, chunk@)),
            Err(e) => spec_parse_chunk(input@) == Err::<(Seq<u8>, ChunkView), _>(e),
        },
{
    if input.len() < 4 {
        return Err(ParseError::UnexpectedEof);
    }
    let size = read_dword(input, 0);
    if size < CHUNK_HEADER_SIZE as u32 || size as usize > input.len() {
        return Err(ParseError::InvalidChunkSize(size));
    }
    let kind = read_word(input, 4);
    let body = slice_subrange(input, CHUNK_HEADER_SIZE, size as usize);
    let chunk = decode_chunk(kind, body)?;
    Ok((skip(input, size as usize), chunk))
}

pub fn parse_chunks(input: &[u8], count: usize) -> (r: ParseResult<'_, Vec<Chunk<'_>>>)
    ensures
        match r {
            Ok((rest, chunks)) => spec_parse_chunks(input@, count as nat) == Ok::<_, ParseError>(
                (rest@, views(chunks@)),
            ),
            Err(e) => spec_parse_chunks(input@, count as nat) == Err::<
                (Seq<u8>, Seq<ChunkView>),
                _,
            >(e),
        },
{
    let ghost item = |s: Seq<u8>| spec_parse_chunk(s);
    let mut rest = input;
    let mut chunks: Vec<Chunk<'_>> = Vec::new();
    let mut i: usize = 0;
    proof {
        lemma_count_start(item, input@, count as nat);
        lemma_views_empty::<Chunk<'_>>();
    }
    while i < count
        invariant
            i <= count,
            item == (|s: Seq<u8>| spec_parse_chunk(s)),
            spec_parse_chunks(input@, count as nat) == after(
                views(chunks@),
                spec_count(item, rest@, (count - i) as nat),
            ),
        decreases count - i,
    {
        proof {
            lemma_count_step(item, rest@, (count - i) as nat, views(chunks@));
            assert(item(rest@) == spec_parse_chunk(rest@));
        }
        let (after_chunk, chunk) = parse_chunk(rest)?;
        proof {
            lemma_views_push(chunks@, chunk);
        }
        chunks.push(chunk);
        rest = after_chunk;
        i += 1;
    }
    proof {
        lemma_count_end(item, rest@, views(chunks@));
    }
    Ok((rest, chunks))
}

} // verus!
