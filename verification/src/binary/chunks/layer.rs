//! The layer chunk: one layer of the sprite.

use vstd::prelude::*;
use crate::binary::blend_mode::BlendMode;
use crate::binary::errors::{ParseError, ParseResult, SpecResult};
use crate::binary::scalars::{
    dword, parse_string, read_word, skip, spec_dword, spec_parse_string, word_at,
};

verus! {

#[derive(Debug, Clone, Copy)]
pub struct LayerChunk<'a> {
    pub flags: LayerFlags,
    pub layer_type: LayerType,
    /// Depth of the layer below the groups that hold it.
    pub child_level: u16,
    pub blend_mode: BlendMode,
    pub opacity: u8,
    pub name: &'a str,
    /// The tileset of a tilemap layer.
    pub tileset_index: Option<u32>,
}

pub struct LayerChunkView {
    pub flags: LayerFlags,
    pub layer_type: LayerType,
    pub child_level: u16,
    pub blend_mode: BlendMode,
    pub opacity: u8,
    pub name: Seq<char>,
    pub tileset_index: Option<u32>,
}

impl View for LayerChunk<'_> {
    type V = LayerChunkView;

    open spec fn view(&self) -> LayerChunkView {
        LayerChunkView {
            flags: self.flags,
            layer_type: self.layer_type,
            child_level: self.child_level,
            blend_mode: self.blend_mode,
            opacity: self.opacity,
            name: self.name@,
            tileset_index: self.tileset_index,
        }
    }
}

#[derive(Debug, Clone, Copy, PartialEq, Eq, Structural)]
pub enum LayerType {
    /// A layer of images.
    Normal,
    /// A layer that groups other layers.
    Group,
    /// A layer of tiles.
    Tilemap,
    /// A type this decoder has no name for, kept as read.
    Unknown(u16),
}

impl LayerType {
    pub open spec fn spec_from_word(word: u16) -> LayerType {
        if word == 0 {
            LayerType::Normal
        } else if word == 1 {
            LayerType::Group
        } else if word == 2 {
            LayerType::Tilemap
        } else {
            LayerType::Unknown(word)
        }
    }

    pub fn from_word(word: u16) -> (layer_type: LayerType)
        ensures
            layer_type == Self::spec_from_word(word),
    {
        match word {
            0 => LayerType::Normal,
            1 => LayerType::Group,
            2 => LayerType::Tilemap,
            _ => LayerType::Unknown(word),
        }
    }
}

/// The flag word of a layer: visible (1), editable (2), lock movement (4),
/// background (8), prefer linked cels (16), collapsed (32), reference (64).
#[derive(Debug, Clone, Copy, PartialEq, Eq, Structural)]
pub struct LayerFlags {
    pub bits: u16,
}

impl LayerFlags {
    pub open spec fn spec_from_bits_truncate(bits: u16) -> LayerFlags {
        LayerFlags { bits: bits % 128 }
    }

    /// The layer is shown.
    pub open spec fn spec_visible(self) -> bool {
        self.bits % 2 == 1
    }

    /// Keeps the bits that have a meaning and drops the others.
    pub fn from_bits_truncate(bits: u16) -> (flags: LayerFlags)
        ensures
            flags == Self::spec_from_bits_truncate(bits),
    {
        LayerFlags { bits: bits % 128 }
    }

    pub fn visible(self) -> (b: bool)
        ensures
            b == self.spec_visible(),
    {
        self.bits % 2 == 1
    }
}

/// Bytes that a layer takes before its name.
pub const LAYER_FIXED_SIZE: usize = 16;

/// The tileset index that ends the chunk of a tilemap layer.
pub open spec fn spec_parse_tileset_index(s: Seq<u8>, layer_type: LayerType) -> SpecResult<
    Option<u32>,
> {
    if layer_type == LayerType::Tilemap {
        match spec_dword(s) {
            Err(e) => Err(e),
            Ok((s, index)) => Ok((s, Some(index))),
        }
    } else {
        Ok((s, None))
    }
}

/// A layer: flags, type, child level, a default width and height that are
/// not used, blend mode, opacity, 3 reserved bytes, the name, and for a
/// tilemap layer the index of its tileset.
pub open spec fn spec_parse_layer_chunk(s: Seq<u8>) -> SpecResult<LayerChunkView> {
    if s.len() < LAYER_FIXED_SIZE {
        Err(ParseError::UnexpectedEof)
    } else {
        let layer_type = LayerType::spec_from_word(word_at(s, 2));
        match spec_parse_string(s.skip(LAYER_FIXED_SIZE as int)) {
            Err(e) => Err(e),
            Ok((rest, name)) => match spec_parse_tileset_index(rest, layer_type) {
                Err(e) => Err(e),
                Ok((rest, tileset_index)) => Ok(
                    (
                        rest,
                        LayerChunkView {
                            flags: LayerFlags::spec_from_bits_truncate(word_at(s, 0)),
                            layer_type,
                            child_level: word_at(s, 4),
                            blend_mode: BlendMode::spec_from_word(word_at(s, 10)),
                            opacity: s[12],
                            name,
                            tileset_index,
                        },
                    ),
                ),
            },
        }
    }
}

pub fn parse_layer_chunk(input: &[u8]) -> (r: ParseResult<'_, LayerChunk<'_>>)
    ensures
        match r {
            Ok((rest, chunk)) => spec_parse_layer_chunk(input@) == Ok::<_, ParseError>(
                (rest@, chunk@),
            ),
            Err(e) => spec_parse_layer_chunk(input@) == Err::<(Seq<u8>, LayerChunkView), _>(e),
        },
{
    if input.len() < LAYER_FIXED_SIZE {
        return Err(ParseError::UnexpectedEof);
    }
    let flags = LayerFlags::from_bits_truncate(read_word(input, 0));
    let layer_type = LayerType::from_word(read_word(input, 2));
    let child_level = read_word(input, 4);
    let blend_mode = BlendMode::from_word(read_word(input, 10));
    let opacity = input[12];
    let (rest, name) = parse_string(skip(input, LAYER_FIXED_SIZE))?;
    let (rest, tileset_index) = match layer_type {
        LayerType::Tilemap => {
            let (rest, index) = dword(rest)?;
            (rest, Some(index))
        },
        _ => (rest, None),
    };
    Ok((rest, LayerChunk { flags, layer_type, child_level, blend_mode, opacity, name, tileset_index }))
}

} // verus!
