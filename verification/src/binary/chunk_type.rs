//! The kinds of chunk that have a decoder.

use vstd::prelude::*;

verus! {

#[derive(Debug, Clone, Copy, PartialEq, Eq, Structural)]
pub enum ChunkType {
    /// Old palette with channels from 0 to 255 (0x0004).
    Palette0004,
    /// Old palette with channels from 0 to 63 (0x0011).
    Palette0011,
    /// Layer (0x2004).
    Layer,
    /// Cel (0x2005).
    Cel,
    /// Cel extra (0x2006).
    CelExtra,
    /// Color profile (0x2007).
    ColorProfile,
    /// External files (0x2008).
    ExternalFiles,
    /// Mask (0x2016).
    Mask,
    /// Path (0x2017), which no file uses.
    Path,
    /// Tags (0x2018).
    Tags,
    /// Palette (0x2019).
    Palette,
    /// User data (0x2020).
    UserData,
    /// Slice (0x2022).
    Slice,
    /// Tileset (0x2023).
    Tileset,
}

impl ChunkType {
    /// The kind of chunk that a type word stands for, if it is a known one.
    pub open spec fn spec_from_word(word: u16) -> Option<ChunkType> {
        if word == 0x0004 {
            Some(ChunkType::Palette0004)
        } else if word == 0x0011 {
            Some(ChunkType::Palette0011)
        } else if word == 0x2004 {
            Some(ChunkType::Layer)
        } else if word == 0x2005 {
            Some(ChunkType::Cel)
        } else if word == 0x2006 {
            Some(ChunkType::CelExtra)
        } else if word == 0x2007 {
            Some(ChunkType::ColorProfile)
        } else if word == 0x2008 {
            Some(ChunkType::ExternalFiles)
        } else if word == 0x2016 {
            Some(ChunkType::Mask)
        } else if word == 0x2017 {
            Some(ChunkType::Path)
        } else if word == 0x2018 {
            Some(ChunkType::Tags)
        } else if word == 0x2019 {
            Some(ChunkType::Palette)
        } else if word == 0x2020 {
            Some(ChunkType::UserData)
        } else if word == 0x2022 {
            Some(ChunkType::Slice)
        } else if word == 0x2023 {
            Some(ChunkType::Tileset)
        } else {
            None
        }
    }

    pub fn from_word(word: u16) -> (chunk_type: Option<ChunkType>)
        ensures
            chunk_type == Self::spec_from_word(word),
    {
        match word {
            0x0004 => Some(ChunkType::Palette0004),
            0x0011 => Some(ChunkType::Palette0011),
            0x2004 => Some(ChunkType::Layer),
            0x2005 => Some(ChunkType::Cel),
            0x2006 => Some(ChunkType::CelExtra),
            0x2007 => Some(ChunkType::ColorProfile),
            0x2008 => Some(ChunkType::ExternalFiles),
            0x2016 => Some(ChunkType::Mask),
            0x2017 => Some(ChunkType::Path),
            0x2018 => Some(ChunkType::Tags),
            0x2019 => Some(ChunkType::Palette),
            0x2020 => Some(ChunkType::UserData),
            0x2022 => Some(ChunkType::Slice),
            0x2023 => Some(ChunkType::Tileset),
            _ => None,
        }
    }
}

} // verus!
