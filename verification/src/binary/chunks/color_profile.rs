//! The color profile chunk: the color space of the sprite.

use vstd::prelude::*;
use crate::binary::errors::{ParseError, ParseResult, SpecResult};
use crate::binary::scalars::{
    dword, dword_at, read_dword, read_word, skip, spec_dword, spec_take, take, word_at,
};

verus! {

#[derive(Debug, Clone, Copy)]
pub struct ColorProfileChunk<'a> {
    pub profile_type: ColorProfileType,
    /// Bit 1: the profile uses the gamma of this chunk.
    pub flags: u16,
    /// Gamma as a fixed-point number with 16 bits after the point.
    pub fixed_gamma: u32,
    /// The ICC profile, if the profile is an embedded one.
    pub icc_profile: Option<&'a [u8]>,
}

#[derive(Debug, Clone, Copy, PartialEq, Eq, Structural)]
pub enum ColorProfileType {
    NoProfile,
    Srgb,
    EmbeddedIcc,
    /// A type this decoder has no name for, kept as read.
    Unknown(u16),
}

pub struct ColorProfileChunkView {
    pub profile_type: ColorProfileType,
    pub flags: u16,
    pub fixed_gamma: u32,
    pub icc_profile: Option<Seq<u8>>,
}

impl View for ColorProfileChunk<'_> {
    type V = ColorProfileChunkView;

    open spec fn view(&self) -> ColorProfileChunkView {
        ColorProfileChunkView {
            profile_type: self.profile_type,
            flags: self.flags,
            fixed_gamma: self.fixed_gamma,
            icc_profile: match self.icc_profile {
                Some(data) => Some(data@),
                None => None,
            },
        }
    }
}

impl ColorProfileType {
    pub open spec fn spec_from_word(word: u16) -> ColorProfileType {
        if word == 0 {
            ColorProfileType::NoProfile
        } else if word == 1 {
            ColorProfileType::Srgb
        } else if word == 2 {
            ColorProfileType::EmbeddedIcc
        } else {
            ColorProfileType::Unknown(word)
        }
    }

    pub fn from_word(word: u16) -> (profile_type: ColorProfileType)
        ensures
            profile_type == Self::spec_from_word(word),
    {
        match word {
            0 => ColorProfileType::NoProfile,
            1 => ColorProfileType::Srgb,
            2 => ColorProfileType::EmbeddedIcc,
            _ => ColorProfileType::Unknown(word),
        }
    }
}

/// Bytes that a color profile takes before an embedded ICC profile.
pub const COLOR_PROFILE_FIXED_SIZE: usize = 16;

/// The embedded ICC profile: its length, then its bytes. Only a profile of
/// the embedded type has one.
pub open spec fn spec_parse_icc_profile(s: Seq<u8>, profile_type: ColorProfileType) -> SpecResult<
    Option<Seq<u8>>,
> {
    if profile_type == ColorProfileType::EmbeddedIcc {
        match spec_dword(s) {
            Err(e) => Err(e),
            Ok((s, len)) => match spec_take(s, len as nat) {
                Err(e) => Err(e),
                Ok((s, data)) => Ok((s, Some(data))),
            },
        }
    } else {
        Ok((s, None))
    }
}

/// A color profile: type, flags, gamma, 8 reserved bytes, and the ICC
/// profile if the type announces one.
pub open spec fn spec_parse_color_profile_chunk(s: Seq<u8>) -> SpecResult<ColorProfileChunkView> {
    if s.len() < COLOR_PROFILE_FIXED_SIZE {
        Err(ParseError::UnexpectedEof)
    } else {
        let profile_type = ColorProfileType::spec_from_word(word_at(s, 0));
        match spec_parse_icc_profile(s.skip(COLOR_PROFILE_FIXED_SIZE as int), profile_type) {
            Err(e) => Err(e),
            Ok((rest, icc_profile)) => Ok(
                (
                    rest,
                    ColorProfileChunkView {
                        profile_type,
                        flags: word_at(s, 2),
                        fixed_gamma: dword_at(s, 4),
                        icc_profile,
                    },
                ),
            ),
        }
    }
}

pub fn parse_color_profile_chunk(input: &[u8]) -> (r: ParseResult<'_, ColorProfileChunk<'_>>)
    ensures
        match r {
            Ok((rest, chunk)) => spec_parse_color_profile_chunk(input@) == Ok::<_, ParseError>(
                (rest@, chunk@),
            ),
            Err(e) => spec_parse_color_profile_chunk(input@) == Err::<
                (Seq<u8>, ColorProfileChunkView),
                _,
            >(e),
        },
{
    if input.len() < COLOR_PROFILE_FIXED_SIZE {
        return Err(ParseError::UnexpectedEof);
    }
    let profile_type = ColorProfileType::from_word(read_word(input, 0));
    let flags = read_word(input, 2);
    let fixed_gamma = read_dword(input, 4);
    let rest = skip(input, COLOR_PROFILE_FIXED_SIZE);
    let (rest, icc_profile) = match profile_type {
        ColorProfileType::EmbeddedIcc => {
            let (rest, len) = dword(rest)?;
            let (rest, data) = take(rest, len as usize)?;
            (rest, Some(data))
        },
        _ => (rest, None),
    };
    Ok((rest, ColorProfileChunk { profile_type, flags, fixed_gamma, icc_profile }))
}

} // verus!
