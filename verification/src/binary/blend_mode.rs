//! How a layer's pixels combine with what lies below them.

use vstd::prelude::*;

verus! {

#[derive(Debug, Clone, Copy, PartialEq, Eq, Structural)]
pub enum BlendMode {
    Normal,
    Multiply,
    Screen,
    Overlay,
    Darken,
    Lighten,
    ColorDodge,
    ColorBurn,
    HardLight,
    SoftLight,
    Difference,
    Exclusion,
    Hue,
    Saturation,
    Color,
    Luminosity,
    Addition,
    Subtract,
    Divide,
    /// A mode this decoder has no name for, kept as read.
    Unknown(u16),
}

impl BlendMode {
    pub open spec fn spec_from_word(word: u16) -> BlendMode {
        if word == 0 {
            BlendMode::Normal
        } else if word == 1 {
            BlendMode::Multiply
        } else if word == 2 {
            BlendMode::Screen
        } else if word == 3 {
            BlendMode::Overlay
        } else if word == 4 {
            BlendMode::Darken
        } else if word == 5 {
            BlendMode::Lighten
        } else if word == 6 {
            BlendMode::ColorDodge
        } else if word == 7 {
            BlendMode::ColorBurn
        } else if word == 8 {
            BlendMode::HardLight
        } else if word == 9 {
            BlendMode::SoftLight
        } else if word == 10 {
            BlendMode::Difference
        } else if word == 11 {
            BlendMode::Exclusion
        } else if word == 12 {
            BlendMode::Hue
        } else if word == 13 {
            BlendMode::Saturation
        } else if word == 14 {
            BlendMode::Color
        } else if word == 15 {
            BlendMode::Luminosity
        } else if word == 16 {
            BlendMode::Addition
        } else if word == 17 {
            BlendMode::Subtract
        } else if word == 18 {
            BlendMode::Divide
        } else {
            BlendMode::Unknown(word)
        }
    }

    pub fn from_word(word: u16) -> (mode: BlendMode)
        ensures
            mode == Self::spec_from_word(word),
    {
        match word {
            0 => BlendMode::Normal,
            1 => BlendMode::Multiply,
            2 => BlendMode::Screen,
            3 => BlendMode::Overlay,
            4 => BlendMode::Darken,
            5 => BlendMode::Lighten,
            6 => BlendMode::ColorDodge,
            7 => BlendMode::ColorBurn,
            8 => BlendMode::HardLight,
            9 => BlendMode::SoftLight,
            10 => BlendMode::Difference,
            11 => BlendMode::Exclusion,
            12 => BlendMode::Hue,
            13 => BlendMode::Saturation,
            14 => BlendMode::Color,
            15 => BlendMode::Luminosity,
            16 => BlendMode::Addition,
            17 => BlendMode::Subtract,
            18 => BlendMode::Divide,
            _ => BlendMode::Unknown(word),
        }
    }
}

} // verus!
