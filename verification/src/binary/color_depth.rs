//! How the pixels of a sprite are stored.

use vstd::prelude::*;

verus! {

/// The pixel format of a file, from the bits per pixel in its header.
#[derive(Debug, Clone, Copy, PartialEq, Eq, Structural)]
pub enum ColorDepth {
    /// 32 bits per pixel: red, green, blue, alpha.
    Rgba,
    /// 16 bits per pixel: value, alpha.
    Grayscale,
    /// 8 bits per pixel: an index into the palette.
    Indexed,
    /// Any other number of bits per pixel, kept as read.
    Unknown(u16),
}

impl ColorDepth {
    pub open spec fn spec_from_word(word: u16) -> ColorDepth {
        if word == 32 {
            ColorDepth::Rgba
        } else if word == 16 {
            ColorDepth::Grayscale
        } else if word == 8 {
            ColorDepth::Indexed
        } else {
            ColorDepth::Unknown(word)
        }
    }

    /// Bytes that one pixel takes; `None` for an unknown depth.
    pub open spec fn spec_bytes_per_pixel(self) -> Option<usize> {
        match self {
            ColorDepth::Rgba => Some(4usize),
            ColorDepth::Grayscale => Some(2usize),
            ColorDepth::Indexed => Some(1usize),
            ColorDepth::Unknown(_) => None,
        }
    }

    pub fn from_word(word: u16) -> (depth: ColorDepth)
        ensures
            depth == Self::spec_from_word(word),
    {
        if word == 32 {
            ColorDepth::Rgba
        } else if word == 16 {
            ColorDepth::Grayscale
        } else if word == 8 {
            ColorDepth::Indexed
        } else {
            ColorDepth::Unknown(word)
        }
    }

    pub fn bytes_per_pixel(self) -> (n: Option<usize>)
        ensures
            n == self.spec_bytes_per_pixel(),
    {
        match self {
            ColorDepth::Rgba => Some(4),
            ColorDepth::Grayscale => Some(2),
            ColorDepth::Indexed => Some(1),
            ColorDepth::Unknown(_) => None,
        }
    }
}

} // verus!
