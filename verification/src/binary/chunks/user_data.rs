//! The user data chunk: a text and a color that the user attached to what
//! the chunk before it describes.

use vstd::prelude::*;
use crate::binary::errors::{ParseError, ParseResult, SpecResult};
use crate::binary::scalars::{
    dword, parse_color, parse_string, spec_dword, spec_parse_color, spec_parse_string, Color,
};

verus! {

#[derive(Debug, Clone, Copy)]
pub struct UserDataChunk<'a> {
    pub text: Option<&'a str>,
    pub color: Option<Color>,
}

pub struct UserDataChunkView {
    pub text: Option<Seq<char>>,
    pub color: Option<Color>,
}

impl View for UserDataChunk<'_> {
    type V = UserDataChunkView;

    open spec fn view(&self) -> UserDataChunkView {
        UserDataChunkView {
            text: match self.text {
                Some(text) => Some(text@),
                None => None,
            },
            color: self.color,
        }
    }
}

impl UserDataChunkView {
    /// User data that says nothing.
    pub open spec fn empty() -> UserDataChunkView {
        UserDataChunkView { text: None, color: None }
    }

    /// The text, or the empty text if there is none.
    pub open spec fn text_or_empty(self) -> Seq<char> {
        match self.text {
            Some(text) => text,
            None => Seq::<char>::empty(),
        }
    }
}

impl Default for UserDataChunk<'_> {
    fn default() -> (chunk: Self)
        ensures
            chunk@ == UserDataChunkView::empty(),
    {
        UserDataChunk { text: None, color: None }
    }
}

/// The flag double word of a user data chunk.
#[derive(Debug, Clone, Copy, PartialEq, Eq, Structural)]
pub struct UserDataFlags {
    pub bits: u32,
}

impl UserDataFlags {
    pub open spec fn spec_from_bits_truncate(bits: u32) -> UserDataFlags {
        UserDataFlags { bits: bits % 4 }
    }

    /// The chunk carries a text.
    pub open spec fn spec_has_text(self) -> bool {
        self.bits % 2 == 1
    }

    /// The chunk carries a color.
    pub open spec fn spec_has_color(self) -> bool {
        (self.bits / 2) % 2 == 1
    }

    /// Keeps the bits that have a meaning and drops the others.
    pub fn from_bits_truncate(bits: u32) -> (flags: UserDataFlags)
        ensures
            flags == Self::spec_from_bits_truncate(bits),
    {
        UserDataFlags { bits: bits % 4 }
    }

    pub fn has_text(self) -> (b: bool)
        ensures
            b == self.spec_has_text(),
    {
        self.bits % 2 == 1
    }

    pub fn has_color(self) -> (b: bool)
        ensures
            b == self.spec_has_color(),
    {
        (self.bits / 2) % 2 == 1
    }
}

/// The text of a user data chunk, if its flags announce one.
pub open spec fn spec_parse_user_data_text(s: Seq<u8>, flags: UserDataFlags) -> SpecResult<
    Option<Seq<char>>,
> {
    if flags.spec_has_text() {
        match spec_parse_string(s) {
            Err(e) => Err(e),
            Ok((s, text)) => Ok((s, Some(text))),
        }
    } else {
        Ok((s, None))
    }
}

/// The color of a user data chunk, if its flags announce one.
pub open spec fn spec_parse_user_data_color(s: Seq<u8>, flags: UserDataFlags) -> SpecResult<
    Option<Color>,
> {
    if flags.spec_has_color() {
        match spec_parse_color(s) {
            Err(e) => Err(e),
            Ok((s, color)) => Ok((s, Some(color))),
        }
    } else {
        Ok((s, None))
    }
}

/// A user data chunk: a flag double word, then the text and the color that
/// the flags announce, in that order.
pub open spec fn spec_parse_user_data_chunk(s: Seq<u8>) -> SpecResult<UserDataChunkView> {
    match spec_dword(s) {
        Err(e) => Err(e),
        Ok((s, bits)) => {
            let flags = UserDataFlags::spec_from_bits_truncate(bits);
            match spec_parse_user_data_text(s, flags) {
                Err(e) => Err(e),
                Ok((s, text)) => match spec_parse_user_data_color(s, flags) {
                    Err(e) => Err(e),
                    Ok((s, color)) => Ok((s, UserDataChunkView { text, color })),
                },
            }
        },
    }
}

pub fn parse_user_data_chunk(input: &[u8]) -> (r: ParseResult<'_, UserDataChunk<'_>>)
    ensures
        match r {
            Ok((rest, chunk)) => spec_parse_user_data_chunk(input@) == Ok::<_, ParseError>(
                (rest@, chunk@),
            ),
            Err(e) => spec_parse_user_data_chunk(input@) == Err::<(Seq<u8>, UserDataChunkView), _>(
                e,
            ),
        },
{
    let (rest, bits) = dword(input)?;
    let flags = UserDataFlags::from_bits_truncate(bits);
    let (rest, text) = if flags.has_text() {
        let (rest, text) = parse_string(rest)?;
        (rest, Some(text))
    } else {
        (rest, None)
    };
    let (rest, color) = if flags.has_color() {
        let (rest, color) = parse_color(rest)?;
        (rest, Some(color))
    } else {
        (rest, None)
    };
    Ok((rest, UserDataChunk { text, color }))
}

} // verus!
