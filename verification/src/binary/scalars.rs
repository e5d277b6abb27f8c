//! The primitive fields of the format: little-endian integers, runs of
//! bytes, strings with a length in front, and colors.

use vstd::prelude::*;
use vstd::slice::slice_subrange;
use vstd::utf8::{decode_utf8, valid_utf8};
use crate::binary::errors::{parsed, ParseError, ParseResult, SpecResult};

verus! {

pub type Byte = u8;

pub type Word = u16;

pub type Short = i16;

pub type Dword = u32;

pub type Long = i32;

/// A color with straight alpha.
#[derive(Debug, Clone, Copy, PartialEq, Eq, Hash, Structural)]
pub struct Color {
    pub red: u8,
    pub green: u8,
    pub blue: u8,
    pub alpha: u8,
}

/// The unsigned 16-bit value whose little-endian bytes are `lo`, `hi`.
pub open spec fn le_word(lo: u8, hi: u8) -> u16 {
    (lo as int + 256 * (hi as int)) as u16
}

/// The unsigned 32-bit value whose little-endian bytes are `b0` to `b3`.
pub open spec fn le_dword(b0: u8, b1: u8, b2: u8, b3: u8) -> u32 {
    (b0 as int + 256 * (b1 as int) + 65536 * (b2 as int) + 16777216 * (b3 as int)) as u32
}

/// The two's complement reading of a 16-bit value.
pub open spec fn signed_word(w: u16) -> i16 {
    if w < 32768 {
        w as i16
    } else {
        (w as int - 65536) as i16
    }
}

/// The two's complement reading of a 32-bit value.
pub open spec fn signed_dword(d: u32) -> i32 {
    if d < 2147483648 {
        d as i32
    } else {
        (d as int - 4294967296) as i32
    }
}

/// The word at offset `at` of `s`.
pub open spec fn word_at(s: Seq<u8>, at: int) -> u16 {
    le_word(s[at], s[at + 1])
}

/// The double word at offset `at` of `s`.
pub open spec fn dword_at(s: Seq<u8>, at: int) -> u32 {
    le_dword(s[at], s[at + 1], s[at + 2], s[at + 3])
}

/// The signed word at offset `at` of `s`.
pub open spec fn short_at(s: Seq<u8>, at: int) -> i16 {
    signed_word(word_at(s, at))
}

/// The signed double word at offset `at` of `s`.
pub open spec fn long_at(s: Seq<u8>, at: int) -> i32 {
    signed_dword(dword_at(s, at))
}

pub open spec fn spec_byte(s: Seq<u8>) -> SpecResult<u8> {
    if s.len() < 1 {
        Err(ParseError::UnexpectedEof)
    } else {
        Ok((s.skip(1), s[0]))
    }
}

pub open spec fn spec_word(s: Seq<u8>) -> SpecResult<u16> {
    if s.len() < 2 {
        Err(ParseError::UnexpectedEof)
    } else {
        Ok((s.skip(2), le_word(s[0], s[1])))
    }
}

pub open spec fn spec_short(s: Seq<u8>) -> SpecResult<i16> {
    if s.len() < 2 {
        Err(ParseError::UnexpectedEof)
    } else {
        Ok((s.skip(2), signed_word(le_word(s[0], s[1]))))
    }
}

pub open spec fn spec_dword(s: Seq<u8>) -> SpecResult<u32> {
    if s.len() < 4 {
        Err(ParseError::UnexpectedEof)
    } else {
        Ok((s.skip(4), le_dword(s[0], s[1], s[2], s[3])))
    }
}

pub open spec fn spec_long(s: Seq<u8>) -> SpecResult<i32> {
    if s.len() < 4 {
        Err(ParseError::UnexpectedEof)
    } else {
        Ok((s.skip(4), signed_dword(le_dword(s[0], s[1], s[2], s[3]))))
    }
}

/// The next `n` bytes.
pub open spec fn spec_take(s: Seq<u8>, n: nat) -> SpecResult<Seq<u8>> {
    if s.len() < n {
        Err(ParseError::UnexpectedEof)
    } else {
        Ok((s.skip(n as int), s.take(n as int)))
    }
}

/// A string: its length in bytes as a word, then that many bytes of UTF-8.
pub open spec fn spec_parse_string(s: Seq<u8>) -> SpecResult<Seq<char>> {
    match spec_word(s) {
        Err(e) => Err(e),
        Ok((s, len)) => match spec_take(s, len as nat) {
            Err(e) => Err(e),
            Ok((s, bytes)) => if valid_utf8(bytes) {
                Ok((s, decode_utf8(bytes)))
            } else {
                Err(ParseError::InvalidUtf8)
            },
        },
    }
}

/// A color: red, green, blue and alpha, one byte each.
pub open spec fn spec_parse_color(s: Seq<u8>) -> SpecResult<Color> {
    if s.len() < 4 {
        Err(ParseError::UnexpectedEof)
    } else {
        Ok((s.skip(4), Color { red: s[0], green: s[1], blue: s[2], alpha: s[3] }))
    }
}

pub fn read_word(input: &[u8], at: usize) -> (value: u16)
    requires
        at + 2 <= input@.len(),
    ensures
        value == word_at(input@, at as int),
{
    input[at] as u16 + 256 * (input[at + 1] as u16)
}

pub fn read_dword(input: &[u8], at: usize) -> (value: u32)
    requires
        at + 4 <= input@.len(),
    ensures
        value == dword_at(input@, at as int),
{
    input[at] as u32 + 256 * (input[at + 1] as u32) + 65536 * (input[at + 2] as u32) + 16777216 * (
    input[at + 3] as u32)
}

pub fn read_short(input: &[u8], at: usize) -> (value: i16)
    requires
        at + 2 <= input@.len(),
    ensures
        value == short_at(input@, at as int),
{
    let w = read_word(input, at);
    if w < 32768 {
        w as i16
    } else {
        (w as i32 - 65536) as i16
    }
}

pub fn read_long(input: &[u8], at: usize) -> (value: i32)
    requires
        at + 4 <= input@.len(),
    ensures
        value == long_at(input@, at as int),
{
    let d = read_dword(input, at);
    if d < 2147483648 {
        d as i32
    } else {
        (d as i64 - 4294967296) as i32
    }
}

/// The bytes of `input` from offset `n` on.
pub fn skip(input: &[u8], n: usize) -> (rest: &[u8])
    requires
        n <= input@.len(),
    ensures
        rest@ == input@.skip(n as int),
{
    slice_subrange(input, n, input.len())
}

pub fn byte(input: &[u8]) -> (r: ParseResult<'_, u8>)
    ensures
        parsed(r, spec_byte(input@)),
{
    if input.len() < 1 {
        return Err(ParseError::UnexpectedEof);
    }
    Ok((slice_subrange(input, 1, input.len()), input[0]))
}

pub fn word(input: &[u8]) -> (r: ParseResult<'_, u16>)
    ensures
        parsed(r, spec_word(input@)),
{
    if input.len() < 2 {
        return Err(ParseError::UnexpectedEof);
    }
    let value: u16 = input[0] as u16 + 256 * (input[1] as u16);
    Ok((slice_subrange(input, 2, input.len()), value))
}

pub fn short(input: &[u8]) -> (r: ParseResult<'_, i16>)
    ensures
        parsed(r, spec_short(input@)),
{
    match word(input) {
        Err(e) => Err(e),
        Ok((rest, w)) => {
            let value: i16 = if w < 32768 {
                w as i16
            } else {
                (w as i32 - 65536) as i16
            };
            Ok((rest, value))
        },
    }
}

pub fn dword(input: &[u8]) -> (r: ParseResult<'_, u32>)
    ensures
        parsed(r, spec_dword(input@)),
{
    if input.len() < 4 {
        return Err(ParseError::UnexpectedEof);
    }
    let value: u32 = input[0] as u32 + 256 * (input[1] as u32) + 65536 * (input[2] as u32)
        + 16777216 * (input[3] as u32);
    Ok((slice_subrange(input, 4, input.len()), value))
}

pub fn long(input: &[u8]) -> (r: ParseResult<'_, i32>)
    ensures
        parsed(r, spec_long(input@)),
{
    match dword(input) {
        Err(e) => Err(e),
        Ok((rest, d)) => {
            let value: i32 = if d < 2147483648 {
                d as i32
            } else {
                (d as i64 - 4294967296) as i32
            };
            Ok((rest, value))
        },
    }
}

pub fn take(input: &[u8], n: usize) -> (r: ParseResult<'_, &[u8]>)
    ensures
        match r {
            Ok((rest, bytes)) => spec_take(input@, n as nat) == Ok::<_, ParseError>((rest@, bytes@)),
            Err(e) => spec_take(input@, n as nat) == Err::<(Seq<u8>, Seq<u8>), _>(e),
        },
{
    if input.len() < n {
        return Err(ParseError::UnexpectedEof);
    }
    Ok((slice_subrange(input, n, input.len()), slice_subrange(input, 0, n)))
}

/// Reads `bytes` as UTF-8 by `core::str::from_utf8`, which accepts exactly
/// the well-formed encodings and then gives the text that they encode.
#[verifier::external_body]
fn utf8_text(bytes: &[u8]) -> (r: Option<&str>)
    ensures
        r.is_some() == valid_utf8(bytes@),
        r matches Some(text) ==> text@ == decode_utf8(bytes@),
{
    core::str::from_utf8(bytes).ok()
}

pub fn parse_string(input: &[u8]) -> (r: ParseResult<'_, &str>)
    ensures
        match r {
            Ok((rest, text)) => spec_parse_string(input@) == Ok::<_, ParseError>((rest@, text@)),
            Err(e) => spec_parse_string(input@) == Err::<(Seq<u8>, Seq<char>), _>(e),
        },
{
    let (input, len) = word(input)?;
    let (input, bytes) = take(input, len as usize)?;
    match utf8_text(bytes) {
        Some(text) => Ok((input, text)),
        None => Err(ParseError::InvalidUtf8),
    }
}

pub fn parse_color(input: &[u8]) -> (r: ParseResult<'_, Color>)
    ensures
        parsed(r, spec_parse_color(input@)),
{
    if input.len() < 4 {
        return Err(ParseError::UnexpectedEof);
    }
    let color = Color { red: input[0], green: input[1], blue: input[2], alpha: input[3] };
    Ok((slice_subrange(input, 4, input.len()), color))
}

} // verus!
