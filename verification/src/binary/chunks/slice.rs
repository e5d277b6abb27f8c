//! The slice chunk: a named region of the canvas, frame by frame.

use vstd::prelude::*;
use crate::binary::errors::{parsed, ParseError, ParseResult, SpecResult};
use crate::binary::repeat::{
    after, lemma_count_end, lemma_count_start, lemma_count_step, spec_count,
};
use crate::binary::scalars::{
    dword_at, long_at, parse_string, read_dword, read_long, skip, spec_parse_string,
};

verus! {

#[derive(Debug)]
pub struct SliceChunk<'a> {
    pub flags: SliceFlags,
    pub name: &'a str,
    pub slice_keys: Vec<SliceKey>,
}

/// The region of a slice from one frame on.
#[derive(Debug, Clone, Copy, PartialEq, Eq, Structural)]
pub struct SliceKey {
    /// The frame from which the key holds, until the next key.
    pub frame_number: u32,
    pub x: i32,
    pub y: i32,
    /// Width of the region; 0 hides the slice from this frame on.
    pub width: u32,
    pub height: u32,
    /// The center of a 9-patch slice, relative to the region.
    pub nine_patch: Option<NinePatch>,
    /// The pivot, relative to the origin of the region.
    pub pivot: Option<Pivot>,
}

#[derive(Debug, Clone, Copy, PartialEq, Eq, Structural)]
pub struct NinePatch {
    pub x: i32,
    pub y: i32,
    pub width: u32,
    pub height: u32,
}

#[derive(Debug, Clone, Copy, PartialEq, Eq, Structural)]
pub struct Pivot {
    pub x: i32,
    pub y: i32,
}

pub struct SliceChunkView {
    pub flags: SliceFlags,
    pub name: Seq<char>,
    pub slice_keys: Seq<SliceKey>,
}

impl View for SliceChunk<'_> {
    type V = SliceChunkView;

    open spec fn view(&self) -> SliceChunkView {
        SliceChunkView { flags: self.flags, name: self.name@, slice_keys: self.slice_keys@ }
    }
}

/// The flag double word of a slice.
#[derive(Debug, Clone, Copy, PartialEq, Eq, Structural)]
pub struct SliceFlags {
    pub bits: u32,
}

impl SliceFlags {
    pub open spec fn spec_from_bits_truncate(bits: u32) -> SliceFlags {
        SliceFlags { bits: bits % 4 }
    }

    /// The slice is a 9-patch.
    pub open spec fn spec_nine_patch(self) -> bool {
        self.bits % 2 == 1
    }

    /// The slice has a pivot.
    pub open spec fn spec_pivot(self) -> bool {
        (self.bits / 2) % 2 == 1
    }

    /// Keeps the bits that have a meaning and drops the others.
    pub fn from_bits_truncate(bits: u32) -> (flags: SliceFlags)
        ensures
            flags == Self::spec_from_bits_truncate(bits),
    {
        SliceFlags { bits: bits % 4 }
    }

    pub fn nine_patch(self) -> (b: bool)
        ensures
            b == self.spec_nine_patch(),
    {
        self.bits % 2 == 1
    }

    pub fn pivot(self) -> (b: bool)
        ensures
            b == self.spec_pivot(),
    {
        (self.bits / 2) % 2 == 1
    }
}

/// Bytes that a slice takes before its name.
pub const SLICE_FIXED_SIZE: usize = 12;

/// Bytes that a slice key takes before its optional parts.
pub const SLICE_KEY_FIXED_SIZE: usize = 20;

/// The center of a 9-patch, if the flags of the slice announce one.
pub open spec fn spec_parse_nine_patch(s: Seq<u8>, flags: SliceFlags) -> SpecResult<
    Option<NinePatch>,
> {
    if !flags.spec_nine_patch() {
        Ok((s, None))
    } else if s.len() < 16 {
        Err(ParseError::UnexpectedEof)
    } else {
        Ok(
            (
                s.skip(16),
                Some(
                    NinePatch {
                        x: long_at(s, 0),
                        y: long_at(s, 4),
                        width: dword_at(s, 8),
                        height: dword_at(s, 12),
                    },
                ),
            ),
        )
    }
}

/// The pivot, if the flags of the slice announce one.
pub open spec fn spec_parse_pivot(s: Seq<u8>, flags: SliceFlags) -> SpecResult<Option<Pivot>> {
    if !flags.spec_pivot() {
        Ok((s, None))
    } else if s.len() < 8 {
        Err(ParseError::UnexpectedEof)
    } else {
        Ok((s.skip(8), Some(Pivot { x: long_at(s, 0), y: long_at(s, 4) })))
    }
}

/// A slice key: frame number, x, y, width, height, then the center of the
/// 9-patch and the pivot as far as the flags announce them.
pub open spec fn spec_parse_slice_key(s: Seq<u8>, flags: SliceFlags) -> SpecResult<SliceKey> {
    if s.len() < SLICE_KEY_FIXED_SIZE {
        Err(ParseError::UnexpectedEof)
    } else {
        match spec_parse_nine_patch(s.skip(SLICE_KEY_FIXED_SIZE as int), flags) {
            Err(e) => Err(e),
            Ok((rest, nine_patch)) => match spec_parse_pivot(rest, flags) {
                Err(e) => Err(e),
                Ok((rest, pivot)) => Ok(
                    (
                        rest,
                        SliceKey {
                            frame_number: dword_at(s, 0),
                            x: long_at(s, 4),
                            y: long_at(s, 8),
                            width: dword_at(s, 12),
                            height: dword_at(s, 16),
                            nine_patch,
                            pivot,
                        },
                    ),
                ),
            },
        }
    }
}

/// A slice chunk: the number of keys, flags, a reserved double word, the
/// name, then the keys.
pub open spec fn spec_parse_slice_chunk(s: Seq<u8>) -> SpecResult<SliceChunkView> {
    if s.len() < SLICE_FIXED_SIZE {
        Err(ParseError::UnexpectedEof)
    } else {
        let flags = SliceFlags::spec_from_bits_truncate(dword_at(s, 4));
        match spec_parse_string(s.skip(SLICE_FIXED_SIZE as int)) {
            Err(e) => Err(e),
            Ok((rest, name)) => match spec_count(
                |s: Seq<u8>| spec_parse_slice_key(s, flags),
                rest,
                dword_at(s, 0) as nat,
            ) {
                Err(e) => Err(e),
                Ok((rest, slice_keys)) => Ok((rest, SliceChunkView { flags, name, slice_keys })),
            },
        }
    }
}

pub fn parse_slice_key(input: &[u8], flags: SliceFlags) -> (r: ParseResult<'_, SliceKey>)
    ensures
        parsed(r, spec_parse_slice_key(input@, flags)),
{
    if input.len() < SLICE_KEY_FIXED_SIZE {
        return Err(ParseError::UnexpectedEof);
    }
    let frame_number = read_dword(input, 0);
    let x = read_long(input, 4);
    let y = read_long(input, 8);
    let width = read_dword(input, 12);
    let height = read_dword(input, 16);
    let rest = skip(input, SLICE_KEY_FIXED_SIZE);
    let (rest, nine_patch) = if flags.nine_patch() {
        if rest.len() < 16 {
            return Err(ParseError::UnexpectedEof);
        }
        let center = NinePatch {
            x: read_long(rest, 0),
            y: read_long(rest, 4),
            width: read_dword(rest, 8),
            height: read_dword(rest, 12),
        };
        (skip(rest, 16), Some(center))
    } else {
        (rest, None)
    };
    let (rest, pivot) = if flags.pivot() {
        if rest.len() < 8 {
            return Err(ParseError::UnexpectedEof);
        }
        let pivot = Pivot { x: read_long(rest, 0), y: read_long(rest, 4) };
        (skip(rest, 8), Some(pivot))
    } else {
        (rest, None)
    };
    Ok((rest, SliceKey { frame_number, x, y, width, height, nine_patch, pivot }))
}

pub fn parse_slice_chunk(input: &[u8]) -> (r: ParseResult<'_, SliceChunk<'_>>)
    ensures
        match r {
            Ok((rest, chunk)) => spec_parse_slice_chunk(input@) == Ok::<_, ParseError>(
                (rest@, chunk@),
            ),
            Err(e) => spec_parse_slice_chunk(input@) == Err::<(Seq<u8>, SliceChunkView), _>(e),
        },
{
    if input.len() < SLICE_FIXED_SIZE {
        return Err(ParseError::UnexpectedEof);
    }
    let number_of_keys = read_dword(input, 0);
    let flags = SliceFlags::from_bits_truncate(read_dword(input, 4));
    let (rest, name) = parse_string(skip(input, SLICE_FIXED_SIZE))?;
    let ghost item = |s: Seq<u8>| spec_parse_slice_key(s, flags);
    let ghost start = rest@;
    let mut rest = rest;
    let mut slice_keys: Vec<SliceKey> = Vec::new();
    let mut i: u32 = 0;
    proof {
        lemma_count_start(item, start, number_of_keys as nat);
    }
    while i < number_of_keys
        invariant
            i <= number_of_keys,
            item == (|s: Seq<u8>| spec_parse_slice_key(s, flags)),
            spec_parse_slice_chunk(input@) == match spec_count(item, start, number_of_keys as nat) {
                Err(e) => Err::<(Seq<u8>, SliceChunkView), ParseError>(e),
                Ok((s, slice_keys)) => Ok((s, SliceChunkView { flags, name: name@, slice_keys })),
            },
            spec_count(item, start, number_of_keys as nat) == after(
                slice_keys@,
                spec_count(item, rest@, (number_of_keys - i) as nat),
            ),
        decreases number_of_keys - i,
    {
        proof {
            lemma_count_step(item, rest@, (number_of_keys - i) as nat, slice_keys@);
            assert(item(rest@) == spec_parse_slice_key(rest@, flags));
        }
        let (after_key, key) = parse_slice_key(rest, flags)?;
        slice_keys.push(key);
        rest = after_key;
        i += 1;
    }
    proof {
        lemma_count_end(item, rest@, slice_keys@);
    }
    Ok((rest, SliceChunk { flags, name, slice_keys }))
}

} // verus!
