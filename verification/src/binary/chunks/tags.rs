//! The tags chunk: named ranges of frames.

use vstd::prelude::*;
use vstd::std_specs::convert::FromSpecImpl;
use crate::binary::errors::{ParseError, ParseResult, SpecResult};
use crate::binary::repeat::{
    after, lemma_count_end, lemma_count_start, lemma_count_step, lemma_views_empty,
    lemma_views_push, spec_count, views,
};
use crate::binary::scalars::{
    parse_string, read_word, skip, spec_parse_string, spec_take, spec_word, take, word, word_at,
};

verus! {

/// The tags of a file. One user data chunk for each tag may follow the
/// chunk, in the order of the tags.
#[derive(Debug)]
pub struct TagsChunk<'a> {
    pub tags: Vec<TagChunk<'a>>,
}

/// A range of frames under a name. Both ends belong to the range.
#[derive(Debug, Clone, Copy)]
pub struct TagChunk<'a> {
    /// First and last frame of the range.
    pub frames: (u16, u16),
    pub animation_direction: AnimationDirection,
    /// How many times the range plays; 0 leaves it open.
    pub animation_repeat: u16,
    pub name: &'a str,
}

#[derive(Debug, Copy, Clone, PartialEq, Eq, Structural)]
pub enum AnimationDirection {
    Forward,
    Reverse,
    PingPong,
    PingPongReverse,
    /// A direction this decoder has no name for, kept as read.
    Unknown(u8),
}

pub struct TagChunkView {
    pub frames: (u16, u16),
    pub animation_direction: AnimationDirection,
    pub animation_repeat: u16,
    pub name: Seq<char>,
}

pub struct TagsChunkView {
    pub tags: Seq<TagChunkView>,
}

impl View for TagChunk<'_> {
    type V = TagChunkView;

    open spec fn view(&self) -> TagChunkView {
        TagChunkView {
            frames: self.frames,
            animation_direction: self.animation_direction,
            animation_repeat: self.animation_repeat,
            name: self.name@,
        }
    }
}

impl View for TagsChunk<'_> {
    type V = TagsChunkView;

    open spec fn view(&self) -> TagsChunkView {
        TagsChunkView { tags: views(self.tags@) }
    }
}

impl AnimationDirection {
    /// The direction that a byte of a tag stands for.
    pub open spec fn of_byte(byte: u8) -> AnimationDirection {
        if byte == 0 {
            AnimationDirection::Forward
        } else if byte == 1 {
            AnimationDirection::Reverse
        } else if byte == 2 {
            AnimationDirection::PingPong
        } else if byte == 3 {
            AnimationDirection::PingPongReverse
        } else {
            AnimationDirection::Unknown(byte)
        }
    }
}

impl From<u8> for AnimationDirection {
    fn from(byte: u8) -> (direction: AnimationDirection) {
        match byte {
            0 => AnimationDirection::Forward,
            1 => AnimationDirection::Reverse,
            2 => AnimationDirection::PingPong,
            3 => AnimationDirection::PingPongReverse,
            _ => AnimationDirection::Unknown(byte),
        }
    }
}

impl FromSpecImpl<u8> for AnimationDirection {
    open spec fn obeys_from_spec() -> bool {
        true
    }

    open spec fn from_spec(byte: u8) -> AnimationDirection {
        AnimationDirection::of_byte(byte)
    }
}

/// Bytes that a tag takes before its name.
pub const TAG_FIXED_SIZE: usize = 17;

/// A tag: first frame, last frame, direction, repeat count, 6 reserved
/// bytes, 3 bytes of a color that is no longer used, 1 reserved byte, and
/// the name. A tag whose first frame lies after its last frame is refused as
/// soon as the two are read.
pub open spec fn spec_parse_tag(s: Seq<u8>) -> SpecResult<TagChunkView> {
    if s.len() < 4 {
        Err(ParseError::UnexpectedEof)
    } else if word_at(s, 0) > word_at(s, 2) {
        Err(ParseError::InvalidFrameRange(word_at(s, 0), word_at(s, 2)))
    } else if s.len() < TAG_FIXED_SIZE {
        Err(ParseError::UnexpectedEof)
    } else {
        match spec_parse_string(s.skip(TAG_FIXED_SIZE as int)) {
            Err(e) => Err(e),
            Ok((rest, name)) => Ok(
                (
                    rest,
                    TagChunkView {
                        frames: (word_at(s, 0), word_at(s, 2)),
                        animation_direction: AnimationDirection::of_byte(s[4]),
                        animation_repeat: word_at(s, 5),
                        name,
                    },
                ),
            ),
        }
    }
}

/// A tags chunk: the number of tags, 8 reserved bytes, then the tags.
pub open spec fn spec_parse_tags_chunk(s: Seq<u8>) -> SpecResult<TagsChunkView> {
    match spec_word(s) {
        Err(e) => Err(e),
        Ok((s, number_of_tags)) => match spec_take(s, 8) {
            Err(e) => Err(e),
            Ok((s, _)) => match spec_count(|s: Seq<u8>| spec_parse_tag(s), s, number_of_tags as nat) {
                Err(e) => Err(e),
                Ok((s, tags)) => Ok((s, TagsChunkView { tags })),
            },
        },
    }
}

pub fn parse_tag(input: &[u8]) -> (r: ParseResult<'_, TagChunk<'_>>)
    ensures
        match r {
            Ok((rest, tag)) => spec_parse_tag(input@) == Ok::<_, ParseError>((rest@, tag@)),
            Err(e) => spec_parse_tag(input@) == Err::<(Seq<u8>, TagChunkView), _>(e),
        },
{
    if input.len() < 4 {
        return Err(ParseError::UnexpectedEof);
    }
    let from_frame = read_word(input, 0);
    let to_frame = read_word(input, 2);
    if from_frame > to_frame {
        return Err(ParseError::InvalidFrameRange(from_frame, to_frame));
    }
    if input.len() < TAG_FIXED_SIZE {
        return Err(ParseError::UnexpectedEof);
    }
    let animation_direction = AnimationDirection::from(input[4]);
    let animation_repeat = read_word(input, 5);
    let (rest, name) = parse_string(skip(input, TAG_FIXED_SIZE))?;
    Ok((rest, TagChunk { frames: (from_frame, to_frame), animation_direction, animation_repeat, name }))
}

pub fn parse_tags_chunk(input: &[u8]) -> (r: ParseResult<'_, TagsChunk<'_>>)
    ensures
        match r {
            Ok((rest, chunk)) => spec_parse_tags_chunk(input@) == Ok::<_, ParseError>(
                (rest@, chunk@),
            ),
            Err(e) => spec_parse_tags_chunk(input@) == Err::<(Seq<u8>, TagsChunkView), _>(e),
        },
{
    let (rest, number_of_tags) = word(input)?;
    let (rest, _) = take(rest, 8)?;
    let ghost item = |s: Seq<u8>| spec_parse_tag(s);
    let ghost start = rest@;
    let mut rest = rest;
    let mut tags: Vec<TagChunk<'_>> = Vec::new();
    let mut i: u16 = 0;
    proof {
        lemma_count_start(item, start, number_of_tags as nat);
        lemma_views_empty::<TagChunk<'_>>();
    }
    while i < number_of_tags
        invariant
            i <= number_of_tags,
            item == (|s: Seq<u8>| spec_parse_tag(s)),
            spec_parse_tags_chunk(input@) == match spec_count(item, start, number_of_tags as nat) {
                Err(e) => Err::<(Seq<u8>, TagsChunkView), ParseError>(e),
                Ok((s, tags)) => Ok((s, TagsChunkView { tags })),
            },
            spec_count(item, start, number_of_tags as nat) == after(
                views(tags@),
                spec_count(item, rest@, (number_of_tags - i) as nat),
            ),
        decreases number_of_tags - i,
    {
        proof {
            lemma_count_step(item, rest@, (number_of_tags - i) as nat, views(tags@));
            assert(item(rest@) == spec_parse_tag(rest@));
        }
        let (after_tag, tag) = parse_tag(rest)?;
        proof {
            lemma_views_push(tags@, tag);
        }
        tags.push(tag);
        rest = after_tag;
        i += 1;
    }
    proof {
        lemma_count_end(item, rest@, views(tags@));
    }
    Ok((rest, TagsChunk { tags }))
}

/// A tag decodes only if its first frame is not after its last frame; bytes
/// that put the first frame after the last are refused with the two frames.
pub proof fn lemma_tag_frame_range(s: Seq<u8>)
    ensures
        spec_parse_tag(s) matches Ok((_, tag)) ==> tag.frames.0 <= tag.frames.1,
        s.len() >= 4 && word_at(s, 0) > word_at(s, 2) ==> spec_parse_tag(s) == Err::<
            (Seq<u8>, TagChunkView),
            _,
        >(ParseError::InvalidFrameRange(word_at(s, 0), word_at(s, 2))),
{
}

/// Every tag that a run of tags yields has its first frame not after its
/// last frame.
pub proof fn lemma_tags_frame_ranges(s: Seq<u8>, n: nat)
    ensures
        spec_count(|s: Seq<u8>| spec_parse_tag(s), s, n) matches Ok((_, tags)) ==> forall|i: int|
            0 <= i < tags.len() ==> (#[trigger] tags[i]).frames.0 <= tags[i].frames.1,
    decreases n,
{
    let item = |s: Seq<u8>| spec_parse_tag(s);
    if n > 0 {
        match item(s) {
            Err(e) => {},
            Ok((rest, first)) => {
                lemma_tag_frame_range(s);
                lemma_tags_frame_ranges(rest, (n - 1) as nat);
            },
        }
    }
}

/// Every tag of a decoded tags chunk has its first frame not after its last
/// frame.
pub proof fn lemma_tags_chunk_frame_ranges(s: Seq<u8>)
    ensures
        spec_parse_tags_chunk(s) matches Ok((_, chunk)) ==> forall|i: int|
            0 <= i < chunk.tags.len() ==> (#[trigger] chunk.tags[i]).frames.0
                <= chunk.tags[i].frames.1,
{
    match spec_word(s) {
        Err(e) => {},
        Ok((s1, number_of_tags)) => match spec_take(s1, 8) {
            Err(e) => {},
            Ok((s2, _)) => {
                lemma_tags_frame_ranges(s2, number_of_tags as nat);
            },
        },
    }
}

} // verus!
