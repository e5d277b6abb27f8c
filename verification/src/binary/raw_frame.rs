//! Framing of frames: each frame says how long it is and how many chunks it
//! holds.

use vstd::prelude::*;
use vstd::slice::slice_subrange;
use crate::binary::chunk::{parse_chunks, spec_parse_chunks, Chunk, ChunkView};
use crate::binary::chunks::cel::{CelChunk, CelChunkView};
use crate::binary::errors::{ParseError, ParseResult, SpecResult};
use crate::binary::repeat::{after, lemma_views_empty, lemma_views_push, views};
use crate::binary::scalars::{dword_at, read_dword, read_word, skip, word_at};

verus! {

#[derive(Debug)]
pub struct RawFrame<'a> {
    /// How long the frame is shown, in milliseconds.
    pub duration: u16,
    pub chunks: Vec<Chunk<'a>>,
}

pub struct RawFrameView {
    pub duration: u16,
    pub chunks: Seq<ChunkView>,
}

impl View for RawFrame<'_> {
    type V = RawFrameView;

    open spec fn view(&self) -> RawFrameView {
        RawFrameView { duration: self.duration, chunks: views(self.chunks@) }
    }
}

/// The cel chunks among `chunks`, in their order.
pub open spec fn cels_of(chunks: Seq<ChunkView>) -> Seq<CelChunkView>
    decreases chunks.len(),
{
    if chunks.len() == 0 {
        Seq::<CelChunkView>::empty()
    } else {
        match chunks.last() {
            ChunkView::Cel(cel) => cels_of(chunks.drop_last()).push(cel),
            _ => cels_of(chunks.drop_last()),
        }
    }
}

impl<'a> RawFrame<'a> {
    /// The cel chunks of the frame, in their order.
    pub fn cels(&self) -> (cels: Vec<CelChunk<'a>>)
        ensures
            views(cels@) == cels_of(self@.chunks),
    {
        let mut cels: Vec<CelChunk<'a>> = Vec::new();
        let mut i: usize = 0;
        proof {
            lemma_views_empty::<CelChunk<'a>>();
            assert(self@.chunks.take(0) =~= Seq::<ChunkView>::empty());
        }
        while i < self.chunks.len()
            invariant
                i <= self.chunks.len(),
                views(cels@) == cels_of(self@.chunks.take(i as int)),
            decreases self.chunks.len() - i,
        {
            proof {
                let next = self@.chunks.take(i + 1);
                assert(next.drop_last() =~= self@.chunks.take(i as int));
                assert(next.last() == self.chunks@[i as int]@);
            }
            match &self.chunks[i] {
                Chunk::Cel(cel) => {
                    proof {
                        lemma_views_push(cels@, *cel);
                    }
                    cels.push(*cel);
                },
                _ => {},
            }
            i += 1;
        }
        proof {
            assert(self@.chunks.take(i as int) =~= self@.chunks);
        }
        cels
    }
}

/// Bytes of a frame before its chunks.
pub const FRAME_HEADER_SIZE: usize = 16;

/// The word that marks the start of a frame.
pub const FRAME_MAGIC_NUMBER: u16 = 0xF1FA;

/// Number of chunks of a frame, from the two counts in its header: the
/// double word if it is not zero, else the word.
pub open spec fn spec_chunk_count(old_count: u16, new_count: u32) -> nat {
    if new_count != 0 {
        new_count as nat
    } else {
        old_count as nat
    }
}

/// A frame: its size in bytes as a double word, which counts its header
/// too; the magic number; the number of chunks as a word; the duration; 2
/// reserved bytes; the number of chunks as a double word; and the chunks.
/// What the chunks leave of the frame's bytes is dropped. A size under 16 or
/// over the bytes at hand is refused.
pub open spec fn spec_parse_rawframe(s: Seq<u8>) -> SpecResult<RawFrameView> {
    if s.len() < 4 {
        Err(ParseError::UnexpectedEof)
    } else {
        let size = dword_at(s, 0);
        if size < FRAME_HEADER_SIZE || size > s.len() {
            Err(ParseError::InvalidFrameSize(size))
        } else if word_at(s, 4) != FRAME_MAGIC_NUMBER {
            Err(ParseError::InvalidFrameMagic(word_at(s, 4)))
        } else {
            match spec_parse_chunks(
                s.subrange(FRAME_HEADER_SIZE as int, size as int),
                spec_chunk_count(word_at(s, 6), dword_at(s, 12)),
            ) {
                Err(e) => Err(e),
                Ok((_, chunks)) => Ok(
                    (s.skip(size as int), RawFrameView { duration: word_at(s, 8), chunks }),
                ),
            }
        }
    }
}

/// Frames one after the other until no byte is left.
pub open spec fn spec_frames(s: Seq<u8>) -> SpecResult<Seq<RawFrameView>>
    decreases s.len(),
{
    if s.len() == 0 {
        Ok((s, Seq::<RawFrameView>::empty()))
    } else {
        match spec_parse_rawframe(s) {
            Err(e) => Err(e),
            Ok((rest, first)) => match spec_frames(rest) {
                Err(e) => Err(e),
                Ok((rest, others)) => Ok((rest, seq![first] + others)),
            },
        }
    }
}

/// The frames of a file: at least one, and together they take every byte.
pub open spec fn spec_parse_frames(s: Seq<u8>) -> SpecResult<Seq<RawFrameView>> {
    if s.len() == 0 {
        Err(ParseError::NoFrames)
    } else {
        spec_frames(s)
    }
}

pub fn parse_rawframe(input: &[u8]) -> (r: ParseResult<'_, RawFrame<'_>>)
    ensures
        match r {
            Ok((rest, frame)) => spec_parse_rawframe(input@) == Ok::<_, ParseError>(
                (rest@, frame@),
            ),
            Err(e) => spec_parse_rawframe(input@) == Err::<(Seq<u8>, RawFrameView), _>(e),
        },
{
    if input.len() < 4 {
        return Err(ParseError::UnexpectedEof);
    }
    let size = read_dword(input, 0);
    if size < FRAME_HEADER_SIZE as u32 || size as usize > input.len() {
        return Err(ParseError::InvalidFrameSize(size));
    }
    let magic = read_word(input, 4);
    if magic != FRAME_MAGIC_NUMBER {
        return Err(ParseError::InvalidFrameMagic(magic));
    }
    let old_count = read_word(input, 6);
    let duration = read_word(input, 8);
    let new_count = read_dword(input, 12);
    let chunk_count: usize = if new_count != 0 {
        new_count as usize
    } else {
        old_count as usize
    };
    let body = slice_subrange(input, FRAME_HEADER_SIZE, size as usize);
    let (_, chunks) = parse_chunks(body, chunk_count)?;
    Ok((skip(input, size as usize), RawFrame { duration, chunks }))
}

/// A frame that decodes leaves fewer bytes than it was given.
pub proof fn lemma_rawframe_consumes(s: Seq<u8>)
    ensures
        spec_parse_rawframe(s) matches Ok((rest, _)) ==> rest.len() < s.len(),
{
}

pub fn parse_frames(input: &[u8]) -> (r: ParseResult<'_, Vec<RawFrame<'_>>>)
    ensures
        match r {
            Ok((rest, frames)) => spec_parse_frames(input@) == Ok::<_, ParseError>(
                (rest@, views(frames@)),
            ),
            Err(e) => spec_parse_frames(input@) == Err::<(Seq<u8>, Seq<RawFrameView>), _>(e),
        },
{
    if input.len() == 0 {
        return Err(ParseError::NoFrames);
    }
    let mut rest = input;
    let mut frames: Vec<RawFrame<'_>> = Vec::new();
    proof {
        lemma_views_empty::<RawFrame<'_>>();
        match spec_frames(input@) {
            Err(e) => {},
            Ok((rest, others)) => {
                assert(Seq::<RawFrameView>::empty() + others =~= others);
            },
        }
    }
    while rest.len() > 0
        invariant
            spec_frames(input@) == after(views(frames@), spec_frames(rest@)),
        decreases rest.len(),
    {
        proof {
            lemma_rawframe_consumes(rest@);
            match spec_parse_rawframe(rest@) {
                Err(e) => {},
                Ok((next, first)) => {
                    match spec_frames(next) {
                        Err(e) => {},
                        Ok((last, others)) => {
                            assert(views(frames@) + (seq![first] + others) =~= views(frames@).push(
                                first,
                            ) + others);
                        },
                    }
                },
            }
        }
        let (after_frame, frame) = parse_rawframe(rest)?;
        proof {
            lemma_views_push(frames@, frame);
        }
        frames.push(frame);
        rest = after_frame;
    }
    proof {
        assert(views(frames@) + Seq::<RawFrameView>::empty() =~= views(frames@));
    }
    Ok((rest, frames))
}

} // verus!
