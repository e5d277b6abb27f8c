//! The palette chunk: a run of palette entries and where it starts.

use vstd::prelude::*;
use crate::binary::errors::{ParseError, ParseResult, SpecResult};
use crate::binary::repeat::{
    after, lemma_count_end, lemma_count_len, lemma_count_start, lemma_count_step,
    lemma_views_empty, lemma_views_push, spec_count, views,
};
use crate::binary::scalars::{
    dword, parse_color, parse_string, spec_dword, spec_parse_color, spec_parse_string, spec_take,
    spec_word, take, word, Color,
};

verus! {

#[derive(Debug)]
pub struct PaletteChunk<'a> {
    /// Palette index that the first entry stands for.
    pub first_index: u32,
    pub entries: Vec<PaletteEntry<'a>>,
}

#[derive(Debug, Clone, Copy)]
pub struct PaletteEntry<'a> {
    pub color: Color,
    pub name: Option<&'a str>,
}

pub struct PaletteEntryView {
    pub color: Color,
    pub name: Option<Seq<char>>,
}

pub struct PaletteChunkView {
    pub first_index: u32,
    pub entries: Seq<PaletteEntryView>,
}

impl View for PaletteEntry<'_> {
    type V = PaletteEntryView;

    open spec fn view(&self) -> PaletteEntryView {
        PaletteEntryView {
            color: self.color,
            name: match self.name {
                Some(name) => Some(name@),
                None => None,
            },
        }
    }
}

impl View for PaletteChunk<'_> {
    type V = PaletteChunkView;

    open spec fn view(&self) -> PaletteChunkView {
        PaletteChunkView { first_index: self.first_index, entries: views(self.entries@) }
    }
}

/// The flag word of a palette entry.
#[derive(Debug, Clone, Copy, PartialEq, Eq, Structural)]
pub struct PaletteEntryFlags {
    pub bits: u16,
}

impl PaletteEntryFlags {
    pub open spec fn spec_from_bits_truncate(bits: u16) -> PaletteEntryFlags {
        PaletteEntryFlags { bits: bits % 2 }
    }

    /// The entry carries a name.
    pub open spec fn spec_has_name(self) -> bool {
        self.bits % 2 == 1
    }

    /// Keeps the bits that have a meaning and drops the others.
    pub fn from_bits_truncate(bits: u16) -> (flags: PaletteEntryFlags)
        ensures
            flags == Self::spec_from_bits_truncate(bits),
    {
        PaletteEntryFlags { bits: bits % 2 }
    }

    pub fn has_name(self) -> (b: bool)
        ensures
            b == self.spec_has_name(),
    {
        self.bits % 2 == 1
    }
}

/// The first index, the last index and the size of a palette chunk agree:
/// the chunk starts inside the palette and holds one entry for each index
/// from the first to the last.
pub open spec fn palette_range_ok(size: u32, first: u32, last: u32) -> bool {
    first < size && last >= first && last - first + 1 == size
}

/// An entry: a flag word, a color, and a name if the flags announce one.
pub open spec fn spec_parse_palette_entry(s: Seq<u8>) -> SpecResult<PaletteEntryView> {
    match spec_word(s) {
        Err(e) => Err(e),
        Ok((s, flags)) => match spec_parse_color(s) {
            Err(e) => Err(e),
            Ok((s, color)) => if PaletteEntryFlags::spec_from_bits_truncate(flags).spec_has_name() {
                match spec_parse_string(s) {
                    Err(e) => Err(e),
                    Ok((s, name)) => Ok((s, PaletteEntryView { color, name: Some(name) })),
                }
            } else {
                Ok((s, PaletteEntryView { color, name: None }))
            },
        },
    }
}

/// A palette chunk: size, first index, last index, 8 reserved bytes, then
/// one entry for each index of the range.
pub open spec fn spec_parse_palette_chunk(s: Seq<u8>) -> SpecResult<PaletteChunkView> {
    match spec_dword(s) {
        Err(e) => Err(e),
        Ok((s, size)) => match spec_dword(s) {
            Err(e) => Err(e),
            Ok((s, first)) => match spec_dword(s) {
                Err(e) => Err(e),
                Ok((s, last)) => if !palette_range_ok(size, first, last) {
                    Err(ParseError::InvalidPaletteRange)
                } else {
                    match spec_take(s, 8) {
                        Err(e) => Err(e),
                        Ok((s, _)) => match spec_count(
                            |s: Seq<u8>| spec_parse_palette_entry(s),
                            s,
                            size as nat,
                        ) {
                            Err(e) => Err(e),
                            Ok((s, entries)) => Ok(
                                (s, PaletteChunkView { first_index: first, entries }),
                            ),
                        },
                    }
                },
            },
        },
    }
}

pub fn parse_palette_entry(input: &[u8]) -> (r: ParseResult<'_, PaletteEntry<'_>>)
    ensures
        match r {
            Ok((rest, entry)) => spec_parse_palette_entry(input@) == Ok::<_, ParseError>(
                (rest@, entry@),
            ),
            Err(e) => spec_parse_palette_entry(input@) == Err::<(Seq<u8>, PaletteEntryView), _>(e),
        },
{
    let (input, flags) = word(input)?;
    let flags = PaletteEntryFlags::from_bits_truncate(flags);
    let (input, color) = parse_color(input)?;
    if flags.has_name() {
        let (input, name) = parse_string(input)?;
        Ok((input, PaletteEntry { color, name: Some(name) }))
    } else {
        Ok((input, PaletteEntry { color, name: None }))
    }
}

pub fn parse_palette_chunk(input: &[u8]) -> (r: ParseResult<'_, PaletteChunk<'_>>)
    ensures
        match r {
            Ok((rest, chunk)) => spec_parse_palette_chunk(input@) == Ok::<_, ParseError>(
                (rest@, chunk@),
            ),
            Err(e) => spec_parse_palette_chunk(input@) == Err::<(Seq<u8>, PaletteChunkView), _>(e),
        },
{
    let (rest, palette_size) = dword(input)?;
    let (rest, first_color_index) = dword(rest)?;
    let (rest, last_color_index) = dword(rest)?;
    if !(first_color_index < palette_size && last_color_index >= first_color_index
        && last_color_index - first_color_index == palette_size - 1) {
        return Err(ParseError::InvalidPaletteRange);
    }
    let (rest, _) = take(rest, 8)?;
    let ghost item = |s: Seq<u8>| spec_parse_palette_entry(s);
    let ghost start = rest@;
    let mut rest = rest;
    let mut entries: Vec<PaletteEntry<'_>> = Vec::new();
    let mut i: u32 = 0;
    proof {
        lemma_count_start(item, start, palette_size as nat);
        lemma_views_empty::<PaletteEntry<'_>>();
    }
    while i < palette_size
        invariant
            i <= palette_size,
            item == (|s: Seq<u8>| spec_parse_palette_entry(s)),
            spec_parse_palette_chunk(input@) == match spec_count(item, start, palette_size as nat) {
                Err(e) => Err::<(Seq<u8>, PaletteChunkView), ParseError>(e),
                Ok((s, entries)) => Ok(
                    (s, PaletteChunkView { first_index: first_color_index, entries }),
                ),
            },
            spec_count(item, start, palette_size as nat) == after(
                views(entries@),
                spec_count(item, rest@, (palette_size - i) as nat),
            ),
        decreases palette_size - i,
    {
        proof {
            lemma_count_step(item, rest@, (palette_size - i) as nat, views(entries@));
            assert(item(rest@) == spec_parse_palette_entry(rest@));
        }
        let (after_entry, entry) = parse_palette_entry(rest)?;
        proof {
            lemma_views_push(entries@, entry);
        }
        entries.push(entry);
        rest = after_entry;
        i += 1;
    }
    proof {
        lemma_count_end(item, rest@, views(entries@));
    }
    Ok((rest, PaletteChunk { first_index: first_color_index, entries }))
}

/// A palette chunk decodes only if its last index is its first index plus
/// its size less one; it then holds as many entries as its size says, and
/// they start at its first index.
pub proof fn lemma_palette_chunk_range(s: Seq<u8>)
    requires
        s.len() >= 12,
    ensures
        ({
            let size = spec_dword(s)->Ok_0.1;
            let first = spec_dword(s.skip(4))->Ok_0.1;
            let last = spec_dword(s.skip(8))->Ok_0.1;
            &&& !palette_range_ok(size, first, last) ==> spec_parse_palette_chunk(s) == Err::<
                (Seq<u8>, PaletteChunkView),
                _,
            >(ParseError::InvalidPaletteRange)
            &&& spec_parse_palette_chunk(s) matches Ok((_, chunk)) ==> {
                &&& last - first + 1 == size
                &&& chunk.first_index == first
                &&& chunk.entries.len() == size
            }
        }),
{
    let size = spec_dword(s)->Ok_0.1;
    let s1 = s.skip(4);
    let s2 = s1.skip(4);
    assert(s2 =~= s.skip(8));
    let s3 = s2.skip(4);
    if palette_range_ok(size, spec_dword(s1)->Ok_0.1, spec_dword(s2)->Ok_0.1) {
        match spec_take(s3, 8) {
            Err(e) => {},
            Ok((s4, _)) => {
                lemma_count_len(|s: Seq<u8>| spec_parse_palette_entry(s), s4, size as nat);
            },
        }
    }
}

} // verus!
