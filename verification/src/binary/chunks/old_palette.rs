//! The two palette chunks of old files, which differ only in the range of
//! their color channels.

use vstd::prelude::*;
use crate::binary::errors::{ParseError, ParseResult, SpecResult};
use crate::binary::repeat::{
    after, lemma_count_end, lemma_count_start, lemma_count_step, lemma_views_empty,
    lemma_views_push, spec_count, views,
};
use crate::binary::scalars::{skip, spec_take, spec_word, take, word};

verus! {

#[derive(Debug)]
pub struct OldPaletteChunk<'a> {
    pub packets: Vec<OldPalettePacket<'a>>,
}

/// A run of colors that follows the entries before it after a gap.
#[derive(Debug, Clone, Copy)]
pub struct OldPalettePacket<'a> {
    /// Number of palette entries to leave out after the last packet.
    pub entries_to_skip: u8,
    /// The colors: red, green and blue of each, one byte per channel.
    pub colors: &'a [u8],
}

pub struct OldPalettePacketView {
    pub entries_to_skip: u8,
    pub colors: Seq<u8>,
}

pub struct OldPaletteChunkView {
    pub packets: Seq<OldPalettePacketView>,
}

impl View for OldPalettePacket<'_> {
    type V = OldPalettePacketView;

    open spec fn view(&self) -> OldPalettePacketView {
        OldPalettePacketView { entries_to_skip: self.entries_to_skip, colors: self.colors@ }
    }
}

impl View for OldPaletteChunk<'_> {
    type V = OldPaletteChunkView;

    open spec fn view(&self) -> OldPaletteChunkView {
        OldPaletteChunkView { packets: views(self.packets@) }
    }
}

/// Number of colors in a packet whose count byte is `count`: 0 stands for
/// 256.
pub open spec fn packet_colors(count: u8) -> nat {
    if count == 0 {
        256
    } else {
        count as nat
    }
}

/// A packet: entries to skip, number of colors, then 3 bytes for each
/// color.
pub open spec fn spec_parse_old_palette_packet(s: Seq<u8>) -> SpecResult<OldPalettePacketView> {
    if s.len() < 2 {
        Err(ParseError::UnexpectedEof)
    } else {
        match spec_take(s.skip(2), 3 * packet_colors(s[1])) {
            Err(e) => Err(e),
            Ok((rest, colors)) => Ok(
                (rest, OldPalettePacketView { entries_to_skip: s[0], colors }),
            ),
        }
    }
}

/// An old palette chunk: the number of packets, then the packets.
pub open spec fn spec_parse_old_palette_chunk(s: Seq<u8>) -> SpecResult<OldPaletteChunkView> {
    match spec_word(s) {
        Err(e) => Err(e),
        Ok((s, number_of_packets)) => match spec_count(
            |s: Seq<u8>| spec_parse_old_palette_packet(s),
            s,
            number_of_packets as nat,
        ) {
            Err(e) => Err(e),
            Ok((s, packets)) => Ok((s, OldPaletteChunkView { packets })),
        },
    }
}

pub fn parse_old_palette_packet(input: &[u8]) -> (r: ParseResult<'_, OldPalettePacket<'_>>)
    ensures
        match r {
            Ok((rest, packet)) => spec_parse_old_palette_packet(input@) == Ok::<_, ParseError>(
                (rest@, packet@),
            ),
            Err(e) => spec_parse_old_palette_packet(input@) == Err::<
                (Seq<u8>, OldPalettePacketView),
                _,
            >(e),
        },
{
    if input.len() < 2 {
        return Err(ParseError::UnexpectedEof);
    }
    let entries_to_skip = input[0];
    let count: usize = if input[1] == 0 {
        256
    } else {
        input[1] as usize
    };
    let (rest, colors) = take(skip(input, 2), 3 * count)?;
    Ok((rest, OldPalettePacket { entries_to_skip, colors }))
}

pub fn parse_old_palette_chunk(input: &[u8]) -> (r: ParseResult<'_, OldPaletteChunk<'_>>)
    ensures
        match r {
            Ok((rest, chunk)) => spec_parse_old_palette_chunk(input@) == Ok::<_, ParseError>(
                (rest@, chunk@),
            ),
            Err(e) => spec_parse_old_palette_chunk(input@) == Err::<
                (Seq<u8>, OldPaletteChunkView),
                _,
            >(e),
        },
{
    let (rest, number_of_packets) = word(input)?;
    let ghost item = |s: Seq<u8>| spec_parse_old_palette_packet(s);
    let ghost start = rest@;
    let mut rest = rest;
    let mut packets: Vec<OldPalettePacket<'_>> = Vec::new();
    let mut i: u16 = 0;
    proof {
        lemma_count_start(item, start, number_of_packets as nat);
        lemma_views_empty::<OldPalettePacket<'_>>();
    }
    while i < number_of_packets
        invariant
            i <= number_of_packets,
            item == (|s: Seq<u8>| spec_parse_old_palette_packet(s)),
            spec_parse_old_palette_chunk(input@) == match spec_count(
                item,
                start,
                number_of_packets as nat,
            ) {
                Err(e) => Err::<(Seq<u8>, OldPaletteChunkView), ParseError>(e),
                Ok((s, packets)) => Ok((s, OldPaletteChunkView { packets })),
            },
            spec_count(item, start, number_of_packets as nat) == after(
                views(packets@),
                spec_count(item, rest@, (number_of_packets - i) as nat),
            ),
        decreases number_of_packets - i,
    {
        proof {
            lemma_count_step(item, rest@, (number_of_packets - i) as nat, views(packets@));
            assert(item(rest@) == spec_parse_old_palette_packet(rest@));
        }
        let (after_packet, packet) = parse_old_palette_packet(rest)?;
        proof {
            lemma_views_push(packets@, packet);
        }
        packets.push(packet);
        rest = after_packet;
        i += 1;
    }
    proof {
        lemma_count_end(item, rest@, views(packets@));
    }
    Ok((rest, OldPaletteChunk { packets }))
}

} // verus!
