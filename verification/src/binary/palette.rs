//! The colors that the pixels of an indexed image stand for.

use vstd::prelude::*;
use crate::binary::chunks::palette::{PaletteChunk, PaletteChunkView};
use crate::binary::scalars::Color;
use crate::pixels::transparent;

verus! {

/// A palette: the color of index `i` is `colors[i]`.
#[derive(Debug)]
pub struct Palette {
    pub colors: Vec<Color>,
}

impl View for Palette {
    type V = Seq<Color>;

    open spec fn view(&self) -> Seq<Color> {
        self.colors@
    }
}

impl Default for Palette {
    fn default() -> (palette: Palette)
        ensures
            palette@ == Seq::<Color>::empty(),
    {
        Palette { colors: Vec::new() }
    }
}

/// Number of colors that a palette must have to take in `chunk`.
pub open spec fn palette_reach(chunk: PaletteChunkView) -> nat {
    chunk.first_index as nat + chunk.entries.len()
}

/// The palette `colors` with the entries of `chunk` laid over it from the
/// first index of the chunk on. A palette that is too short for them grows
/// by transparent colors first.
pub open spec fn merge_palette(colors: Seq<Color>, chunk: PaletteChunkView) -> Seq<Color> {
    Seq::new(
        if colors.len() < palette_reach(chunk) {
            palette_reach(chunk)
        } else {
            colors.len()
        },
        |i: int|
            if chunk.first_index <= i < palette_reach(chunk) {
                chunk.entries[i - chunk.first_index].color
            } else if i < colors.len() {
                colors[i]
            } else {
                transparent()
            },
    )
}

/// The palette `colors` with the alpha of the color at `index` set to
/// zero, if it has a color there.
pub open spec fn clear_alpha(colors: Seq<Color>, index: u8) -> Seq<Color> {
    if index < colors.len() {
        colors.update(
            index as int,
            Color {
                red: colors[index as int].red,
                green: colors[index as int].green,
                blue: colors[index as int].blue,
                alpha: 0,
            },
        )
    } else {
        colors
    }
}

impl Palette {
    /// Lays the entries of `chunk` over the palette.
    pub fn merge(&mut self, chunk: &PaletteChunk<'_>)
        requires
            palette_reach(chunk@) <= usize::MAX,
        ensures
            final(self)@ == merge_palette(old(self)@, chunk@),
    {
        let first: usize = chunk.first_index as usize;
        let reach: usize = first + chunk.entries.len();
        let ghost before = self.colors@;
        while self.colors.len() < reach
            invariant
                before.len() <= self.colors@.len(),
                self.colors@.len() <= reach || self.colors@ == before,
                forall|i: int| 0 <= i < before.len() ==> self.colors@[i] == before[i],
                forall|i: int| before.len() <= i < self.colors@.len() ==> self.colors@[i] == transparent(),
            decreases reach - self.colors@.len(),
        {
            self.colors.push(Color { red: 0, green: 0, blue: 0, alpha: 0 });
        }
        let ghost grown = self.colors@;
        let mut i: usize = 0;
        while i < chunk.entries.len()
            invariant
                i <= chunk.entries@.len(),
                first == chunk.first_index,
                reach == first + chunk.entries@.len(),
                reach <= self.colors@.len(),
                self.colors@.len() == grown.len(),
                forall|k: int|
                    0 <= k < grown.len() && !(first <= k < first + i) ==> self.colors@[k] == grown[k],
                forall|k: int|
                    first <= k < first + i ==> self.colors@[k] == chunk.entries@[k - first].color,
            decreases chunk.entries@.len() - i,
        {
            self.colors.set(first + i, chunk.entries[i].color);
            i += 1;
        }
        proof {
            assert forall|k: int| 0 <= k < chunk.entries@.len() implies chunk@.entries[k].color
                == chunk.entries@[k].color by {
                assert(chunk@.entries[k] == chunk.entries@[k]@);
            }
            let merged = merge_palette(before, chunk@);
            assert(self.colors@.len() == merged.len());
            assert forall|k: int| 0 <= k < merged.len() implies self.colors@[k] == merged[k] by {
                if first <= k < reach {
                    assert(self.colors@[k] == chunk.entries@[k - first].color);
                } else {
                    assert(self.colors@[k] == grown[k]);
                }
            }
            assert(self.colors@ =~= merged);
        }
    }

    /// Makes the color at `index` fully transparent, if there is one.
    pub fn clear_alpha(&mut self, index: u8)
        ensures
            final(self)@ == clear_alpha(old(self)@, index),
    {
        if (index as usize) < self.colors.len() {
            let color = self.colors[index as usize];
            self.colors.set(
                index as usize,
                Color { red: color.red, green: color.green, blue: color.blue, alpha: 0 },
            );
        }
    }
}

} // verus!
