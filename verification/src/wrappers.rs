//! The parts of a sprite: layers, frames with their cels, and tags, each
//! with the user data that follows it in the file.

use vstd::prelude::*;
use ahash::{AHashMap, RandomState};
use core::ops::RangeInclusive;
use crate::binary::chunks::cel::{CelChunk, CelChunkView};
use crate::binary::chunks::layer::{LayerChunk, LayerChunkView};
use crate::binary::chunks::tags::{TagChunk, TagChunkView};
use crate::binary::chunks::user_data::{UserDataChunk, UserDataChunkView};
use crate::binary::repeat::views;
use crate::binary::scalars::Color;
use crate::hash_maps::{
    layer_parameter_entries, layer_parameters_get, layer_parameters_insert, layer_parameters_new,
};
use crate::keywords::{has_item, has_keyword, text_chars};

verus! {

/// A cel of a frame. There is usually one for each layer.
#[derive(Debug, Clone, Copy)]
pub struct Cel<'a> {
    pub chunk: CelChunk<'a>,
    pub user_data: UserDataChunk<'a>,
    /// Index of the image of the cel among the images of the file.
    pub image_index: usize,
}

pub struct CelView {
    pub chunk: CelChunkView,
    pub user_data: UserDataChunkView,
    pub image_index: usize,
}

impl View for Cel<'_> {
    type V = CelView;

    open spec fn view(&self) -> CelView {
        CelView { chunk: self.chunk@, user_data: self.user_data@, image_index: self.image_index }
    }
}

impl Cel<'_> {
    pub fn layer_index(&self) -> (index: usize)
        ensures
            index == self.chunk.layer_index,
    {
        self.chunk.layer_index as usize
    }

    /// Column of the canvas in which the left edge of the cel lies.
    pub fn x(&self) -> (x: i32)
        ensures
            x == self.chunk.x,
    {
        self.chunk.x as i32
    }

    /// Row of the canvas in which the top edge of the cel lies.
    pub fn y(&self) -> (y: i32)
        ensures
            y == self.chunk.y,
    {
        self.chunk.y as i32
    }

    pub fn z_index(&self) -> (z: i16)
        ensures
            z == self.chunk.z_index,
    {
        self.chunk.z_index
    }
}

/// A frame of the file: the cels that its layers show.
#[derive(Debug, Clone)]
pub struct Frame<'a> {
    /// In milliseconds.
    pub duration: u32,
    pub cells: Vec<Cel<'a>>,
}

pub struct FrameView {
    pub duration: u32,
    pub cells: Seq<CelView>,
}

impl View for Frame<'_> {
    type V = FrameView;

    open spec fn view(&self) -> FrameView {
        FrameView { duration: self.duration, cells: views(self.cells@) }
    }
}

impl FrameView {
    /// The cels come in the order of their layers.
    pub open spec fn sorted_by_layer(self) -> bool {
        forall|i: int, j: int|
            0 <= i < j < self.cells.len() ==> self.cells[i].chunk.layer_index
                <= self.cells[j].chunk.layer_index
    }

    /// Index of the first cel on the layer `layer_index`, or the number of
    /// cels if there is none.
    pub open spec fn first_on_layer(self, layer_index: int) -> int {
        first_on_layer_from(self.cells, layer_index, 0)
    }

    /// The first cel on the layer `layer_index`.
    pub open spec fn cell_at_layer_index(self, layer_index: int) -> Option<CelView> {
        let i = self.first_on_layer(layer_index);
        if i < self.cells.len() {
            Some(self.cells[i])
        } else {
            None
        }
    }
}

/// Index of the first cel from `from` on that lies on the layer
/// `layer_index`, or the number of cels if there is none.
pub open spec fn first_on_layer_from(cells: Seq<CelView>, layer_index: int, from: int) -> int
    decreases cells.len() - from,
{
    if from < 0 || from >= cells.len() {
        cells.len() as int
    } else if cells[from].chunk.layer_index == layer_index {
        from
    } else {
        first_on_layer_from(cells, layer_index, from + 1)
    }
}

/// Where the search for the first cel on a layer ends up, when every cel
/// before `from` lies on an earlier layer.
proof fn lemma_first_on_layer(cells: Seq<CelView>, layer_index: int, from: int, at: int)
    requires
        0 <= from <= at <= cells.len(),
        forall|i: int| from <= i < at ==> cells[i].chunk.layer_index != layer_index,
        at < cells.len() ==> cells[at].chunk.layer_index == layer_index,
    ensures
        first_on_layer_from(cells, layer_index, from) == at,
    decreases at - from,
{
    if from < at {
        lemma_first_on_layer(cells, layer_index, from + 1, at);
    }
}

impl<'a> Frame<'a> {
    /// The cels of the frame in their order.
    pub fn iter_cells(&self) -> (cells: &[Cel<'a>])
        ensures
            cells@ == self.cells@,
    {
        self.cells.as_slice()
    }

    /// The cel on the layer `layer_index`, found by halving the cels, which
    /// come in the order of their layers. Where they do, the result is the
    /// first cel on that layer, or `None` if there is no such cel. Where
    /// they do not, a cel that is found is still a cel of this frame on that
    /// layer.
    pub fn cell_at_layer_index(&self, layer_index: usize) -> (cell: Option<Cel<'a>>)
        ensures
            cell matches Some(c) ==> c.chunk.layer_index == layer_index && exists|i: int|
                0 <= i < self.cells@.len() && self.cells@[i] == c,
            self@.sorted_by_layer() ==> match cell {
                Some(c) => self@.cell_at_layer_index(layer_index as int) == Some(c@),
                None => self@.cell_at_layer_index(layer_index as int) is None,
            },
    {
        let mut low: usize = 0;
        let mut high: usize = self.cells.len();
        while low < high
            invariant
                low <= high <= self.cells@.len(),
                self@.sorted_by_layer() ==> forall|i: int|
                    0 <= i < low ==> (#[trigger] self.cells@[i]).chunk.layer_index < layer_index,
                self@.sorted_by_layer() ==> forall|i: int|
                    high <= i < self.cells@.len() ==> (#[trigger] self.cells@[i]).chunk.layer_index
                        >= layer_index,
            decreases high - low,
        {
            let mid = low + (high - low) / 2;
            if (self.cells[mid].chunk.layer_index as usize) < layer_index {
                proof {
                    if self@.sorted_by_layer() {
                        assert forall|i: int| 0 <= i < mid + 1 implies (
                        #[trigger] self.cells@[i]).chunk.layer_index < layer_index by {
                            assert(self@.cells[i] == self.cells@[i]@);
                            assert(self@.cells[mid as int] == self.cells@[mid as int]@);
                        }
                    }
                }
                low = mid + 1;
            } else {
                proof {
                    if self@.sorted_by_layer() {
                        assert forall|i: int| mid <= i < self.cells@.len() implies (
                        #[trigger] self.cells@[i]).chunk.layer_index >= layer_index by {
                            assert(self@.cells[i] == self.cells@[i]@);
                            assert(self@.cells[mid as int] == self.cells@[mid as int]@);
                        }
                    }
                }
                high = mid;
            }
        }
        proof {
            if self@.sorted_by_layer() {
                assert forall|i: int| 0 <= i < low implies self@.cells[i].chunk.layer_index
                    != layer_index by {
                    assert(self@.cells[i] == self.cells@[i]@);
                }
                if low < self.cells@.len() {
                    assert(self@.cells[low as int] == self.cells@[low as int]@);
                    if self.cells@[low as int].chunk.layer_index == layer_index {
                        lemma_first_on_layer(self@.cells, layer_index as int, 0, low as int);
                    } else {
                        assert forall|i: int| 0 <= i < self@.cells.len() implies self@.cells[i].chunk.layer_index
                            != layer_index by {
                            assert(self@.cells[i] == self.cells@[i]@);
                        }
                        lemma_first_on_layer(
                            self@.cells,
                            layer_index as int,
                            0,
                            self@.cells.len() as int,
                        );
                    }
                } else {
                    lemma_first_on_layer(self@.cells, layer_index as int, 0, self@.cells.len() as int);
                }
            }
        }
        if low < self.cells.len() && self.cells[low].chunk.layer_index as usize == layer_index {
            Some(self.cells[low])
        } else {
            None
        }
    }
}

/// A parameter that a keyword in the user data of a layer sets.
#[derive(Debug, Clone, Copy, PartialEq, Eq, Hash, Structural)]
pub enum LayerParameter {
    /// The cels of the layer mark hitboxes. Its keyword is `hitbox`.
    Hitbox,
    /// The layer is left out of images. Its keyword is `invisible`.
    Invisible,
}

/// A parameter that a keyword in the user data of a tag sets. No keyword
/// sets one so far.
#[derive(Debug, Clone, Copy, PartialEq, Eq, Hash, Structural)]
pub enum TagParameter {
    /// Kept for a parameter to come; nothing in a file stands for it.
    Reserved,
}

/// A parameter that a keyword in the user data of a frame sets. No keyword
/// sets one so far.
#[derive(Debug, Clone, Copy, PartialEq, Eq, Hash, Structural)]
pub enum FrameParameter {
    /// Kept for a parameter to come; nothing in a file stands for it.
    Reserved,
}

pub type LayerParameters = AHashMap<LayerParameter, String, RandomState>;

pub type TagParameters = Vec<(TagParameter, String)>;

impl LayerParameter {
    /// The keyword that sets the parameter.
    pub open spec fn spec_keyword(self) -> Seq<char> {
        match self {
            LayerParameter::Hitbox => seq!['h', 'i', 't', 'b', 'o', 'x'],
            LayerParameter::Invisible => seq!['i', 'n', 'v', 'i', 's', 'i', 'b', 'l', 'e'],
        }
    }

    pub fn keyword(self) -> (keyword: Vec<char>)
        ensures
            keyword@ == self.spec_keyword(),
    {
        let keyword = match self {
            LayerParameter::Hitbox => vec!['h', 'i', 't', 'b', 'o', 'x'],
            LayerParameter::Invisible => vec!['i', 'n', 'v', 'i', 's', 'i', 'b', 'l', 'e'],
        };
        assert(keyword@ =~= self.spec_keyword());
        keyword
    }
}

/// The parameters that the list of keywords `text` sets: each parameter
/// whose keyword is an item of the list, with an empty value.
pub open spec fn spec_layer_parameters(text: Seq<char>) -> Map<LayerParameter, Seq<char>> {
    Map::new(
        |parameter: LayerParameter| has_item(text, parameter.spec_keyword()),
        |parameter: LayerParameter| Seq::<char>::empty(),
    )
}

impl UserDataChunk<'_> {
    /// The parameters of a layer that the text of the user data sets.
    pub fn parse_text_as_layer_parameters(&self) -> (parameters: LayerParameters)
        ensures
            layer_parameter_entries(parameters) == spec_layer_parameters(self@.text_or_empty()),
    {
        let chars = match self.text {
            Some(text) => text_chars(text),
            None => Vec::new(),
        };
        let mut parameters = layer_parameters_new();
        if has_keyword(&chars, &LayerParameter::Hitbox.keyword()) {
            layer_parameters_insert(&mut parameters, LayerParameter::Hitbox, String::new());
        }
        if has_keyword(&chars, &LayerParameter::Invisible.keyword()) {
            layer_parameters_insert(&mut parameters, LayerParameter::Invisible, String::new());
        }
        assert(layer_parameter_entries(parameters) =~= spec_layer_parameters(
            self@.text_or_empty(),
        ));
        parameters
    }

    /// The parameters of a tag that the text of the user data sets. No
    /// keyword sets a parameter of a tag so far, so there are none.
    pub fn parse_text_as_tag_parameters(&self) -> (parameters: TagParameters)
        ensures
            parameters@ == (Seq::<(TagParameter, String)>::empty()),
    {
        Vec::new()
    }
}

/// A tag of the file: a range of frames under a name.
#[derive(Debug, Clone)]
pub struct Tag<'a> {
    pub chunk: TagChunk<'a>,
    pub user_data: UserDataChunk<'a>,
    pub parameters: TagParameters,
}

pub struct TagView {
    pub chunk: TagChunkView,
    pub user_data: UserDataChunkView,
}

impl View for Tag<'_> {
    type V = TagView;

    open spec fn view(&self) -> TagView {
        TagView { chunk: self.chunk@, user_data: self.user_data@ }
    }
}

impl<'a> Tag<'a> {
    /// The frames of the tag, from the first to the last.
    pub fn frame_range(&self) -> (range: RangeInclusive<usize>)
        ensures
            range@.start == self.chunk.frames.0,
            range@.end == self.chunk.frames.1,
            !range@.exhausted,
    {
        RangeInclusive::new(self.chunk.frames.0 as usize, self.chunk.frames.1 as usize)
    }

    pub fn name(&self) -> (name: &'a str)
        ensures
            name@ == self@.chunk.name,
    {
        self.chunk.name
    }
}

/// A layer of the file.
#[derive(Debug)]
pub struct Layer<'a> {
    pub chunk: LayerChunk<'a>,
    pub user_data: UserDataChunk<'a>,
    /// What the keywords in the text of the user data set.
    pub parameters: LayerParameters,
}

pub struct LayerView {
    pub chunk: LayerChunkView,
    pub user_data: UserDataChunkView,
    pub parameters: Map<LayerParameter, Seq<char>>,
}

impl View for Layer<'_> {
    type V = LayerView;

    open spec fn view(&self) -> LayerView {
        LayerView {
            chunk: self.chunk@,
            user_data: self.user_data@,
            parameters: layer_parameter_entries(self.parameters),
        }
    }
}

impl LayerView {
    /// The layer has the parameter.
    pub open spec fn has(self, parameter: LayerParameter) -> bool {
        self.parameters.dom().contains(parameter)
    }

    /// The layer takes part in images: its visible flag is set and no
    /// keyword leaves it out.
    pub open spec fn shown(self) -> bool {
        self.chunk.flags.spec_visible() && !self.has(LayerParameter::Invisible)
    }
}

impl<'a> Layer<'a> {
    pub fn name(&self) -> (name: &'a str)
        ensures
            name@ == self@.chunk.name,
    {
        self.chunk.name
    }

    /// The visible flag of the layer.
    pub fn visible(&self) -> (visible: bool)
        ensures
            visible == self@.chunk.flags.spec_visible(),
    {
        self.chunk.flags.visible()
    }

    /// Whether the layer has the parameter.
    pub fn has(&self, parameter: LayerParameter) -> (has: bool)
        ensures
            has == self@.has(parameter),
    {
        layer_parameters_get(&self.parameters, parameter).is_some()
    }

    /// Whether the layer takes part in images.
    pub fn shown(&self) -> (shown: bool)
        ensures
            shown == self@.shown(),
    {
        self.visible() && !self.has(LayerParameter::Invisible)
    }
}

/// The channels of a pixel.
pub trait PixelExt: Sized {
    /// Red, green, blue and alpha.
    spec fn channels(&self) -> (u8, u8, u8, u8);

    fn r(&self) -> (red: u8)
        ensures
            red == self.channels().0,
    ;

    fn b(&self) -> (blue: u8)
        ensures
            blue == self.channels().2,
    ;

    fn g(&self) -> (green: u8)
        ensures
            green == self.channels().1,
    ;

    fn a(&self) -> (alpha: u8)
        ensures
            alpha == self.channels().3,
    ;

    /// The pixel whose channels are all zero.
    fn zeroed() -> (pixel: Self)
        ensures
            pixel.channels() == (0u8, 0u8, 0u8, 0u8),
    ;
}

impl PixelExt for Color {
    open spec fn channels(&self) -> (u8, u8, u8, u8) {
        (self.red, self.green, self.blue, self.alpha)
    }

    fn r(&self) -> (red: u8) {
        self.red
    }

    fn b(&self) -> (blue: u8) {
        self.blue
    }

    fn g(&self) -> (green: u8) {
        self.green
    }

    fn a(&self) -> (alpha: u8) {
        self.alpha
    }

    fn zeroed() -> (pixel: Color) {
        Color { red: 0, green: 0, blue: 0, alpha: 0 }
    }
}

} // verus!
