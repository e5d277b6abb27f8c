//! Folding the chunks of a file into the parts of a sprite.
//!
//! The chunks of each frame are walked once, from the first to the last. A
//! layer, a cel and each tag of a tags chunk may be followed by a user data
//! chunk that belongs to it: after each of them the next chunk is looked at,
//! and taken along if it is user data.

use vstd::prelude::*;
use ahash::{AHashMap, RandomState};
use crate::binary::chunk::{Chunk, ChunkView};
use crate::binary::chunks::cel::{CelChunk, CelChunkView, CelContent, CelContentView};
use crate::binary::chunks::color_profile::{ColorProfileChunk, ColorProfileChunkView};
use crate::binary::chunks::layer::{LayerChunk, LayerChunkView, LayerType};
use crate::binary::chunks::palette::{PaletteChunk, PaletteChunkView};
use crate::binary::chunks::slice::{SliceChunk, SliceChunkView, SliceKey};
use crate::binary::chunks::tags::{TagChunk, TagChunkView};
use crate::binary::chunks::tileset::{TilesetChunk, TilesetChunkView};
use crate::binary::chunks::user_data::{UserDataChunk, UserDataChunkView};
use crate::binary::image::{Image, ImageView};
use crate::binary::palette::{merge_palette, palette_reach, Palette};
use crate::binary::raw_frame::{RawFrame, RawFrameView};
use crate::binary::repeat::{lemma_views_empty, lemma_views_push, views};
use crate::binary::scalars::Color;
use crate::hash_maps::{image_map_entries, image_map_get, image_map_insert, image_map_new};
use crate::loader::LoadSpriteError;
use crate::wrappers::{
    spec_layer_parameters, Cel, CelView, Frame, FrameView, Layer, LayerView, Tag, TagView,
};

verus! {

/// The parts of a sprite gathered so far.
pub struct Assembly {
    pub palette: Seq<Color>,
    /// A palette chunk was met.
    pub palette_seen: bool,
    pub color_profile: Option<ColorProfileChunkView>,
    pub layers: Seq<LayerView>,
    /// The frames that are complete.
    pub frames: Seq<FrameView>,
    /// The cels of the frame that is being read.
    pub cells: Seq<CelView>,
    pub tags: Seq<TagView>,
    pub images: Seq<ImageView>,
    pub tilesets: Seq<TilesetChunkView>,
    pub slices: Seq<SliceChunkView>,
    /// For each cel with an image of its own, by its frame and its layer,
    /// the index of that image.
    pub image_map: Map<(usize, u16), usize>,
}

/// The user data that belongs to the chunk before `at`, and where the walk
/// goes on: the chunk at `at` and the place behind it, if that chunk is
/// user data; else empty user data and `at` itself.
pub open spec fn trailing_user_data(chunks: Seq<ChunkView>, at: int) -> (UserDataChunkView, int) {
    if 0 <= at < chunks.len() && chunks[at] is UserData {
        (chunks[at]->UserData_0, at + 1)
    } else {
        (UserDataChunkView::empty(), at)
    }
}

impl Assembly {
    /// Nothing gathered yet.
    pub open spec fn start() -> Assembly {
        Assembly {
            palette: Seq::empty(),
            palette_seen: false,
            color_profile: None,
            layers: Seq::empty(),
            frames: Seq::empty(),
            cells: Seq::empty(),
            tags: Seq::empty(),
            images: Seq::empty(),
            tilesets: Seq::empty(),
            slices: Seq::empty(),
            image_map: Map::empty(),
        }
    }

    /// A layer joins the layers, with the parameters that the text of its
    /// user data sets. Groups of layers are not taken.
    pub open spec fn add_layer(self, chunk: LayerChunkView, user_data: UserDataChunkView) -> Result<
        Assembly,
        LoadSpriteError,
    > {
        match chunk.layer_type {
            LayerType::Group => Err(LoadSpriteError::LayerGroupsNotImplemented),
            LayerType::Unknown(kind) => Err(LoadSpriteError::UnknownLayerType(kind)),
            _ => Ok(
                Assembly {
                    layers: self.layers.push(
                        LayerView {
                            chunk,
                            user_data,
                            parameters: spec_layer_parameters(user_data.text_or_empty()),
                        },
                    ),
                    ..self
                },
            ),
        }
    }

    /// A cel joins the cels of the frame that is being read. The cels of a
    /// frame come in the order of their layers: a cel on a lower layer than
    /// the cel before it is not taken. A cel with an image of its own adds
    /// the image to the images and notes its index under the frame and the
    /// layer of the cel. A linked cel takes the index that is noted under the
    /// frame it names and its own layer; the frame must be an earlier one.
    /// Tilemaps are not taken.
    pub open spec fn add_cel(self, chunk: CelChunkView, user_data: UserDataChunkView) -> Result<
        Assembly,
        LoadSpriteError,
    > {
        if self.cells.len() > 0 && self.cells.last().chunk.layer_index > chunk.layer_index {
            Err(
                LoadSpriteError::CelsOutOfOrder {
                    frame: self.frames.len() as usize,
                    layer: chunk.layer_index,
                },
            )
        } else {
            self.add_cel_in_order(chunk, user_data)
        }
    }

    /// A cel that lies on no lower layer than the cel before it joins the
    /// cels of the frame that is being read.
    pub open spec fn add_cel_in_order(self, chunk: CelChunkView, user_data: UserDataChunkView)
        -> Result<Assembly, LoadSpriteError> {
        match chunk.content {
            CelContentView::Image(image) => Ok(
                Assembly {
                    images: self.images.push(image),
                    image_map: self.image_map.insert(
                        (self.frames.len() as usize, chunk.layer_index),
                        self.images.len() as usize,
                    ),
                    cells: self.cells.push(
                        CelView { chunk, user_data, image_index: self.images.len() as usize },
                    ),
                    ..self
                },
            ),
            CelContentView::LinkedCel { frame_position } => if frame_position < self.frames.len()
                && self.image_map.dom().contains((frame_position as usize, chunk.layer_index)) {
                Ok(
                    Assembly {
                        cells: self.cells.push(
                            CelView {
                                chunk,
                                user_data,
                                image_index: self.image_map[(
                                    frame_position as usize,
                                    chunk.layer_index,
                                )],
                            },
                        ),
                        ..self
                    },
                )
            } else {
                Err(
                    LoadSpriteError::UnresolvedLinkedCel {
                        frame: frame_position,
                        layer: chunk.layer_index,
                    },
                )
            },
            CelContentView::CompressedTilemap { .. } => Err(LoadSpriteError::TilemapsNotImplemented),
            CelContentView::Unknown(kind) => Err(LoadSpriteError::UnknownCelContent(kind)),
        }
    }

    /// A tag joins the tags.
    pub open spec fn add_tag(self, chunk: TagChunkView, user_data: UserDataChunkView) -> Assembly {
        Assembly { tags: self.tags.push(TagView { chunk, user_data }), ..self }
    }

    /// The entries of a palette chunk are laid over the palette. A chunk
    /// that reaches beyond what this machine can index is not taken.
    pub open spec fn add_palette(self, chunk: PaletteChunkView) -> Result<Assembly, LoadSpriteError> {
        if palette_reach(chunk) > usize::MAX {
            Err(LoadSpriteError::PaletteTooLarge)
        } else {
            Ok(
                Assembly {
                    palette: merge_palette(self.palette, chunk),
                    palette_seen: true,
                    ..self
                },
            )
        }
    }

    /// The color profile is kept. A file has one at most.
    pub open spec fn add_color_profile(self, chunk: ColorProfileChunkView) -> Result<
        Assembly,
        LoadSpriteError,
    > {
        if self.color_profile is Some {
            Err(LoadSpriteError::DuplicateColorProfile)
        } else {
            Ok(Assembly { color_profile: Some(chunk), ..self })
        }
    }

    pub open spec fn add_tileset(self, chunk: TilesetChunkView) -> Assembly {
        Assembly { tilesets: self.tilesets.push(chunk), ..self }
    }

    pub open spec fn add_slice(self, chunk: SliceChunkView) -> Assembly {
        Assembly { slices: self.slices.push(chunk), ..self }
    }

    /// The frame that is being read is complete.
    pub open spec fn close_frame(self, duration: u16) -> Assembly {
        Assembly {
            frames: self.frames.push(FrameView { duration: duration as u32, cells: self.cells }),
            cells: Seq::empty(),
            ..self
        }
    }
}

/// The tags of a tags chunk from number `k` on join the tags, each with the
/// user data that belongs to it: the first user data chunk behind the tags
/// chunk belongs to the first tag, the next to the second, and so on, until
/// a chunk is met that is no user data.
pub open spec fn add_tags(
    state: Assembly,
    tags: Seq<TagChunkView>,
    k: int,
    chunks: Seq<ChunkView>,
    at: int,
) -> (Assembly, int)
    decreases tags.len() - k,
{
    if k < 0 || k >= tags.len() {
        (state, at)
    } else {
        let (user_data, next) = trailing_user_data(chunks, at);
        add_tags(state.add_tag(tags[k], user_data), tags, k + 1, chunks, next)
    }
}

/// What the chunk at `at` adds, and where the walk goes on.
pub open spec fn step(state: Assembly, chunks: Seq<ChunkView>, at: int) -> Result<
    (Assembly, int),
    LoadSpriteError,
> {
    match chunks[at] {
        ChunkView::Layer(chunk) => {
            let (user_data, next) = trailing_user_data(chunks, at + 1);
            match state.add_layer(chunk, user_data) {
                Err(e) => Err(e),
                Ok(state) => Ok((state, next)),
            }
        },
        ChunkView::Cel(chunk) => {
            let (user_data, next) = trailing_user_data(chunks, at + 1);
            match state.add_cel(chunk, user_data) {
                Err(e) => Err(e),
                Ok(state) => Ok((state, next)),
            }
        },
        ChunkView::Tags(chunk) => Ok(add_tags(state, chunk.tags, 0, chunks, at + 1)),
        ChunkView::Palette(chunk) => match state.add_palette(chunk) {
            Err(e) => Err(e),
            Ok(state) => Ok((state, at + 1)),
        },
        ChunkView::ColorProfile(chunk) => match state.add_color_profile(chunk) {
            Err(e) => Err(e),
            Ok(state) => Ok((state, at + 1)),
        },
        ChunkView::Tileset(chunk) => Ok((state.add_tileset(chunk), at + 1)),
        ChunkView::Slice(chunk) => Ok((state.add_slice(chunk), at + 1)),
        _ => Ok((state, at + 1)),
    }
}

/// The walk never goes back and never leaves the chunks.
pub proof fn lemma_add_tags_advances(
    state: Assembly,
    tags: Seq<TagChunkView>,
    k: int,
    chunks: Seq<ChunkView>,
    at: int,
)
    requires
        0 <= at <= chunks.len(),
    ensures
        at <= add_tags(state, tags, k, chunks, at).1 <= chunks.len(),
    decreases tags.len() - k,
{
    if 0 <= k < tags.len() {
        let (user_data, next) = trailing_user_data(chunks, at);
        lemma_add_tags_advances(state.add_tag(tags[k], user_data), tags, k + 1, chunks, next);
    }
}

/// A step moves the walk on by one chunk at least and never leaves the
/// chunks.
pub proof fn lemma_step_advances(state: Assembly, chunks: Seq<ChunkView>, at: int)
    requires
        0 <= at < chunks.len(),
    ensures
        step(state, chunks, at) matches Ok((_, next)) ==> at < next <= chunks.len(),
{
    match chunks[at] {
        ChunkView::Tags(chunk) => {
            lemma_add_tags_advances(state, chunk.tags, 0, chunks, at + 1);
        },
        _ => {},
    }
}

/// What the chunks from `at` on add.
pub open spec fn run_chunks(state: Assembly, chunks: Seq<ChunkView>, at: int) -> Result<
    Assembly,
    LoadSpriteError,
>
    decreases chunks.len() - at,
{
    if at < 0 || at >= chunks.len() {
        Ok(state)
    } else {
        proof {
            lemma_step_advances(state, chunks, at);
        }
        match step(state, chunks, at) {
            Err(e) => Err(e),
            Ok((state, next)) => run_chunks(state, chunks, next),
        }
    }
}

/// What the frames from number `k` on add.
pub open spec fn run_frames(state: Assembly, frames: Seq<RawFrameView>, k: int) -> Result<
    Assembly,
    LoadSpriteError,
>
    decreases frames.len() - k,
{
    if k < 0 || k >= frames.len() {
        Ok(state)
    } else {
        match run_chunks(state, frames[k].chunks, 0) {
            Err(e) => Err(e),
            Ok(state) => run_frames(state.close_frame(frames[k].duration), frames, k + 1),
        }
    }
}

/// The parts of the sprite that the frames of a file hold.
pub open spec fn assemble(frames: Seq<RawFrameView>) -> Result<Assembly, LoadSpriteError> {
    run_frames(Assembly::start(), frames, 0)
}

impl Assembly {
    /// Every index of an image that is noted anywhere is the index of an
    /// image that was gathered.
    pub open spec fn indexes_ok(self) -> bool {
        &&& forall|key: (usize, u16)| #[trigger]
            self.image_map.dom().contains(key) ==> self.image_map[key] < self.images.len()
        &&& forall|c: int|
            0 <= c < self.cells.len() ==> (#[trigger] self.cells[c]).image_index
                < self.images.len()
        &&& forall|f: int, c: int|
            0 <= f < self.frames.len() && 0 <= c < self.frames[f].cells.len() ==> (
            #[trigger] self.frames[f].cells[c]).image_index < self.images.len()
    }
}

impl Assembly {
    /// The cels of each frame, and of the frame that is being read, come in
    /// the order of their layers.
    pub open spec fn sorted(self) -> bool {
        &&& (FrameView { duration: 0, cells: self.cells }).sorted_by_layer()
        &&& forall|f: int| 0 <= f < self.frames.len() ==> (#[trigger] self.frames[f]).sorted_by_layer()
    }
}

pub proof fn lemma_step_keeps_sorted(state: Assembly, chunks: Seq<ChunkView>, at: int)
    requires
        state.sorted(),
        0 <= at < chunks.len(),
    ensures
        step(state, chunks, at) matches Ok((after, _)) ==> after.sorted(),
{
    match chunks[at] {
        ChunkView::Tags(chunk) => {
            lemma_add_tags_keeps(state, chunk.tags, 0, chunks, at + 1);
        },
        ChunkView::Cel(chunk) => {
            let (user_data, next) = trailing_user_data(chunks, at + 1);
            match state.add_cel(chunk, user_data) {
                Err(e) => {},
                Ok(after) => {
                    assert(after.frames == state.frames);
                    assert forall|i: int, j: int| 0 <= i < j < after.cells.len() implies after.cells[i].chunk.layer_index
                        <= after.cells[j].chunk.layer_index by {
                        if j < state.cells.len() {
                            assert(after.cells[i] == state.cells[i]);
                            assert(after.cells[j] == state.cells[j]);
                        } else {
                            assert(after.cells[i] == state.cells[i]);
                            assert(after.cells[j].chunk == chunk);
                            if i < state.cells.len() - 1 {
                                assert(state.cells[i].chunk.layer_index <= state.cells[state.cells.len()
                                    - 1].chunk.layer_index);
                            }
                        }
                    }
                },
            }
        },
        _ => {},
    }
}

pub proof fn lemma_run_chunks_keeps_sorted(state: Assembly, chunks: Seq<ChunkView>, at: int)
    requires
        state.sorted(),
        0 <= at,
    ensures
        run_chunks(state, chunks, at) matches Ok(after) ==> after.sorted(),
    decreases chunks.len() - at,
{
    if at < chunks.len() {
        lemma_step_advances(state, chunks, at);
        lemma_step_keeps_sorted(state, chunks, at);
        match step(state, chunks, at) {
            Err(e) => {},
            Ok((after, next)) => {
                lemma_run_chunks_keeps_sorted(after, chunks, next);
            },
        }
    }
}

pub proof fn lemma_run_frames_keeps_sorted(state: Assembly, frames: Seq<RawFrameView>, k: int)
    requires
        state.sorted(),
        0 <= k,
    ensures
        run_frames(state, frames, k) matches Ok(after) ==> after.sorted(),
    decreases frames.len() - k,
{
    if k < frames.len() {
        lemma_run_chunks_keeps_sorted(state, frames[k].chunks, 0);
        match run_chunks(state, frames[k].chunks, 0) {
            Err(e) => {},
            Ok(after) => {
                let closed = after.close_frame(frames[k].duration);
                assert forall|f: int| 0 <= f < closed.frames.len() implies (
                #[trigger] closed.frames[f]).sorted_by_layer() by {
                    if f < after.frames.len() {
                        assert(closed.frames[f] == after.frames[f]);
                    } else {
                        assert(closed.frames[f].cells == after.cells);
                    }
                }
                lemma_run_frames_keeps_sorted(closed, frames, k + 1);
            },
        }
    }
}

/// In the parts of a sprite, the cels of each frame come in the order of
/// their layers.
pub proof fn lemma_assemble_sorted(frames: Seq<RawFrameView>)
    ensures
        assemble(frames) matches Ok(parts) ==> forall|f: int|
            0 <= f < parts.frames.len() ==> (#[trigger] parts.frames[f]).sorted_by_layer(),
{
    lemma_run_frames_keeps_sorted(Assembly::start(), frames, 0);
}

/// Tags leave everything but the tags as it was.
pub proof fn lemma_add_tags_keeps(
    state: Assembly,
    tags: Seq<TagChunkView>,
    k: int,
    chunks: Seq<ChunkView>,
    at: int,
)
    ensures
        add_tags(state, tags, k, chunks, at).0 == (Assembly {
            tags: add_tags(state, tags, k, chunks, at).0.tags,
            ..state
        }),
    decreases tags.len() - k,
{
    if 0 <= k < tags.len() {
        let (user_data, next) = trailing_user_data(chunks, at);
        lemma_add_tags_keeps(state.add_tag(tags[k], user_data), tags, k + 1, chunks, next);
    }
}

pub proof fn lemma_step_keeps_indexes(state: Assembly, chunks: Seq<ChunkView>, at: int)
    requires
        state.indexes_ok(),
        0 <= at < chunks.len(),
    ensures
        step(state, chunks, at) matches Ok((after, _)) ==> after.indexes_ok(),
{
    match chunks[at] {
        ChunkView::Tags(chunk) => {
            lemma_add_tags_keeps(state, chunk.tags, 0, chunks, at + 1);
        },
        ChunkView::Cel(chunk) => {
            let (user_data, next) = trailing_user_data(chunks, at + 1);
            match state.add_cel(chunk, user_data) {
                Err(e) => {},
                Ok(after) => {
                    assert forall|c: int| 0 <= c < after.cells.len() implies (
                    #[trigger] after.cells[c]).image_index < after.images.len() by {
                        if c < state.cells.len() {
                            assert(after.cells[c] == state.cells[c]);
                        }
                    }
                },
            }
        },
        _ => {},
    }
}

pub proof fn lemma_run_chunks_keeps_indexes(state: Assembly, chunks: Seq<ChunkView>, at: int)
    requires
        state.indexes_ok(),
        0 <= at,
    ensures
        run_chunks(state, chunks, at) matches Ok(after) ==> after.indexes_ok(),
    decreases chunks.len() - at,
{
    if at < chunks.len() {
        lemma_step_advances(state, chunks, at);
        lemma_step_keeps_indexes(state, chunks, at);
        match step(state, chunks, at) {
            Err(e) => {},
            Ok((after, next)) => {
                lemma_run_chunks_keeps_indexes(after, chunks, next);
            },
        }
    }
}

pub proof fn lemma_run_frames_keeps_indexes(state: Assembly, frames: Seq<RawFrameView>, k: int)
    requires
        state.indexes_ok(),
        0 <= k,
    ensures
        run_frames(state, frames, k) matches Ok(after) ==> after.indexes_ok(),
    decreases frames.len() - k,
{
    if k < frames.len() {
        lemma_run_chunks_keeps_indexes(state, frames[k].chunks, 0);
        match run_chunks(state, frames[k].chunks, 0) {
            Err(e) => {},
            Ok(after) => {
                let closed = after.close_frame(frames[k].duration);
                assert forall|f: int, c: int|
                    0 <= f < closed.frames.len() && 0 <= c < closed.frames[f].cells.len() implies (
                #[trigger] closed.frames[f].cells[c]).image_index < closed.images.len() by {
                    if f < after.frames.len() {
                        assert(closed.frames[f] == after.frames[f]);
                    } else {
                        assert(closed.frames[f].cells[c] == after.cells[c]);
                    }
                }
                lemma_run_frames_keeps_indexes(closed, frames, k + 1);
            },
        }
    }
}

/// In the parts of a sprite, every cel shows an image that was gathered.
pub proof fn lemma_assemble_indexes(frames: Seq<RawFrameView>)
    ensures
        assemble(frames) matches Ok(parts) ==> parts.indexes_ok() && parts.cells.len() == 0,
{
    lemma_run_frames_no_cells(Assembly::start(), frames, 0);
    lemma_run_frames_keeps_indexes(Assembly::start(), frames, 0);
}

/// After the last frame no cel waits for its frame.
pub proof fn lemma_run_frames_no_cells(state: Assembly, frames: Seq<RawFrameView>, k: int)
    requires
        state.cells.len() == 0,
        0 <= k,
    ensures
        run_frames(state, frames, k) matches Ok(after) ==> after.cells.len() == 0,
    decreases frames.len() - k,
{
    if k < frames.len() {
        match run_chunks(state, frames[k].chunks, 0) {
            Err(e) => {},
            Ok(after) => {
                lemma_run_frames_no_cells(after.close_frame(frames[k].duration), frames, k + 1);
            },
        }
    }
}

/// One of `cells` lies on the layer `layer`, carries an image of its own,
/// and that image has the index `index`.
pub open spec fn has_own_image(cells: Seq<CelView>, layer: u16, index: usize) -> bool {
    exists|c: int|
        0 <= c < cells.len() && owns_image(#[trigger] cells[c], layer, index)
}

/// The cel lies on the layer `layer`, carries an image of its own, and that
/// image has the index `index`.
pub open spec fn owns_image(cel: CelView, layer: u16, index: usize) -> bool {
    cel.chunk.layer_index == layer && cel.chunk.content is Image && cel.image_index == index
}

/// Number of cels among `cells` that carry an image of their own.
pub open spec fn own_images_in(cells: Seq<CelView>) -> nat
    decreases cells.len(),
{
    if cells.len() == 0 {
        0
    } else if cells.last().chunk.content is Image {
        own_images_in(cells.drop_last()) + 1
    } else {
        own_images_in(cells.drop_last())
    }
}

/// Number of cels in `frames` that carry an image of their own.
pub open spec fn own_images(frames: Seq<FrameView>) -> nat
    decreases frames.len(),
{
    if frames.len() == 0 {
        0
    } else {
        own_images(frames.drop_last()) + own_images_in(frames.last().cells)
    }
}

/// The cel, which lies in frame number `frame`, shows an image that
/// belongs to it: if it carries an image of its own, that image is the one
/// at its index; if it is linked, it names an earlier frame, and in that
/// frame a cel on its layer carries an image of its own at the same index.
pub open spec fn cel_resolved(cel: CelView, frame: int, frames: Seq<FrameView>, images: Seq<ImageView>)
    -> bool {
    match cel.chunk.content {
        CelContentView::Image(image) => cel.image_index < images.len()
            && images[cel.image_index as int] == image,
        CelContentView::LinkedCel { frame_position } => frame_position < frame && has_own_image(
            frames[frame_position as int].cells,
            cel.chunk.layer_index,
            cel.image_index,
        ),
        _ => true,
    }
}

impl Assembly {
    /// Every cel shows an image that belongs to it, there is one image for
    /// each cel that carries one, and what is noted of the images is true.
    pub open spec fn links_ok(self) -> bool {
        &&& self.images.len() == own_images(self.frames) + own_images_in(self.cells)
        &&& forall|f: int, c: int|
            0 <= f < self.frames.len() && 0 <= c < self.frames[f].cells.len() ==> cel_resolved(
                #[trigger] self.frames[f].cells[c],
                f,
                self.frames,
                self.images,
            )
        &&& forall|c: int|
            0 <= c < self.cells.len() ==> cel_resolved(
                #[trigger] self.cells[c],
                self.frames.len() as int,
                self.frames,
                self.images,
            )
        &&& forall|key: (usize, u16)| #[trigger]
            self.image_map.dom().contains(key) ==> {
                &&& key.0 <= self.frames.len()
                &&& key.0 < self.frames.len() ==> has_own_image(
                    self.frames[key.0 as int].cells,
                    key.1,
                    self.image_map[key],
                )
                &&& key.0 == self.frames.len() ==> has_own_image(
                    self.cells,
                    key.1,
                    self.image_map[key],
                )
            }
    }
}

proof fn lemma_own_images_in_push(cells: Seq<CelView>, cel: CelView)
    ensures
        own_images_in(cells.push(cel)) == own_images_in(cells) + if cel.chunk.content is Image {
            1nat
        } else {
            0nat
        },
{
    assert(cells.push(cel).drop_last() =~= cells);
}

proof fn lemma_own_images_push(frames: Seq<FrameView>, frame: FrameView)
    ensures
        own_images(frames.push(frame)) == own_images(frames) + own_images_in(frame.cells),
{
    assert(frames.push(frame).drop_last() =~= frames);
}

proof fn lemma_add_cel_keeps_links(state: Assembly, chunk: CelChunkView, user_data: UserDataChunkView)
    requires
        state.links_ok(),
        state.frames.len() < usize::MAX,
        state.images.len() < usize::MAX,
    ensures
        state.add_cel(chunk, user_data) matches Ok(after) ==> after.links_ok(),
{
    match state.add_cel(chunk, user_data) {
        Err(e) => {},
        Ok(after) => {
            let cel = after.cells.last();
            lemma_own_images_in_push(state.cells, cel);
            let here = state.frames.len() as int;
            assert(after.frames == state.frames);
            assert forall|f: int, c: int|
                0 <= f < after.frames.len() && 0 <= c < after.frames[f].cells.len() implies cel_resolved(
                #[trigger] after.frames[f].cells[c],
                f,
                after.frames,
                after.images,
            ) by {
                assert(cel_resolved(state.frames[f].cells[c], f, state.frames, state.images));
            }
            assert forall|c: int| 0 <= c < after.cells.len() implies cel_resolved(
                #[trigger] after.cells[c],
                here,
                after.frames,
                after.images,
            ) by {
                if c < state.cells.len() {
                    assert(after.cells[c] == state.cells[c]);
                    assert(cel_resolved(state.cells[c], here, state.frames, state.images));
                } else {
                    match chunk.content {
                        CelContentView::LinkedCel { frame_position } => {
                            let key = (frame_position as usize, chunk.layer_index);
                            assert(state.image_map.dom().contains(key));
                        },
                        _ => {},
                    }
                }
            }
            assert forall|key: (usize, u16)| #[trigger]
                after.image_map.dom().contains(key) implies {
                &&& key.0 <= after.frames.len()
                &&& key.0 < after.frames.len() ==> has_own_image(
                    after.frames[key.0 as int].cells,
                    key.1,
                    after.image_map[key],
                )
                &&& key.0 == after.frames.len() ==> has_own_image(
                    after.cells,
                    key.1,
                    after.image_map[key],
                )
            } by {
                match chunk.content {
                    CelContentView::Image(image) => {
                        let new_key = (state.frames.len() as usize, chunk.layer_index);
                        if key == new_key {
                            assert(owns_image(
                                after.cells[state.cells.len() as int],
                                key.1,
                                after.image_map[key],
                            ));
                        } else {
                            assert(state.image_map.dom().contains(key));
                            if key.0 == state.frames.len() {
                                let c = choose|c: int|
                                    0 <= c < state.cells.len() && owns_image(
                                        #[trigger] state.cells[c],
                                        key.1,
                                        state.image_map[key],
                                    );
                                assert(after.cells[c] == state.cells[c]);
                                assert(owns_image(after.cells[c], key.1, after.image_map[key]));
                            }
                        }
                    },
                    _ => {
                        assert(state.image_map.dom().contains(key));
                        if key.0 == state.frames.len() {
                            let c = choose|c: int|
                                0 <= c < state.cells.len() && owns_image(
                                    #[trigger] state.cells[c],
                                    key.1,
                                    state.image_map[key],
                                );
                            assert(after.cells[c] == state.cells[c]);
                            assert(owns_image(after.cells[c], key.1, after.image_map[key]));
                        }
                    },
                }
            }
        },
    }
}

proof fn lemma_close_frame_keeps_links(state: Assembly, duration: u16)
    requires
        state.links_ok(),
    ensures
        state.close_frame(duration).links_ok(),
{
    let after = state.close_frame(duration);
    let frame = FrameView { duration: duration as u32, cells: state.cells };
    lemma_own_images_push(state.frames, frame);
    let here = state.frames.len() as int;
    assert forall|f: int, c: int|
        0 <= f < after.frames.len() && 0 <= c < after.frames[f].cells.len() implies cel_resolved(
        #[trigger] after.frames[f].cells[c],
        f,
        after.frames,
        after.images,
    ) by {
        let cel = after.frames[f].cells[c];
        if f < here {
            assert(after.frames[f] == state.frames[f]);
            assert(cel_resolved(state.frames[f].cells[c], f, state.frames, state.images));
        } else {
            assert(cel == state.cells[c]);
            assert(cel_resolved(state.cells[c], here, state.frames, state.images));
        }
        match cel.chunk.content {
            CelContentView::LinkedCel { frame_position } => {
                assert(after.frames[frame_position as int] == state.frames[frame_position as int]);
            },
            _ => {},
        }
    }
    assert forall|key: (usize, u16)| #[trigger] after.image_map.dom().contains(key) implies {
        &&& key.0 <= after.frames.len()
        &&& key.0 < after.frames.len() ==> has_own_image(
            after.frames[key.0 as int].cells,
            key.1,
            after.image_map[key],
        )
        &&& key.0 == after.frames.len() ==> has_own_image(after.cells, key.1, after.image_map[key])
    } by {
        assert(state.image_map.dom().contains(key));
        if key.0 < here {
            assert(after.frames[key.0 as int] == state.frames[key.0 as int]);
        } else {
            assert(after.frames[key.0 as int].cells == state.cells);
        }
    }
}

proof fn lemma_step_keeps_links(state: Assembly, chunks: Seq<ChunkView>, at: int)
    requires
        state.links_ok(),
        state.frames.len() < usize::MAX,
        state.images.len() < usize::MAX,
        0 <= at < chunks.len(),
    ensures
        step(state, chunks, at) matches Ok((after, _)) ==> after.links_ok() && after.frames
            == state.frames && after.images.len() <= state.images.len() + 1,
{
    match chunks[at] {
        ChunkView::Tags(chunk) => {
            lemma_add_tags_keeps(state, chunk.tags, 0, chunks, at + 1);
        },
        ChunkView::Cel(chunk) => {
            let (user_data, next) = trailing_user_data(chunks, at + 1);
            lemma_add_cel_keeps_links(state, chunk, user_data);
        },
        _ => {},
    }
}

/// The chunks from `at` on are few enough for the images they add to be
/// counted on this machine.
proof fn lemma_run_chunks_keeps_links(state: Assembly, chunks: Seq<ChunkView>, at: int)
    requires
        state.links_ok(),
        state.frames.len() < usize::MAX,
        0 <= at <= chunks.len(),
        state.images.len() + (chunks.len() - at) <= usize::MAX,
    ensures
        run_chunks(state, chunks, at) matches Ok(after) ==> after.links_ok() && after.frames
            == state.frames && after.images.len() <= state.images.len() + (chunks.len() - at),
    decreases chunks.len() - at,
{
    if at < chunks.len() {
        lemma_step_advances(state, chunks, at);
        lemma_step_keeps_links(state, chunks, at);
        match step(state, chunks, at) {
            Err(e) => {},
            Ok((after, next)) => {
                lemma_run_chunks_keeps_links(after, chunks, next);
            },
        }
    }
}

/// Number of chunks in the frames from number `k` on.
pub open spec fn chunks_from(frames: Seq<RawFrameView>, k: int) -> nat
    decreases frames.len() - k,
{
    if k < 0 || k >= frames.len() {
        0
    } else {
        frames[k].chunks.len() + chunks_from(frames, k + 1)
    }
}

proof fn lemma_run_frames_keeps_links(state: Assembly, frames: Seq<RawFrameView>, k: int)
    requires
        state.links_ok(),
        state.cells.len() == 0,
        0 <= k <= frames.len(),
        state.frames.len() + (frames.len() - k) <= usize::MAX,
        state.images.len() + chunks_from(frames, k) <= usize::MAX,
    ensures
        run_frames(state, frames, k) matches Ok(after) ==> after.links_ok(),
    decreases frames.len() - k,
{
    if k < frames.len() {
        lemma_run_chunks_keeps_links(state, frames[k].chunks, 0);
        match run_chunks(state, frames[k].chunks, 0) {
            Err(e) => {},
            Ok(after) => {
                lemma_close_frame_keeps_links(after, frames[k].duration);
                lemma_run_frames_keeps_links(after.close_frame(frames[k].duration), frames, k + 1);
            },
        }
    }
}

/// In the parts that the frames of a file hold, there is one image for
/// each cel that carries one, so that linked cels add none; a cel that
/// carries an image shows that image; and a linked cel shows the very image,
/// by its index, that a cel on its layer carries in the earlier frame it
/// names. The frames and their chunks must be few enough to be counted on
/// this machine.
pub proof fn lemma_linked_cels_share_images(frames: Seq<RawFrameView>)
    requires
        frames.len() <= usize::MAX,
        chunks_from(frames, 0) <= usize::MAX,
    ensures
        assemble(frames) matches Ok(parts) ==> {
            &&& parts.images.len() == own_images(parts.frames)
            &&& forall|f: int, c: int|
                0 <= f < parts.frames.len() && 0 <= c < parts.frames[f].cells.len() ==> cel_resolved(
                    #[trigger] parts.frames[f].cells[c],
                    f,
                    parts.frames,
                    parts.images,
                )
        },
{
    lemma_run_frames_no_cells(Assembly::start(), frames, 0);
    lemma_run_frames_keeps_links(Assembly::start(), frames, 0);
    match assemble(frames) {
        Err(e) => {},
        Ok(parts) => {
            assert(parts.cells =~= Seq::<CelView>::empty());
        },
    }
}

/// The parts of a sprite gathered so far, as the decoder holds them.
pub struct Assembler<'a> {
    pub palette: Palette,
    pub palette_seen: bool,
    pub color_profile: Option<ColorProfileChunk<'a>>,
    pub layers: Vec<Layer<'a>>,
    pub frames: Vec<Frame<'a>>,
    pub cells: Vec<Cel<'a>>,
    pub tags: Vec<Tag<'a>>,
    pub images: Vec<Image<'a>>,
    pub tilesets: Vec<TilesetChunk<'a>>,
    pub slices: Vec<SliceChunk<'a>>,
    pub image_map: AHashMap<(usize, u16), usize, RandomState>,
}

impl View for Assembler<'_> {
    type V = Assembly;

    open spec fn view(&self) -> Assembly {
        Assembly {
            palette: self.palette@,
            palette_seen: self.palette_seen,
            color_profile: match self.color_profile {
                Some(chunk) => Some(chunk@),
                None => None,
            },
            layers: views(self.layers@),
            frames: views(self.frames@),
            cells: views(self.cells@),
            tags: views(self.tags@),
            images: views(self.images@),
            tilesets: views(self.tilesets@),
            slices: views(self.slices@),
            image_map: image_map_entries(self.image_map),
        }
    }
}

/// The user data that belongs to the chunk before `at`, and where the walk
/// goes on.
fn take_trailing_user_data<'a>(chunks: &Vec<Chunk<'a>>, at: usize) -> (r: (UserDataChunk<'a>, usize))
    requires
        at <= chunks@.len(),
    ensures
        (r.0@, r.1 as int) == trailing_user_data(views(chunks@), at as int),
{
    if at < chunks.len() {
        match &chunks[at] {
            Chunk::UserData(user_data) => {
                return (*user_data, at + 1);
            },
            _ => {},
        }
    }
    (UserDataChunk::default(), at)
}

/// A copy of a slice chunk.
fn copy_slice<'a>(chunk: &SliceChunk<'a>) -> (copy: SliceChunk<'a>)
    ensures
        copy@ == chunk@,
{
    let mut slice_keys: Vec<SliceKey> = Vec::new();
    let mut i: usize = 0;
    while i < chunk.slice_keys.len()
        invariant
            i <= chunk.slice_keys@.len(),
            slice_keys@ == chunk.slice_keys@.take(i as int),
        decreases chunk.slice_keys@.len() - i,
    {
        slice_keys.push(chunk.slice_keys[i]);
        assert(chunk.slice_keys@.take(i + 1) =~= chunk.slice_keys@.take(i as int).push(
            chunk.slice_keys@[i as int],
        ));
        i += 1;
    }
    assert(chunk.slice_keys@.take(i as int) =~= chunk.slice_keys@);
    SliceChunk { flags: chunk.flags, name: chunk.name, slice_keys }
}

impl<'a> Assembler<'a> {
    /// Nothing gathered yet.
    pub fn new() -> (assembler: Assembler<'a>)
        ensures
            assembler@ == Assembly::start(),
    {
        let assembler = Assembler {
            palette: Palette::default(),
            palette_seen: false,
            color_profile: None,
            layers: Vec::new(),
            frames: Vec::new(),
            cells: Vec::new(),
            tags: Vec::new(),
            images: Vec::new(),
            tilesets: Vec::new(),
            slices: Vec::new(),
            image_map: image_map_new(),
        };
        proof {
            lemma_views_empty::<Layer<'a>>();
            lemma_views_empty::<Frame<'a>>();
            lemma_views_empty::<Cel<'a>>();
            lemma_views_empty::<Tag<'a>>();
            lemma_views_empty::<Image<'a>>();
            lemma_views_empty::<TilesetChunk<'a>>();
            lemma_views_empty::<SliceChunk<'a>>();
        }
        assembler
    }

    pub fn add_layer(&mut self, chunk: LayerChunk<'a>, user_data: UserDataChunk<'a>) -> (r: Result<
        (),
        LoadSpriteError,
    >)
        ensures
            match r {
                Ok(_) => old(self)@.add_layer(chunk@, user_data@) == Ok::<Assembly, LoadSpriteError>(
                    final(self)@,
                ),
                Err(e) => old(self)@.add_layer(chunk@, user_data@) == Err::<
                    Assembly,
                    LoadSpriteError,
                >(e),
            },
    {
        match chunk.layer_type {
            LayerType::Group => Err(LoadSpriteError::LayerGroupsNotImplemented),
            LayerType::Unknown(kind) => Err(LoadSpriteError::UnknownLayerType(kind)),
            _ => {
                let layer = Layer {
                    chunk,
                    user_data,
                    parameters: user_data.parse_text_as_layer_parameters(),
                };
                proof {
                    lemma_views_push(self.layers@, layer);
                }
                self.layers.push(layer);
                Ok(())
            },
        }
    }

    pub fn add_cel(&mut self, chunk: CelChunk<'a>, user_data: UserDataChunk<'a>) -> (r: Result<
        (),
        LoadSpriteError,
    >)
        ensures
            match r {
                Ok(_) => old(self)@.add_cel(chunk@, user_data@) == Ok::<Assembly, LoadSpriteError>(
                    final(self)@,
                ),
                Err(e) => old(self)@.add_cel(chunk@, user_data@) == Err::<Assembly, LoadSpriteError>(
                    e,
                ),
            },
    {
        if self.cells.len() > 0 {
            let before = &self.cells[self.cells.len() - 1];
            assert(self@.cells.last() == before@);
            if before.chunk.layer_index > chunk.layer_index {
                return Err(
                    LoadSpriteError::CelsOutOfOrder {
                        frame: self.frames.len(),
                        layer: chunk.layer_index,
                    },
                );
            }
        }
        let image_index = match chunk.content {
            CelContent::Image(image) => {
                let index = self.images.len();
                proof {
                    lemma_views_push(self.images@, image);
                }
                self.images.push(image);
                image_map_insert(&mut self.image_map, (self.frames.len(), chunk.layer_index), index);
                index
            },
            CelContent::LinkedCel { frame_position } => {
                let found = if (frame_position as usize) < self.frames.len() {
                    image_map_get(&self.image_map, (frame_position as usize, chunk.layer_index))
                } else {
                    None
                };
                match found {
                    Some(index) => index,
                    None => {
                        return Err(
                            LoadSpriteError::UnresolvedLinkedCel {
                                frame: frame_position,
                                layer: chunk.layer_index,
                            },
                        );
                    },
                }
            },
            CelContent::CompressedTilemap { .. } => {
                return Err(LoadSpriteError::TilemapsNotImplemented);
            },
            CelContent::Unknown(kind) => {
                return Err(LoadSpriteError::UnknownCelContent(kind));
            },
        };
        let cel = Cel { chunk, user_data, image_index };
        proof {
            lemma_views_push(self.cells@, cel);
        }
        self.cells.push(cel);
        Ok(())
    }

    pub fn add_tag(&mut self, chunk: TagChunk<'a>, user_data: UserDataChunk<'a>)
        ensures
            final(self)@ == old(self)@.add_tag(chunk@, user_data@),
    {
        let tag = Tag { chunk, user_data, parameters: user_data.parse_text_as_tag_parameters() };
        proof {
            lemma_views_push(self.tags@, tag);
        }
        self.tags.push(tag);
    }

    pub fn add_palette(&mut self, chunk: &PaletteChunk<'a>) -> (r: Result<(), LoadSpriteError>)
        ensures
            match r {
                Ok(_) => old(self)@.add_palette(chunk@) == Ok::<Assembly, LoadSpriteError>(
                    final(self)@,
                ),
                Err(e) => old(self)@.add_palette(chunk@) == Err::<Assembly, LoadSpriteError>(e),
            },
    {
        if chunk.entries.len() > usize::MAX - chunk.first_index as usize {
            return Err(LoadSpriteError::PaletteTooLarge);
        }
        self.palette.merge(chunk);
        self.palette_seen = true;
        Ok(())
    }

    pub fn add_color_profile(&mut self, chunk: ColorProfileChunk<'a>) -> (r: Result<
        (),
        LoadSpriteError,
    >)
        ensures
            match r {
                Ok(_) => old(self)@.add_color_profile(chunk@) == Ok::<Assembly, LoadSpriteError>(
                    final(self)@,
                ),
                Err(e) => old(self)@.add_color_profile(chunk@) == Err::<Assembly, LoadSpriteError>(
                    e,
                ),
            },
    {
        if self.color_profile.is_some() {
            return Err(LoadSpriteError::DuplicateColorProfile);
        }
        self.color_profile = Some(chunk);
        Ok(())
    }

    pub fn add_tileset(&mut self, chunk: TilesetChunk<'a>)
        ensures
            final(self)@ == old(self)@.add_tileset(chunk@),
    {
        proof {
            lemma_views_push(self.tilesets@, chunk);
        }
        self.tilesets.push(chunk);
    }

    pub fn add_slice(&mut self, chunk: &SliceChunk<'a>)
        ensures
            final(self)@ == old(self)@.add_slice(chunk@),
    {
        let copy = copy_slice(chunk);
        proof {
            lemma_views_push(self.slices@, copy);
        }
        self.slices.push(copy);
    }

    pub fn close_frame(&mut self, duration: u16)
        ensures
            final(self)@ == old(self)@.close_frame(duration),
    {
        let mut cells: Vec<Cel<'a>> = Vec::new();
        core::mem::swap(&mut cells, &mut self.cells);
        let frame = Frame { duration: duration as u32, cells };
        proof {
            lemma_views_push(self.frames@, frame);
            lemma_views_empty::<Cel<'a>>();
        }
        self.frames.push(frame);
    }

    /// The tags of a tags chunk join the tags, each with the user data that
    /// belongs to it. Returns where the walk goes on.
    pub fn add_tags(&mut self, tags: &Vec<TagChunk<'a>>, chunks: &Vec<Chunk<'a>>, at: usize) -> (next:
        usize)
        requires
            at <= chunks@.len(),
        ensures
            (final(self)@, next as int) == add_tags(
                old(self)@,
                views(tags@),
                0,
                views(chunks@),
                at as int,
            ),
            at <= next <= chunks@.len(),
    {
        let ghost all = add_tags(self@, views(tags@), 0, views(chunks@), at as int);
        let mut next: usize = at;
        let mut k: usize = 0;
        while k < tags.len()
            invariant
                k <= tags@.len(),
                at <= next <= chunks@.len(),
                all == add_tags(self@, views(tags@), k as int, views(chunks@), next as int),
            decreases tags@.len() - k,
        {
            let (user_data, after) = take_trailing_user_data(chunks, next);
            assert(views(tags@)[k as int] == tags@[k as int]@);
            self.add_tag(tags[k], user_data);
            next = after;
            k += 1;
        }
        next
    }

    /// Takes in the chunks of one frame.
    pub fn run_chunks(&mut self, chunks: &Vec<Chunk<'a>>) -> (r: Result<(), LoadSpriteError>)
        ensures
            match r {
                Ok(_) => run_chunks(old(self)@, views(chunks@), 0) == Ok::<
                    Assembly,
                    LoadSpriteError,
                >(final(self)@),
                Err(e) => run_chunks(old(self)@, views(chunks@), 0) == Err::<
                    Assembly,
                    LoadSpriteError,
                >(e),
            },
    {
        let ghost all = run_chunks(self@, views(chunks@), 0);
        let mut at: usize = 0;
        while at < chunks.len()
            invariant
                at <= chunks@.len(),
                all == run_chunks(self@, views(chunks@), at as int),
                all == run_chunks(old(self)@, views(chunks@), 0),
            decreases chunks@.len() - at,
        {
            proof {
                lemma_step_advances(self@, views(chunks@), at as int);
                assert(views(chunks@)[at as int] == chunks@[at as int]@);
            }
            match &chunks[at] {
                Chunk::Layer(chunk) => {
                    let (user_data, next) = take_trailing_user_data(chunks, at + 1);
                    self.add_layer(*chunk, user_data)?;
                    at = next;
                },
                Chunk::Cel(chunk) => {
                    let (user_data, next) = take_trailing_user_data(chunks, at + 1);
                    self.add_cel(*chunk, user_data)?;
                    at = next;
                },
                Chunk::Tags(chunk) => {
                    assert(chunks@[at as int]@->Tags_0.tags == views(chunk.tags@));
                    at = self.add_tags(&chunk.tags, chunks, at + 1);
                },
                Chunk::Palette(chunk) => {
                    self.add_palette(chunk)?;
                    at = at + 1;
                },
                Chunk::ColorProfile(chunk) => {
                    self.add_color_profile(*chunk)?;
                    at = at + 1;
                },
                Chunk::Tileset(chunk) => {
                    self.add_tileset(*chunk);
                    at = at + 1;
                },
                Chunk::Slice(chunk) => {
                    self.add_slice(chunk);
                    at = at + 1;
                },
                _ => {
                    at = at + 1;
                },
            }
        }
        Ok(())
    }

    /// Takes in the frames of a file.
    pub fn run_frames(&mut self, frames: &Vec<RawFrame<'a>>) -> (r: Result<(), LoadSpriteError>)
        ensures
            match r {
                Ok(_) => run_frames(old(self)@, views(frames@), 0) == Ok::<
                    Assembly,
                    LoadSpriteError,
                >(final(self)@),
                Err(e) => run_frames(old(self)@, views(frames@), 0) == Err::<
                    Assembly,
                    LoadSpriteError,
                >(e),
            },
    {
        let ghost all = run_frames(self@, views(frames@), 0);
        let mut k: usize = 0;
        while k < frames.len()
            invariant
                k <= frames@.len(),
                all == run_frames(self@, views(frames@), k as int),
                all == run_frames(old(self)@, views(frames@), 0),
            decreases frames@.len() - k,
        {
            assert(views(frames@)[k as int] == frames@[k as int]@);
            self.run_chunks(&frames[k].chunks)?;
            self.close_frame(frames[k].duration);
            k += 1;
        }
        Ok(())
    }
}

} // verus!
