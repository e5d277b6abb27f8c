//! A sprite as a whole, decoded from the bytes of a file.

use vstd::prelude::*;
use crate::assembly::{
    assemble, cel_resolved, chunks_from, lemma_assemble_indexes, lemma_assemble_sorted,
    lemma_linked_cels_share_images, own_images, Assembler,
};
use crate::binary::chunks::color_profile::{ColorProfileChunk, ColorProfileChunkView};
use crate::binary::chunks::slice::{SliceChunk, SliceChunkView};
use crate::binary::chunks::tileset::{TilesetChunk, TilesetChunkView};
use crate::binary::color_depth::ColorDepth;
use crate::binary::errors::ParseError;
use crate::binary::header::Header;
use crate::binary::image::{Image, ImageView};
use crate::binary::palette::{clear_alpha, Palette};
use crate::binary::raw_file::{parse_raw_file, spec_parse_raw_file, RawFile, RawFileView};
use crate::binary::repeat::{lemma_views_empty, lemma_views_push, views};
use crate::binary::scalars::Color;
use crate::make_image::LoadImageError;
use crate::pixels::{RgbaImage, RgbaImageView};
use crate::resolve::{resolve_image, spec_resolve_image};
use crate::wrappers::{CelView, Frame, FrameView, Layer, LayerView, Tag, TagView};

verus! {

/// Why the bytes of a file did not yield a sprite.
#[derive(Debug, Clone, Copy, PartialEq, Eq, Structural)]
pub enum LoadSpriteError {
    /// The bytes are not a well-formed file.
    Parse { error: ParseError },
    /// The pixels are indexes into a palette, and the file holds none.
    MissingPalette,
    /// The file holds no color profile.
    MissingColorProfile,
    /// The file holds more than one color profile.
    DuplicateColorProfile,
    /// A palette chunk reaches beyond what this machine can index.
    PaletteTooLarge,
    /// A linked cel names a frame that is not an earlier one, or one in
    /// which its layer has no image of its own.
    UnresolvedLinkedCel { frame: u16, layer: u16 },
    /// A cel lies on a layer that the file does not have.
    MissingLayer(u16),
    /// A cel of the frame with the given index lies on a lower layer than
    /// the cel before it.
    CelsOutOfOrder { frame: usize, layer: u16 },
    /// The file groups layers, which this decoder does not do.
    LayerGroupsNotImplemented,
    /// The file holds tilemaps, which this decoder does not do.
    TilemapsNotImplemented,
    /// A layer is of a type that this decoder has no name for.
    UnknownLayerType(u16),
    /// A cel holds content of a kind that this decoder has no name for.
    UnknownCelContent(u16),
    /// A tag names a frame that the file does not have, or runs from a
    /// frame to an earlier one.
    FrameIndexOutOfRange(usize),
    /// The image of the frame with the given index could not be made.
    Frame { index: usize, reason: LoadImageError },
    /// The pixels of the image with the given index could not be made.
    Image { index: usize, reason: LoadImageError },
}

/// A sprite: what a file holds, ready for use.
#[derive(Debug)]
pub struct AsepriteFile<'a> {
    pub header: Header,
    /// The colors of an indexed sprite.
    pub palette: Palette,
    pub color_profile: Option<ColorProfileChunk<'a>>,
    /// The layers from the lowest to the highest.
    pub layers: Vec<Layer<'a>>,
    /// The frames in their order.
    pub frames: Vec<Frame<'a>>,
    pub tags: Vec<Tag<'a>>,
    /// The images as the file stores them. Cels name them by index.
    pub images: Vec<Image<'a>>,
    /// The same images as RGBA pixels.
    pub images_decompressed: Vec<RgbaImage>,
    pub tilesets: Vec<TilesetChunk<'a>>,
    pub slices: Vec<SliceChunk<'a>>,
}

pub struct AsepriteFileView {
    pub header: Header,
    pub palette: Seq<Color>,
    pub color_profile: Option<ColorProfileChunkView>,
    pub layers: Seq<LayerView>,
    pub frames: Seq<FrameView>,
    pub tags: Seq<TagView>,
    pub images: Seq<ImageView>,
    pub images_decompressed: Seq<RgbaImageView>,
    pub tilesets: Seq<TilesetChunkView>,
    pub slices: Seq<SliceChunkView>,
}

impl View for AsepriteFile<'_> {
    type V = AsepriteFileView;

    open spec fn view(&self) -> AsepriteFileView {
        AsepriteFileView {
            header: self.header,
            palette: self.palette@,
            color_profile: match self.color_profile {
                Some(chunk) => Some(chunk@),
                None => None,
            },
            layers: views(self.layers@),
            frames: views(self.frames@),
            tags: views(self.tags@),
            images: views(self.images@),
            images_decompressed: views(self.images_decompressed@),
            tilesets: views(self.tilesets@),
            slices: views(self.slices@),
        }
    }
}

/// Every cel of `cells` lies on one of `layers` layers and shows one of the
/// `images`.
pub open spec fn cells_fit(cells: Seq<CelView>, layers: nat, images: Seq<RgbaImageView>) -> bool {
    forall|c: int|
        0 <= c < cells.len() ==> (#[trigger] cells[c]).chunk.layer_index < layers
            && cells[c].image_index < images.len()
}

impl AsepriteFileView {
    /// The parts of the sprite fit together: each image has its RGBA
    /// pixels, of the same size; each cel lies on a layer of the sprite and
    /// shows an image of the sprite; and the cels of each frame come in the
    /// order of their layers.
    pub open spec fn wf(self) -> bool {
        &&& self.images_decompressed.len() == self.images.len()
        &&& forall|f: int| 0 <= f < self.frames.len() ==> (#[trigger] self.frames[f]).sorted_by_layer()
        &&& forall|i: int|
            0 <= i < self.images.len() ==> {
                &&& (#[trigger] self.images_decompressed[i]).wf()
                &&& self.images_decompressed[i].width == self.images[i].width
                &&& self.images_decompressed[i].height == self.images[i].height
            }
        &&& forall|f: int|
            0 <= f < self.frames.len() ==> cells_fit(
                (#[trigger] self.frames[f]).cells,
                self.layers.len(),
                self.images_decompressed,
            )
    }
}

/// The layer of the first cel from number `from` on that lies on none of
/// `layers` layers.
pub open spec fn missing_layer_in(cells: Seq<CelView>, layers: nat, from: int) -> Option<u16>
    decreases cells.len() - from,
{
    if from < 0 || from >= cells.len() {
        None
    } else if cells[from].chunk.layer_index >= layers {
        Some(cells[from].chunk.layer_index)
    } else {
        missing_layer_in(cells, layers, from + 1)
    }
}

/// The layer of the first cel, in the frames from number `from` on, that
/// lies on none of `layers` layers.
pub open spec fn missing_layer(frames: Seq<FrameView>, layers: nat, from: int) -> Option<u16>
    decreases frames.len() - from,
{
    if from < 0 || from >= frames.len() {
        None
    } else {
        match missing_layer_in(frames[from].cells, layers, 0) {
            Some(layer) => Some(layer),
            None => missing_layer(frames, layers, from + 1),
        }
    }
}

/// The RGBA pixels of the first `n` images, or the first failure.
pub open spec fn resolve_images(images: Seq<ImageView>, depth: ColorDepth, palette: Seq<Color>, n: int)
    -> Result<Seq<RgbaImageView>, LoadSpriteError>
    decreases n,
{
    if n <= 0 {
        Ok(Seq::empty())
    } else {
        match resolve_images(images, depth, palette, n - 1) {
            Err(e) => Err(e),
            Ok(resolved) => match spec_resolve_image(images[n - 1], depth, palette) {
                Err(reason) => Err(LoadSpriteError::Image { index: (n - 1) as usize, reason }),
                Ok(image) => Ok(resolved.push(image)),
            },
        }
    }
}

/// The palette of a sprite: the colors that the palette chunks give. In an
/// indexed file the color at the transparent index of the header is made
/// fully transparent.
pub open spec fn sprite_palette(header: Header, colors: Seq<Color>) -> Seq<Color> {
    if header.color_depth == ColorDepth::Indexed {
        clear_alpha(colors, header.transparent_index)
    } else {
        colors
    }
}

/// The sprite that the header and the frames of a file hold. An indexed
/// file must hold a palette, and each cel must lie on a layer that the file
/// has.
pub open spec fn spec_sprite(file: RawFileView) -> Result<AsepriteFileView, LoadSpriteError> {
    match assemble(file.frames) {
        Err(e) => Err(e),
        Ok(parts) => if file.header.color_depth == ColorDepth::Indexed && !parts.palette_seen {
            Err(LoadSpriteError::MissingPalette)
        } else {
            match missing_layer(parts.frames, parts.layers.len(), 0) {
                Some(layer) => Err(LoadSpriteError::MissingLayer(layer)),
                None => {
                    let palette = sprite_palette(file.header, parts.palette);
                    match resolve_images(
                        parts.images,
                        file.header.color_depth,
                        palette,
                        parts.images.len() as int,
                    ) {
                        Err(e) => Err(e),
                        Ok(images_decompressed) => Ok(
                            AsepriteFileView {
                                header: file.header,
                                palette,
                                color_profile: parts.color_profile,
                                layers: parts.layers,
                                frames: parts.frames,
                                tags: parts.tags,
                                images: parts.images,
                                images_decompressed,
                                tilesets: parts.tilesets,
                                slices: parts.slices,
                            },
                        ),
                    }
                },
            }
        },
    }
}

/// The sprite that the bytes of a file hold.
pub open spec fn spec_load(data: Seq<u8>) -> Result<AsepriteFileView, LoadSpriteError> {
    match spec_parse_raw_file(data) {
        Err(error) => Err(LoadSpriteError::Parse { error }),
        Ok(file) => spec_sprite(file),
    }
}

/// The sprite that the bytes of a file hold, which must come with a color
/// profile.
pub open spec fn spec_from_bytes(data: Seq<u8>) -> Result<AsepriteFileView, LoadSpriteError> {
    match spec_load(data) {
        Err(e) => Err(e),
        Ok(sprite) => if sprite.color_profile is None {
            Err(LoadSpriteError::MissingColorProfile)
        } else {
            Ok(sprite)
        },
    }
}

/// What a buffer holds after the RGBA bytes of the image with the given
/// index are written to its start: 4 bytes for each pixel of the image, then
/// what the buffer held behind them. A buffer that is too short for the
/// image is a failure.
pub open spec fn spec_load_image(sprite: AsepriteFileView, index: int, target: Seq<u8>) -> Result<
    Seq<u8>,
    LoadImageError,
> {
    let image = sprite.images[index];
    if target.len() < 4 * image.pixel_count() {
        Err(LoadImageError::TargetBufferTooSmall)
    } else {
        match spec_resolve_image(image, sprite.header.color_depth, sprite.palette) {
            Err(e) => Err(e),
            Ok(resolved) => Ok(resolved.bytes() + target.skip(4 * image.pixel_count() as int)),
        }
    }
}

/// The layer of the first cel that lies on none of `layers` layers.
fn find_missing_layer(frames: &Vec<Frame<'_>>, layers: usize) -> (found: Option<u16>)
    ensures
        found == missing_layer(views(frames@), layers as nat, 0),
{
    let ghost all = missing_layer(views(frames@), layers as nat, 0);
    let mut f: usize = 0;
    while f < frames.len()
        invariant
            f <= frames@.len(),
            all == missing_layer(views(frames@), layers as nat, 0),
            all == missing_layer(views(frames@), layers as nat, f as int),
        decreases frames@.len() - f,
    {
        let cells = &frames[f].cells;
        assert(views(frames@)[f as int] == frames@[f as int]@);
        let ghost here = missing_layer_in(views(cells@), layers as nat, 0);
        let mut c: usize = 0;
        while c < cells.len()
            invariant
                c <= cells@.len(),
                here == missing_layer_in(views(cells@), layers as nat, c as int),
                here == missing_layer_in(views(frames@)[f as int].cells, layers as nat, 0),
                all == missing_layer(views(frames@), layers as nat, 0),
                all == missing_layer(views(frames@), layers as nat, f as int),
                f < frames@.len(),
            decreases cells@.len() - c,
        {
            assert(views(cells@)[c as int] == cells@[c as int]@);
            if cells[c].chunk.layer_index as usize >= layers {
                return Some(cells[c].chunk.layer_index);
            }
            c += 1;
        }
        f += 1;
    }
    None
}

/// Where no cel lies on a missing layer, every cel lies on a layer.
pub proof fn lemma_no_missing_layer_in(cells: Seq<CelView>, layers: nat, from: int)
    requires
        0 <= from,
        missing_layer_in(cells, layers, from) is None,
    ensures
        forall|c: int| from <= c < cells.len() ==> (#[trigger] cells[c]).chunk.layer_index < layers,
    decreases cells.len() - from,
{
    if from < cells.len() {
        lemma_no_missing_layer_in(cells, layers, from + 1);
    }
}

/// Where no cel of the frames lies on a missing layer, every cel of every
/// frame lies on a layer.
pub proof fn lemma_no_missing_layer(frames: Seq<FrameView>, layers: nat, from: int)
    requires
        0 <= from,
        missing_layer(frames, layers, from) is None,
    ensures
        forall|f: int, c: int|
            from <= f < frames.len() && 0 <= c < frames[f].cells.len() ==> (
            #[trigger] frames[f].cells[c]).chunk.layer_index < layers,
    decreases frames.len() - from,
{
    if from < frames.len() {
        lemma_no_missing_layer_in(frames[from].cells, layers, 0);
        lemma_no_missing_layer(frames, layers, from + 1);
    }
}

/// Images that resolve are as many as there were, each the RGBA pixels of
/// the image at its place.
pub proof fn lemma_resolve_images(images: Seq<ImageView>, depth: ColorDepth, palette: Seq<Color>, n: int)
    requires
        0 <= n <= images.len(),
    ensures
        resolve_images(images, depth, palette, n) matches Ok(resolved) ==> {
            &&& resolved.len() == n
            &&& forall|i: int|
                0 <= i < n ==> spec_resolve_image(images[i], depth, palette) == Ok::<
                    RgbaImageView,
                    LoadImageError,
                >(#[trigger] resolved[i])
        },
    decreases n,
{
    if n > 0 {
        lemma_resolve_images(images, depth, palette, n - 1);
    }
}

/// A failure to resolve an image is the failure of all the images.
pub proof fn lemma_resolve_images_fails(
    images: Seq<ImageView>,
    depth: ColorDepth,
    palette: Seq<Color>,
    n: int,
    m: int,
)
    requires
        0 <= n <= m,
        resolve_images(images, depth, palette, n) is Err,
    ensures
        resolve_images(images, depth, palette, m) == resolve_images(images, depth, palette, n),
    decreases m - n,
{
    if n < m {
        lemma_resolve_images_fails(images, depth, palette, n, m - 1);
    }
}

/// An image that resolves has the size of the image it was made of, and a
/// pixel for each place of its grid.
pub proof fn lemma_resolved_image_wf(image: ImageView, depth: ColorDepth, palette: Seq<Color>)
    ensures
        spec_resolve_image(image, depth, palette) matches Ok(resolved) ==> {
            &&& resolved.wf()
            &&& resolved.width == image.width
            &&& resolved.height == image.height
        },
{
}

/// In a sprite that a file yields, there is one image for each cel that
/// carries one, so that linked cels add none, and each image has its RGBA
/// pixels; a cel that carries an image shows that image; and a linked cel
/// shows, by its index, the very image and with it the very pixels that a
/// cel on its layer carries in the earlier frame it names. The frames and
/// their chunks must be few enough to be counted on this machine.
pub proof fn lemma_linked_cels_show_shared_pixels(file: RawFileView)
    requires
        file.frames.len() <= usize::MAX,
        chunks_from(file.frames, 0) <= usize::MAX,
    ensures
        spec_sprite(file) matches Ok(sprite) ==> {
            &&& sprite.images.len() == own_images(sprite.frames)
            &&& sprite.images_decompressed.len() == sprite.images.len()
            &&& forall|i: int|
                0 <= i < sprite.images.len() ==> spec_resolve_image(
                    sprite.images[i],
                    sprite.header.color_depth,
                    sprite.palette,
                ) == Ok::<RgbaImageView, LoadImageError>(#[trigger] sprite.images_decompressed[i])
            &&& forall|f: int, c: int|
                0 <= f < sprite.frames.len() && 0 <= c < sprite.frames[f].cells.len() ==> cel_resolved(
                    #[trigger] sprite.frames[f].cells[c],
                    f,
                    sprite.frames,
                    sprite.images,
                )
        },
{
    lemma_linked_cels_share_images(file.frames);
    match spec_sprite(file) {
        Err(e) => {},
        Ok(sprite) => {
            lemma_resolve_images(
                sprite.images,
                sprite.header.color_depth,
                sprite.palette,
                sprite.images.len() as int,
            );
        },
    }
}

/// The RGBA pixels of every image, or the first failure.
fn resolve_all(images: &Vec<Image<'_>>, depth: ColorDepth, palette: &Palette) -> (r: Result<
    Vec<RgbaImage>,
    LoadSpriteError,
>)
    ensures
        match r {
            Ok(resolved) => resolve_images(views(images@), depth, palette@, images@.len() as int)
                == Ok::<Seq<RgbaImageView>, LoadSpriteError>(views(resolved@)),
            Err(e) => resolve_images(views(images@), depth, palette@, images@.len() as int) == Err::<
                Seq<RgbaImageView>,
                LoadSpriteError,
            >(e),
        },
{
    let mut resolved: Vec<RgbaImage> = Vec::new();
    let mut i: usize = 0;
    proof {
        lemma_views_empty::<RgbaImage>();
    }
    while i < images.len()
        invariant
            i <= images@.len(),
            resolve_images(views(images@), depth, palette@, i as int) == Ok::<
                Seq<RgbaImageView>,
                LoadSpriteError,
            >(views(resolved@)),
        decreases images@.len() - i,
    {
        assert(views(images@)[i as int] == images@[i as int]@);
        match resolve_image(&images[i], depth, palette) {
            Err(reason) => {
                proof {
                    lemma_resolve_images_fails(
                        views(images@),
                        depth,
                        palette@,
                        i + 1,
                        images@.len() as int,
                    );
                }
                return Err(LoadSpriteError::Image { index: i, reason });
            },
            Ok(image) => {
                proof {
                    lemma_views_push(resolved@, image);
                }
                resolved.push(image);
            },
        }
        i += 1;
    }
    Ok(resolved)
}

impl<'a> AsepriteFile<'a> {
    /// Builds the sprite that the header and the frames of a file hold.
    pub fn new(file: RawFile<'a>) -> (r: Result<AsepriteFile<'a>, LoadSpriteError>)
        ensures
            match r {
                Ok(sprite) => spec_sprite(file@) == Ok::<AsepriteFileView, LoadSpriteError>(sprite@)
                    && sprite@.wf(),
                Err(e) => spec_sprite(file@) == Err::<AsepriteFileView, LoadSpriteError>(e),
            },
    {
        let mut assembler = Assembler::new();
        assembler.run_frames(&file.frames)?;
        let indexed = match file.header.color_depth {
            ColorDepth::Indexed => true,
            _ => false,
        };
        if indexed && !assembler.palette_seen {
            return Err(LoadSpriteError::MissingPalette);
        }
        match find_missing_layer(&assembler.frames, assembler.layers.len()) {
            Some(layer) => {
                return Err(LoadSpriteError::MissingLayer(layer));
            },
            None => {},
        }
        if indexed {
            assembler.palette.clear_alpha(file.header.transparent_index);
        }
        let images_decompressed = resolve_all(
            &assembler.images,
            file.header.color_depth,
            &assembler.palette,
        )?;
        let sprite = AsepriteFile {
            header: file.header,
            palette: assembler.palette,
            color_profile: assembler.color_profile,
            layers: assembler.layers,
            frames: assembler.frames,
            tags: assembler.tags,
            images: assembler.images,
            images_decompressed,
            tilesets: assembler.tilesets,
            slices: assembler.slices,
        };
        proof {
            lemma_assemble_sorted(file@.frames);
            lemma_assemble_indexes(file@.frames);
            lemma_no_missing_layer(sprite@.frames, sprite@.layers.len(), 0);
            lemma_resolve_images(
                sprite@.images,
                sprite@.header.color_depth,
                sprite@.palette,
                sprite@.images.len() as int,
            );
            assert forall|i: int| 0 <= i < sprite@.images.len() implies {
                &&& (#[trigger] sprite@.images_decompressed[i]).wf()
                &&& sprite@.images_decompressed[i].width == sprite@.images[i].width
                &&& sprite@.images_decompressed[i].height == sprite@.images[i].height
            } by {
                lemma_resolved_image_wf(
                    sprite@.images[i],
                    sprite@.header.color_depth,
                    sprite@.palette,
                );
            }
        }
        Ok(sprite)
    }

    /// Decodes the bytes of a file into a sprite.
    pub fn load(data: &'a [u8]) -> (r: Result<AsepriteFile<'a>, LoadSpriteError>)
        ensures
            match r {
                Ok(sprite) => spec_load(data@) == Ok::<AsepriteFileView, LoadSpriteError>(sprite@)
                    && sprite@.wf(),
                Err(e) => spec_load(data@) == Err::<AsepriteFileView, LoadSpriteError>(e),
            },
    {
        match parse_raw_file(data) {
            Err(error) => Err(LoadSpriteError::Parse { error }),
            Ok(file) => AsepriteFile::new(file),
        }
    }

    /// Decodes the bytes of a file into a sprite. The file must hold a
    /// color profile.
    pub fn from_bytes(data: &'a [u8]) -> (r: Result<AsepriteFile<'a>, LoadSpriteError>)
        ensures
            match r {
                Ok(sprite) => spec_from_bytes(data@) == Ok::<AsepriteFileView, LoadSpriteError>(
                    sprite@,
                ) && sprite@.wf(),
                Err(e) => spec_from_bytes(data@) == Err::<AsepriteFileView, LoadSpriteError>(e),
            },
    {
        let sprite = AsepriteFile::load(data)?;
        if sprite.color_profile.is_none() {
            return Err(LoadSpriteError::MissingColorProfile);
        }
        Ok(sprite)
    }

    /// Whether the parts of the sprite fit together. A sprite that was
    /// decoded does; one that was put together by hand may not.
    pub fn is_well_formed(&self) -> (fits: bool)
        ensures
            fits == self@.wf(),
    {
        if self.images_decompressed.len() != self.images.len() {
            return false;
        }
        let mut i: usize = 0;
        while i < self.images.len()
            invariant
                i <= self.images@.len(),
                self.images_decompressed@.len() == self.images@.len(),
                forall|k: int|
                    0 <= k < i ==> {
                        &&& (#[trigger] self@.images_decompressed[k]).wf()
                        &&& self@.images_decompressed[k].width == self@.images[k].width
                        &&& self@.images_decompressed[k].height == self@.images[k].height
                    },
            decreases self.images@.len() - i,
        {
            let resolved = &self.images_decompressed[i];
            let _ = resolved.pixels();
            assert(self@.images_decompressed[i as int] == resolved@);
            assert(self@.images[i as int] == self.images@[i as int]@);
            if resolved.width() != self.images[i].width as u32 || resolved.height()
                != self.images[i].height as u32 {
                return false;
            }
            i += 1;
        }
        let mut f: usize = 0;
        while f < self.frames.len()
            invariant
                f <= self.frames@.len(),
                forall|k: int|
                    0 <= k < f ==> cells_fit(
                        (#[trigger] self@.frames[k]).cells,
                        self@.layers.len(),
                        self@.images_decompressed,
                    ),
                forall|k: int| 0 <= k < f ==> (#[trigger] self@.frames[k]).sorted_by_layer(),
            decreases self.frames@.len() - f,
        {
            let cells = &self.frames[f].cells;
            assert(self@.frames[f as int] == self.frames@[f as int]@);
            let mut c: usize = 0;
            while c < cells.len()
                invariant
                    c <= cells@.len(),
                    f < self.frames@.len(),
                    self@.frames[f as int].cells == views(cells@),
                    forall|k: int|
                        0 <= k < c ==> (#[trigger] views(cells@)[k]).chunk.layer_index
                            < self@.layers.len() && views(cells@)[k].image_index
                            < self@.images_decompressed.len(),
                    forall|i: int, j: int|
                        0 <= i < j < c ==> views(cells@)[i].chunk.layer_index <= views(
                            cells@,
                        )[j].chunk.layer_index,
                decreases cells@.len() - c,
            {
                assert(views(cells@)[c as int] == cells@[c as int]@);
                if cells[c].layer_index() >= self.layers.len() || cells[c].image_index
                    >= self.images_decompressed.len() {
                    assert(!cells_fit(
                        self@.frames[f as int].cells,
                        self@.layers.len(),
                        self@.images_decompressed,
                    ));
                    return false;
                }
                if c > 0 {
                    assert(views(cells@)[c - 1] == cells@[c - 1]@);
                    if cells[c - 1].chunk.layer_index > cells[c].chunk.layer_index {
                        assert(!self@.frames[f as int].sorted_by_layer());
                        return false;
                    }
                }
                c += 1;
            }
            assert(self@.frames[f as int].sorted_by_layer());
            f += 1;
        }
        true
    }

    /// Width and height of the canvas.
    pub fn size(&self) -> (size: (u16, u16))
        ensures
            size == (self.header.width, self.header.height),
    {
        (self.header.width, self.header.height)
    }

    pub fn canvas_width(&self) -> (width: u16)
        ensures
            width == self.header.width,
    {
        self.header.width
    }

    pub fn canvas_height(&self) -> (height: u16)
        ensures
            height == self.header.height,
    {
        self.header.height
    }

    /// Number of pixels of the canvas.
    pub fn pixel_count(&self) -> (count: usize)
        ensures
            count == self.header.width as nat * self.header.height as nat,
    {
        assert(self.header.width as nat * self.header.height as nat <= 65535 * 65535)
            by (nonlinear_arith)
            requires
                self.header.width <= 65535,
                self.header.height <= 65535,
        ;
        self.header.width as usize * self.header.height as usize
    }

    pub fn tags(&self) -> (tags: &[Tag<'a>])
        ensures
            tags@ == self.tags@,
    {
        self.tags.as_slice()
    }

    pub fn layers(&self) -> (layers: &[Layer<'a>])
        ensures
            layers@ == self.layers@,
    {
        self.layers.as_slice()
    }

    pub fn frames(&self) -> (frames: &[Frame<'a>])
        ensures
            frames@ == self.frames@,
    {
        self.frames.as_slice()
    }

    pub fn slices(&self) -> (slices: &[SliceChunk<'a>])
        ensures
            slices@ == self.slices@,
    {
        self.slices.as_slice()
    }

    /// Writes the RGBA bytes of the image with the given index to the
    /// start of `target`, 4 bytes for each pixel, and leaves the rest of
    /// `target` as it is. A target that is too short for the image is
    /// refused before anything is written.
    pub fn load_image(&self, index: usize, target: &mut Vec<u8>) -> (r: Result<(), LoadImageError>)
        requires
            index < self@.images.len(),
        ensures
            match r {
                Ok(_) => spec_load_image(self@, index as int, old(target)@) == Ok::<
                    Seq<u8>,
                    LoadImageError,
                >(final(target)@),
                Err(e) => spec_load_image(self@, index as int, old(target)@) == Err::<
                    Seq<u8>,
                    LoadImageError,
                >(e) && final(target)@ == old(target)@,
            },
    {
        let image = &self.images[index];
        assert(self@.images[index as int] == image@);
        let count = image.pixel_count();
        if (target.len() as u64) < 4 * (count as u64) {
            return Err(LoadImageError::TargetBufferTooSmall);
        }
        let resolved = resolve_image(image, self.header.color_depth, &self.palette)?;
        proof {
            lemma_resolved_image_wf(image@, self.header.color_depth, self.palette@);
        }
        let bytes = resolved.to_bytes();
        let ghost before = target@;
        let mut i: usize = 0;
        while i < bytes.len()
            invariant
                i <= bytes@.len(),
                bytes@.len() <= before.len(),
                target@.len() == before.len(),
                forall|k: int| 0 <= k < i ==> target@[k] == bytes@[k],
                forall|k: int| i <= k < before.len() ==> target@[k] == before[k],
            decreases bytes@.len() - i,
        {
            target.set(i, bytes[i]);
            i += 1;
        }
        assert(target@ =~= bytes@ + before.skip(bytes@.len() as int));
        Ok(())
    }

    /// Number of images of the file. Cels that are linked share an image.
    pub fn image_count(&self) -> (count: usize)
        ensures
            count == self.images@.len(),
    {
        self.images.len()
    }
}

} // verus!
