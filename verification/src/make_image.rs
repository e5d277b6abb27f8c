//! Blending the cels of a frame into one image.
//!
//! The cels are blended in their order, each over what the cels before it
//! left, starting from pixels that show nothing. A cel takes part if its
//! layer is shown. What lies outside the image that is made is cut off.

use vstd::prelude::*;
use crate::binary::blend_mode::BlendMode;
use crate::binary::repeat::views;
use crate::binary::scalars::Color;
use crate::blend::{blend_pixel, blend_pixels};
use crate::loader::{cells_fit, AsepriteFile};
use crate::pixels::{lemma_grid_index, transparent, RgbaImage, RgbaImageView};
use crate::wrappers::{Cel, CelView, Frame, FrameView, Layer, LayerParameter, LayerView};

verus! {

/// Why the pixels of an image or of a frame could not be made.
#[derive(Debug, Clone, Copy, PartialEq, Eq, Structural)]
pub enum LoadImageError {
    /// The buffer for the pixels cannot hold them.
    TargetBufferTooSmall,
    /// The pixels are stored in a color depth that has no decoder.
    UnsupportedColorDepth,
    /// The compressed data is not a zlib stream that ends exactly where the
    /// pixels end.
    DecompressError,
    /// The data does not hold the pixels that the size of the image calls
    /// for, or a pixel names a color that the palette does not have.
    InvalidImageData,
    /// No cel of the frame takes part in the image. This is no failure: the
    /// frame shows nothing.
    EmptyFrame,
}

/// An image that covers a part of the canvas only. Its top left pixel lies
/// at column `displacement_x` and row `displacement_y` of the canvas.
#[derive(Debug, PartialEq, Eq, Hash, Clone)]
pub struct CroppedImage {
    pub img: RgbaImage,
    pub displacement_x: i32,
    pub displacement_y: i32,
}

pub struct CroppedImageView {
    pub img: RgbaImageView,
    pub displacement_x: i32,
    pub displacement_y: i32,
}

impl View for CroppedImage {
    type V = CroppedImageView;

    open spec fn view(&self) -> CroppedImageView {
        CroppedImageView {
            img: self.img@,
            displacement_x: self.displacement_x,
            displacement_y: self.displacement_y,
        }
    }
}

/// A rectangle of the canvas that a cel of a hitbox layer marks.
#[derive(Debug, Clone, Copy, PartialEq, Eq)]
pub struct Hitbox {
    /// Column and row of the top left corner.
    pub offset: (i32, i32),
    /// Width and height.
    pub size: (u32, u32),
    /// Index of the layer of the cel.
    pub layer_id: usize,
}

/// A rectangle of the canvas: its columns run from `left` up to but not
/// including `right`, its rows from `top` up to but not including `bottom`.
pub struct Bounds {
    pub left: int,
    pub top: int,
    pub right: int,
    pub bottom: int,
}

impl Bounds {
    /// The smallest rectangle that holds `self` and `other`.
    pub open spec fn union(self, other: Bounds) -> Bounds {
        Bounds {
            left: if other.left < self.left {
                other.left
            } else {
                self.left
            },
            top: if other.top < self.top {
                other.top
            } else {
                self.top
            },
            right: if other.right > self.right {
                other.right
            } else {
                self.right
            },
            bottom: if other.bottom > self.bottom {
                other.bottom
            } else {
                self.bottom
            },
        }
    }
}

/// The layer of the cel is shown.
pub open spec fn cel_shown(cel: CelView, layers: Seq<LayerView>) -> bool {
    layers[cel.chunk.layer_index as int].shown()
}

/// The rectangle of the canvas that the image of a cel takes.
pub open spec fn cel_bounds(cel: CelView, image: RgbaImageView) -> Bounds {
    Bounds {
        left: cel.chunk.x as int,
        top: cel.chunk.y as int,
        right: cel.chunk.x + image.width,
        bottom: cel.chunk.y + image.height,
    }
}

/// An image whose top left pixel lies at (`cel_x`, `cel_y`) has a pixel at
/// the place (`x`, `y`) of the canvas.
pub open spec fn covers(image: RgbaImageView, cel_x: int, cel_y: int, x: int, y: int) -> bool {
    cel_x <= x < cel_x + image.width && cel_y <= y < cel_y + image.height
}

/// What the place (`x`, `y`) of the canvas shows once an image at
/// (`cel_x`, `cel_y`) is blended over the color `below`.
pub open spec fn blend_at(
    below: Color,
    image: RgbaImageView,
    cel_x: int,
    cel_y: int,
    x: int,
    y: int,
    opacity: u8,
    mode: BlendMode,
) -> Color {
    if covers(image, cel_x, cel_y, x, y) {
        blend_pixel(below, image.pixel(x - cel_x, y - cel_y), opacity, mode)
    } else {
        below
    }
}

/// What the place (`x`, `y`) of the canvas shows after the first `n` cels.
pub open spec fn composite_pixel(
    cells: Seq<CelView>,
    layers: Seq<LayerView>,
    images: Seq<RgbaImageView>,
    n: int,
    x: int,
    y: int,
) -> Color
    decreases n,
{
    if n <= 0 {
        transparent()
    } else {
        let below = composite_pixel(cells, layers, images, n - 1, x, y);
        let cel = cells[n - 1];
        let layer = layers[cel.chunk.layer_index as int];
        if layer.shown() {
            blend_at(
                below,
                images[cel.image_index as int],
                cel.chunk.x as int,
                cel.chunk.y as int,
                x,
                y,
                layer.chunk.opacity,
                layer.chunk.blend_mode,
            )
        } else {
            below
        }
    }
}

/// The pixels of the rectangle of the given size whose top left corner
/// lies at (`left`, `top`) of the canvas, after all the cels.
pub open spec fn composite_pixels(
    cells: Seq<CelView>,
    layers: Seq<LayerView>,
    images: Seq<RgbaImageView>,
    left: int,
    top: int,
    width: nat,
    height: nat,
) -> Seq<Color> {
    Seq::new(
        width * height,
        |k: int|
            composite_pixel(
                cells,
                layers,
                images,
                cells.len() as int,
                left + k % (width as int),
                top + k / (width as int),
            ),
    )
}

/// The smallest rectangle that holds the images of those of the first `n`
/// cels that take part, if any does.
pub open spec fn frame_bounds(
    cells: Seq<CelView>,
    layers: Seq<LayerView>,
    images: Seq<RgbaImageView>,
    n: int,
) -> Option<Bounds>
    decreases n,
{
    if n <= 0 {
        None
    } else {
        let before = frame_bounds(cells, layers, images, n - 1);
        let cel = cells[n - 1];
        if cel_shown(cel, layers) {
            match before {
                None => Some(cel_bounds(cel, images[cel.image_index as int])),
                Some(bounds) => Some(bounds.union(cel_bounds(cel, images[cel.image_index as int]))),
            }
        } else {
            before
        }
    }
}

/// The frame on a canvas of the given size.
pub open spec fn spec_combined_frame_image(
    frame: FrameView,
    layers: Seq<LayerView>,
    images: Seq<RgbaImageView>,
    width: u16,
    height: u16,
) -> RgbaImageView {
    RgbaImageView {
        width: width as u32,
        height: height as u32,
        pixels: composite_pixels(frame.cells, layers, images, 0, 0, width as nat, height as nat),
    }
}

/// The frame, cut down to the smallest rectangle that holds the images of
/// the cels that take part. A frame in which no cel takes part is empty. A
/// rectangle whose pixels this machine cannot hold in one buffer is a
/// failure.
pub open spec fn spec_combined_frame_image_cropped(
    frame: FrameView,
    layers: Seq<LayerView>,
    images: Seq<RgbaImageView>,
) -> Result<CroppedImageView, LoadImageError> {
    match frame_bounds(frame.cells, layers, images, frame.cells.len() as int) {
        None => Err(LoadImageError::EmptyFrame),
        Some(bounds) => {
            let width = bounds.right - bounds.left;
            let height = bounds.bottom - bounds.top;
            if width > u32::MAX || height > u32::MAX || width * height > usize::MAX {
                Err(LoadImageError::TargetBufferTooSmall)
            } else {
                Ok(
                    CroppedImageView {
                        img: RgbaImageView {
                            width: width as u32,
                            height: height as u32,
                            pixels: composite_pixels(
                                frame.cells,
                                layers,
                                images,
                                bounds.left,
                                bounds.top,
                                width as nat,
                                height as nat,
                            ),
                        },
                        displacement_x: bounds.left as i32,
                        displacement_y: bounds.top as i32,
                    },
                )
            }
        },
    }
}

/// What the place (`px`, `py`) shows while an image is being blended row by
/// row: the blend, if the place lies before (`x`, `y`) in that order.
pub open spec fn blend_before(
    below: Color,
    image: RgbaImageView,
    cel_x: int,
    cel_y: int,
    px: int,
    py: int,
    opacity: u8,
    mode: BlendMode,
    x: int,
    y: int,
) -> Color {
    if py < y || (py == y && px < x) {
        blend_at(below, image, cel_x, cel_y, px, py, opacity, mode)
    } else {
        below
    }
}

/// `count` pixels that show nothing.
fn blank_pixels(count: usize) -> (pixels: Vec<Color>)
    ensures
        pixels@.len() == count,
        forall|k: int| 0 <= k < count ==> pixels@[k] == transparent(),
{
    let mut pixels: Vec<Color> = Vec::new();
    let mut i: usize = 0;
    while i < count
        invariant
            i <= count,
            pixels@.len() == i,
            forall|k: int| 0 <= k < i ==> pixels@[k] == transparent(),
        decreases count - i,
    {
        pixels.push(Color { red: 0, green: 0, blue: 0, alpha: 0 });
        i += 1;
    }
    pixels
}

/// Blends an image whose top left pixel lies at (`cel_x`, `cel_y`) of the
/// canvas into the pixels of the rectangle of the given size whose top left
/// corner lies at (`left`, `top`).
fn blend_cel(
    canvas: &mut Vec<Color>,
    left: i64,
    top: i64,
    width: u32,
    height: u32,
    cel_x: i64,
    cel_y: i64,
    image: &RgbaImage,
    opacity: u8,
    mode: BlendMode,
)
    requires
        old(canvas)@.len() == width as nat * height as nat,
        -32768 <= left <= 32767,
        -32768 <= top <= 32767,
        -32768 <= cel_x <= 32767,
        -32768 <= cel_y <= 32767,
    ensures
        final(canvas)@.len() == old(canvas)@.len(),
        forall|k: int|
            0 <= k < old(canvas)@.len() ==> #[trigger] final(canvas)@[k] == blend_at(
                old(canvas)@[k],
                image@,
                cel_x as int,
                cel_y as int,
                left + k % (width as int),
                top + k / (width as int),
                opacity,
                mode,
            ),
{
    let ghost before = canvas@;
    let ghost w = width as int;
    let x0: i64 = if cel_x > left {
        cel_x
    } else {
        left
    };
    let y0: i64 = if cel_y > top {
        cel_y
    } else {
        top
    };
    let x1: i64 = if cel_x + (image.width() as i64) < left + width as i64 {
        cel_x + image.width() as i64
    } else {
        left + width as i64
    };
    let y1: i64 = if cel_y + (image.height() as i64) < top + height as i64 {
        cel_y + image.height() as i64
    } else {
        top + height as i64
    };
    if x0 >= x1 || y0 >= y1 {
        proof {
            assert forall|k: int| 0 <= k < before.len() implies #[trigger] canvas@[k] == blend_at(
                before[k],
                image@,
                cel_x as int,
                cel_y as int,
                left + k % w,
                top + k / w,
                opacity,
                mode,
            ) by {
                lemma_place(k, w, height as int);
            }
        }
        return ;
    }
    let mut y: i64 = y0;
    while y < y1
        invariant
            y0 <= y <= y1,
            x0 < x1,
            w == width,
            w > 0,
            before.len() == width as nat * height as nat,
            canvas@.len() == before.len(),
            left <= x0,
            cel_x <= x0,
            top <= y0,
            cel_y <= y0,
            x1 <= left + width,
            x1 <= cel_x + image@.width,
            y1 <= top + height,
            y1 <= cel_y + image@.height,
            -32768 <= left <= 32767,
            -32768 <= top <= 32767,
            -32768 <= cel_x <= 32767,
            -32768 <= cel_y <= 32767,
            x0 == if cel_x > left { cel_x } else { left },
            x1 == if cel_x + image@.width < left + width { cel_x + image@.width } else { left + width },
            forall|k: int|
                0 <= k < before.len() ==> #[trigger] canvas@[k] == blend_before(
                    before[k],
                    image@,
                    cel_x as int,
                    cel_y as int,
                    left + k % w,
                    top + k / w,
                    opacity,
                    mode,
                    x0 as int,
                    y as int,
                ),
        decreases y1 - y,
    {
        let mut x: i64 = x0;
        while x < x1
            invariant
                y0 <= y < y1,
                x0 <= x <= x1,
                w == width,
                w > 0,
                before.len() == width as nat * height as nat,
                canvas@.len() == before.len(),
                left <= x0,
                cel_x <= x0,
                top <= y0,
                cel_y <= y0,
                x1 <= left + width,
                x1 <= cel_x + image@.width,
                y1 <= top + height,
                y1 <= cel_y + image@.height,
                -32768 <= left <= 32767,
                -32768 <= top <= 32767,
                -32768 <= cel_x <= 32767,
                -32768 <= cel_y <= 32767,
                forall|k: int|
                    0 <= k < before.len() ==> #[trigger] canvas@[k] == blend_before(
                        before[k],
                        image@,
                        cel_x as int,
                        cel_y as int,
                        left + k % w,
                        top + k / w,
                        opacity,
                        mode,
                        x as int,
                        y as int,
                    ),
            decreases x1 - x,
        {
            let _ = canvas.len();
            proof {
                lemma_grid_index(x - left, y - top, w, height as int);
                assert(0 <= (y - top) * w <= (y - top) * w + (x - left));
                assert((y - top) * w + (x - left) < canvas@.len() <= usize::MAX);
            }
            let row: usize = (y - top) as usize * width as usize;
            let at: usize = row + (x - left) as usize;
            let pixel = image.get_pixel((x - cel_x) as u32, (y - cel_y) as u32);
            let blended = blend_pixels(canvas[at], pixel, opacity, mode);
            let ghost earlier = canvas@;
            canvas.set(at, blended);
            proof {
                assert forall|k: int| 0 <= k < before.len() implies #[trigger] canvas@[k]
                    == blend_before(
                    before[k],
                    image@,
                    cel_x as int,
                    cel_y as int,
                    left + k % w,
                    top + k / w,
                    opacity,
                    mode,
                    x + 1,
                    y as int,
                ) by {
                    lemma_place(k, w, height as int);
                    if k != at {
                        assert(canvas@[k] == earlier[k]);
                        assert(!(k % w == x - left && k / w == y - top));
                    } else {
                        assert(earlier[k] == before[k]);
                    }
                }
            }
            x += 1;
        }
        proof {
            assert forall|k: int| 0 <= k < before.len() implies #[trigger] canvas@[k]
                == blend_before(
                before[k],
                image@,
                cel_x as int,
                cel_y as int,
                left + k % w,
                top + k / w,
                opacity,
                mode,
                x0 as int,
                y + 1,
            ) by {
                lemma_place(k, w, height as int);
            }
        }
        y += 1;
    }
    proof {
        assert forall|k: int| 0 <= k < before.len() implies #[trigger] canvas@[k] == blend_at(
            before[k],
            image@,
            cel_x as int,
            cel_y as int,
            left + k % w,
            top + k / w,
            opacity,
            mode,
        ) by {
            lemma_place(k, w, height as int);
        }
    }
}

/// The place of pixel number `k` in a grid: its column and its row lie in
/// the grid, and they give `k` back.
pub proof fn lemma_place(k: int, width: int, height: int)
    requires
        0 <= k < width * height,
        0 <= height,
        0 <= width,
    ensures
        width > 0,
        0 <= k % width < width,
        0 <= k / width < height,
        k == (k / width) * width + k % width,
{
    assert(width > 0) by (nonlinear_arith)
        requires
            0 <= k < width * height,
            0 <= width,
    ;
    vstd::arithmetic::div_mod::lemma_fundamental_div_mod(k, width);
    vstd::arithmetic::div_mod::lemma_mod_bound(k, width);
    assert(k / width < height) by (nonlinear_arith)
        requires
            k == width * (k / width) + k % width,
            0 <= k % width,
            k < width * height,
            width > 0,
    ;
    assert(0 <= k / width) by (nonlinear_arith)
        requires
            k == width * (k / width) + k % width,
            k % width < width,
            0 <= k,
            width > 0,
    ;
    assert(width * (k / width) == (k / width) * width) by (nonlinear_arith);
}

/// Blends the cels into the pixels of the rectangle of the given size whose
/// top left corner lies at (`left`, `top`) of the canvas.
fn composite(
    cells: &Vec<Cel<'_>>,
    layers: &[Layer<'_>],
    images: &[RgbaImage],
    left: i64,
    top: i64,
    width: u32,
    height: u32,
) -> (pixels: Vec<Color>)
    requires
        cells_fit(views(cells@), layers@.len(), views(images@)),
        width * height <= usize::MAX,
        -32768 <= left <= 32767,
        -32768 <= top <= 32767,
    ensures
        pixels@ == composite_pixels(
            views(cells@),
            views(layers@),
            views(images@),
            left as int,
            top as int,
            width as nat,
            height as nat,
        ),
{
    let count: usize = width as usize * height as usize;
    let mut canvas = blank_pixels(count);
    let ghost w = width as int;
    let mut n: usize = 0;
    while n < cells.len()
        invariant
            n <= cells@.len(),
            w == width,
            cells_fit(views(cells@), layers@.len(), views(images@)),
            canvas@.len() == width as nat * height as nat,
            -32768 <= left <= 32767,
            -32768 <= top <= 32767,
            forall|k: int|
                0 <= k < canvas@.len() ==> #[trigger] canvas@[k] == composite_pixel(
                    views(cells@),
                    views(layers@),
                    views(images@),
                    n as int,
                    left + k % w,
                    top + k / w,
                ),
        decreases cells@.len() - n,
    {
        let cel = &cells[n];
        assert(views(cells@)[n as int] == cel@);
        let layer = &layers[cel.layer_index()];
        assert(views(layers@)[cel.chunk.layer_index as int] == layer@);
        if layer.shown() {
            let image = &images[cel.image_index];
            assert(views(images@)[cel.image_index as int] == image@);
            blend_cel(
                &mut canvas,
                left,
                top,
                width,
                height,
                cel.chunk.x as i64,
                cel.chunk.y as i64,
                image,
                layer.chunk.opacity,
                layer.chunk.blend_mode,
            );
        }
        n += 1;
    }
    assert(canvas@ =~= composite_pixels(
        views(cells@),
        views(layers@),
        views(images@),
        left as int,
        top as int,
        width as nat,
        height as nat,
    ));
    canvas
}

/// The hitboxes that the first `n` cels mark: one for each cel on a layer
/// with the hitbox parameter, at the place and of the size of the image of
/// the cel.
pub open spec fn spec_hitboxes(
    cells: Seq<CelView>,
    layers: Seq<LayerView>,
    images: Seq<RgbaImageView>,
    n: int,
) -> Seq<Hitbox>
    decreases n,
{
    if n <= 0 {
        Seq::empty()
    } else {
        let before = spec_hitboxes(cells, layers, images, n - 1);
        let cel = cells[n - 1];
        if layers[cel.chunk.layer_index as int].has(LayerParameter::Hitbox) {
            before.push(
                Hitbox {
                    offset: (cel.chunk.x as i32, cel.chunk.y as i32),
                    size: (
                        images[cel.image_index as int].width,
                        images[cel.image_index as int].height,
                    ),
                    layer_id: cel.chunk.layer_index as usize,
                },
            )
        } else {
            before
        }
    }
}

/// A rectangle of the canvas, as the compositor holds it.
struct Rect {
    left: i64,
    top: i64,
    right: i64,
    bottom: i64,
}

impl Rect {
    spec fn bounds(self) -> Bounds {
        Bounds {
            left: self.left as int,
            top: self.top as int,
            right: self.right as int,
            bottom: self.bottom as int,
        }
    }

    /// The rectangle starts on the canvas coordinates of a cel and is no
    /// larger than two images side by side can make it.
    spec fn in_range(self) -> bool {
        &&& -32768 <= self.left <= 32767
        &&& -32768 <= self.top <= 32767
        &&& self.left <= self.right <= 32767 + u32::MAX
        &&& self.top <= self.bottom <= 32767 + u32::MAX
    }
}

/// The smallest rectangle that holds the images of the cels that take
/// part.
fn bounds_of(cells: &Vec<Cel<'_>>, layers: &[Layer<'_>], images: &[RgbaImage]) -> (found: Option<Rect>)
    requires
        cells_fit(views(cells@), layers@.len(), views(images@)),
    ensures
        match found {
            None => frame_bounds(
                views(cells@),
                views(layers@),
                views(images@),
                cells@.len() as int,
            ) is None,
            Some(rect) => rect.in_range() && frame_bounds(
                views(cells@),
                views(layers@),
                views(images@),
                cells@.len() as int,
            ) == Some(rect.bounds()),
        },
{
    let mut found: Option<Rect> = None;
    let mut n: usize = 0;
    while n < cells.len()
        invariant
            n <= cells@.len(),
            cells_fit(views(cells@), layers@.len(), views(images@)),
            match found {
                None => frame_bounds(views(cells@), views(layers@), views(images@), n as int)
                    is None,
                Some(rect) => rect.in_range() && frame_bounds(
                    views(cells@),
                    views(layers@),
                    views(images@),
                    n as int,
                ) == Some(rect.bounds()),
            },
        decreases cells@.len() - n,
    {
        let cel = &cells[n];
        assert(views(cells@)[n as int] == cel@);
        let layer = &layers[cel.layer_index()];
        assert(views(layers@)[cel.chunk.layer_index as int] == layer@);
        if layer.shown() {
            let image = &images[cel.image_index];
            assert(views(images@)[cel.image_index as int] == image@);
            let left = cel.chunk.x as i64;
            let top = cel.chunk.y as i64;
            let right = left + image.width() as i64;
            let bottom = top + image.height() as i64;
            found = match found {
                None => Some(Rect { left, top, right, bottom }),
                Some(rect) => Some(
                    Rect {
                        left: if left < rect.left {
                            left
                        } else {
                            rect.left
                        },
                        top: if top < rect.top {
                            top
                        } else {
                            rect.top
                        },
                        right: if right > rect.right {
                            right
                        } else {
                            rect.right
                        },
                        bottom: if bottom > rect.bottom {
                            bottom
                        } else {
                            rect.bottom
                        },
                    },
                ),
            };
        }
        n += 1;
    }
    found
}

impl<'a> Frame<'a> {
    /// Blends the cels of the frame into one image that is cut down to the
    /// smallest rectangle that holds them.
    pub fn combined_frame_image_cropped(&self, layers: &[Layer<'_>], images: &[RgbaImage]) -> (r:
        Result<CroppedImage, LoadImageError>)
        requires
            cells_fit(self@.cells, layers@.len(), views(images@)),
        ensures
            match r {
                Ok(cropped) => spec_combined_frame_image_cropped(
                    self@,
                    views(layers@),
                    views(images@),
                ) == Ok::<CroppedImageView, LoadImageError>(cropped@),
                Err(e) => spec_combined_frame_image_cropped(self@, views(layers@), views(images@))
                    == Err::<CroppedImageView, LoadImageError>(e),
            },
    {
        let rect = match bounds_of(&self.cells, layers, images) {
            None => {
                return Err(LoadImageError::EmptyFrame);
            },
            Some(rect) => rect,
        };
        let wide: i64 = rect.right - rect.left;
        let high: i64 = rect.bottom - rect.top;
        if wide > u32::MAX as i64 || high > u32::MAX as i64 {
            return Err(LoadImageError::TargetBufferTooSmall);
        }
        assert(wide * high <= 0xffff_ffff * 0xffff_ffff) by (nonlinear_arith)
            requires
                0 <= wide <= 0xffff_ffff,
                0 <= high <= 0xffff_ffff,
        ;
        if wide as u64 * high as u64 > usize::MAX as u64 {
            return Err(LoadImageError::TargetBufferTooSmall);
        }
        let pixels = composite(
            &self.cells,
            layers,
            images,
            rect.left,
            rect.top,
            wide as u32,
            high as u32,
        );
        let img = RgbaImage::from_pixels(wide as u32, high as u32, pixels).unwrap();
        Ok(CroppedImage { img, displacement_x: rect.left as i32, displacement_y: rect.top as i32 })
    }

    /// Blends the cels of the frame into an image of the given size whose
    /// top left pixel is the top left pixel of the canvas.
    pub fn combined_frame_image(
        &self,
        layers: &[Layer<'_>],
        images: &[RgbaImage],
        width: u16,
        height: u16,
    ) -> (image: RgbaImage)
        requires
            cells_fit(self@.cells, layers@.len(), views(images@)),
        ensures
            image@ == spec_combined_frame_image(
                self@,
                views(layers@),
                views(images@),
                width,
                height,
            ),
    {
        assert(width as nat * height as nat <= 65535 * 65535) by (nonlinear_arith)
            requires
                width <= 65535,
                height <= 65535,
        ;
        let pixels = composite(&self.cells, layers, images, 0, 0, width as u32, height as u32);
        RgbaImage::from_pixels(width as u32, height as u32, pixels).unwrap()
    }

    /// The hitboxes of the frame: one for each cel on a layer with the
    /// hitbox parameter.
    pub fn hitboxes(&self, layers: &[Layer<'_>], images: &[RgbaImage]) -> (out: Vec<Hitbox>)
        requires
            cells_fit(self@.cells, layers@.len(), views(images@)),
        ensures
            out@ == spec_hitboxes(
                self@.cells,
                views(layers@),
                views(images@),
                self@.cells.len() as int,
            ),
    {
        let mut out: Vec<Hitbox> = Vec::new();
        let mut n: usize = 0;
        while n < self.cells.len()
            invariant
                n <= self.cells@.len(),
                cells_fit(self@.cells, layers@.len(), views(images@)),
                out@ == spec_hitboxes(self@.cells, views(layers@), views(images@), n as int),
            decreases self.cells@.len() - n,
        {
            let cel = &self.cells[n];
            assert(self@.cells[n as int] == cel@);
            let layer = &layers[cel.layer_index()];
            assert(views(layers@)[cel.chunk.layer_index as int] == layer@);
            if layer.has(LayerParameter::Hitbox) {
                let image = &images[cel.image_index];
                assert(views(images@)[cel.image_index as int] == image@);
                out.push(
                    Hitbox {
                        offset: (cel.x(), cel.y()),
                        size: image.dimensions(),
                        layer_id: cel.layer_index(),
                    },
                );
            }
            n += 1;
        }
        out
    }
}

impl AsepriteFile<'_> {
    /// Blends the cels of a frame into an image of the size of the canvas.
    pub fn combined_frame_image(&self, frame_index: usize) -> (r: Result<RgbaImage, LoadImageError>)
        requires
            self@.wf(),
            frame_index < self@.frames.len(),
        ensures
            r matches Ok(image) && image@ == spec_combined_frame_image(
                self@.frames[frame_index as int],
                self@.layers,
                self@.images_decompressed,
                self@.header.width,
                self@.header.height,
            ),
    {
        let frame = &self.frames[frame_index];
        assert(self@.frames[frame_index as int] == frame@);
        Ok(
            frame.combined_frame_image(
                self.layers.as_slice(),
                self.images_decompressed.as_slice(),
                self.header.width,
                self.header.height,
            ),
        )
    }

    /// Blends the cels of a frame into one image that is cut down to the
    /// smallest rectangle that holds them.
    pub fn combined_frame_image_cropped(&self, frame_index: usize) -> (r: Result<
        CroppedImage,
        LoadImageError,
    >)
        requires
            self@.wf(),
            frame_index < self@.frames.len(),
        ensures
            match r {
                Ok(cropped) => spec_combined_frame_image_cropped(
                    self@.frames[frame_index as int],
                    self@.layers,
                    self@.images_decompressed,
                ) == Ok::<CroppedImageView, LoadImageError>(cropped@),
                Err(e) => spec_combined_frame_image_cropped(
                    self@.frames[frame_index as int],
                    self@.layers,
                    self@.images_decompressed,
                ) == Err::<CroppedImageView, LoadImageError>(e),
            },
    {
        let frame = &self.frames[frame_index];
        assert(self@.frames[frame_index as int] == frame@);
        frame.combined_frame_image_cropped(
            self.layers.as_slice(),
            self.images_decompressed.as_slice(),
        )
    }
}

/// No layer of any of the cels is shown.
pub open spec fn all_hidden(cells: Seq<CelView>, layers: Seq<LayerView>) -> bool {
    forall|c: int| 0 <= c < cells.len() ==> !cel_shown(#[trigger] cells[c], layers)
}

/// Cels on layers that are not shown leave every place as it was: it shows
/// nothing.
pub proof fn lemma_hidden_cels_leave_pixel(
    cells: Seq<CelView>,
    layers: Seq<LayerView>,
    images: Seq<RgbaImageView>,
    n: int,
    x: int,
    y: int,
)
    requires
        n <= cells.len(),
        all_hidden(cells, layers),
    ensures
        composite_pixel(cells, layers, images, n, x, y) == transparent(),
    decreases n,
{
    if n > 0 {
        assert(!cel_shown(cells[n - 1], layers));
        lemma_hidden_cels_leave_pixel(cells, layers, images, n - 1, x, y);
    }
}

/// Cels take part in the bounds of a frame exactly if one of them lies on a
/// layer that is shown.
pub proof fn lemma_bounds_exist_iff_shown(
    cells: Seq<CelView>,
    layers: Seq<LayerView>,
    images: Seq<RgbaImageView>,
    n: int,
)
    requires
        n <= cells.len(),
    ensures
        frame_bounds(cells, layers, images, n) is None <==> forall|c: int|
            0 <= c < n ==> !cel_shown(#[trigger] cells[c], layers),
    decreases n,
{
    if n > 0 {
        lemma_bounds_exist_iff_shown(cells, layers, images, n - 1);
        if frame_bounds(cells, layers, images, n) is None {
            assert forall|c: int| 0 <= c < n implies !cel_shown(#[trigger] cells[c], layers) by {
                if c < n - 1 {
                } else {
                    assert(!cel_shown(cells[n - 1], layers));
                }
            }
        } else {
            if forall|c: int| 0 <= c < n ==> !cel_shown(#[trigger] cells[c], layers) {
                assert(!cel_shown(cells[n - 1], layers));
                assert(forall|c: int| 0 <= c < n - 1 ==> !cel_shown(#[trigger] cells[c], layers));
            }
        }
    }
}

/// A frame whose cels all lie on layers that are not shown is empty when it
/// is cut down, and an image that shows nothing when it is not.
pub proof fn lemma_hidden_frame(
    frame: FrameView,
    layers: Seq<LayerView>,
    images: Seq<RgbaImageView>,
    width: u16,
    height: u16,
)
    requires
        all_hidden(frame.cells, layers),
    ensures
        spec_combined_frame_image_cropped(frame, layers, images) == Err::<
            CroppedImageView,
            LoadImageError,
        >(LoadImageError::EmptyFrame),
        spec_combined_frame_image(frame, layers, images, width, height) == RgbaImageView::blank(
            width as u32,
            height as u32,
        ),
{
    lemma_bounds_exist_iff_shown(frame.cells, layers, images, frame.cells.len() as int);
    let made = spec_combined_frame_image(frame, layers, images, width, height);
    let blank = RgbaImageView::blank(width as u32, height as u32);
    assert(made.pixels.len() == blank.pixels.len());
    assert forall|k: int| 0 <= k < made.pixels.len() implies made.pixels[k] == blank.pixels[k] by {
        lemma_hidden_cels_leave_pixel(
            frame.cells,
            layers,
            images,
            frame.cells.len() as int,
            0 + k % (width as int),
            0 + k / (width as int),
        );
    }
    assert(made.pixels =~= blank.pixels);
}

/// A frame is empty when it is cut down exactly if none of its cels lies on
/// a layer that is shown.
pub proof fn lemma_empty_frame_iff_hidden(
    frame: FrameView,
    layers: Seq<LayerView>,
    images: Seq<RgbaImageView>,
)
    ensures
        all_hidden(frame.cells, layers) <==> spec_combined_frame_image_cropped(
            frame,
            layers,
            images,
        ) == Err::<CroppedImageView, LoadImageError>(LoadImageError::EmptyFrame),
{
    lemma_bounds_exist_iff_shown(frame.cells, layers, images, frame.cells.len() as int);
}

/// Two images made of the same frame of the same sprite are the same, pixel
/// by pixel and byte by byte.
pub proof fn lemma_compositing_repeats(
    frame: FrameView,
    layers: Seq<LayerView>,
    images: Seq<RgbaImageView>,
    width: u16,
    height: u16,
    first: RgbaImageView,
    second: RgbaImageView,
)
    requires
        first == spec_combined_frame_image(frame, layers, images, width, height),
        second == spec_combined_frame_image(frame, layers, images, width, height),
    ensures
        first == second,
        first.bytes() == second.bytes(),
{
}

} // verus!
