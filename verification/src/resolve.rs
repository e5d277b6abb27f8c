//! From the bytes of an image as the file stores them to RGBA pixels.

use vstd::prelude::*;
use crate::binary::color_depth::ColorDepth;
use crate::binary::image::{Image, ImageView};
use crate::binary::palette::Palette;
use crate::binary::scalars::Color;
use crate::inflate::{decompress, spec_decompress};
use crate::make_image::LoadImageError;
use crate::pixels::{bytes_pixels, RgbaImage, RgbaImageView};

verus! {

/// The pixels that RGBA bytes spell out: 4 bytes for each pixel.
pub open spec fn spec_rgba_to_rgba(source: Seq<u8>) -> Result<Seq<Color>, LoadImageError> {
    if source.len() % 4 != 0 {
        Err(LoadImageError::InvalidImageData)
    } else {
        Ok(bytes_pixels(source))
    }
}

/// The pixels that grayscale bytes spell out: a value and an alpha for each
/// pixel, and the value is its red, its green and its blue.
pub open spec fn spec_grayscale_to_rgba(source: Seq<u8>) -> Result<Seq<Color>, LoadImageError> {
    if source.len() % 2 != 0 {
        Err(LoadImageError::InvalidImageData)
    } else {
        Ok(
            Seq::new(
                source.len() / 2,
                |i: int|
                    Color {
                        red: source[2 * i],
                        green: source[2 * i],
                        blue: source[2 * i],
                        alpha: source[2 * i + 1],
                    },
            ),
        )
    }
}

/// The pixels that indexed bytes spell out: each byte is the index of a
/// color of the palette. A byte that the palette has no color for is a
/// failure.
pub open spec fn spec_indexed_to_rgba(source: Seq<u8>, palette: Seq<Color>) -> Result<
    Seq<Color>,
    LoadImageError,
> {
    if exists|i: int| 0 <= i < source.len() && #[trigger] source[i] >= palette.len() {
        Err(LoadImageError::InvalidImageData)
    } else {
        Ok(Seq::new(source.len(), |i: int| palette[source[i] as int]))
    }
}

/// The pixels that `raw` spells out in the color depth `depth`.
pub open spec fn spec_pixels_of(raw: Seq<u8>, depth: ColorDepth, palette: Seq<Color>) -> Result<
    Seq<Color>,
    LoadImageError,
> {
    match depth {
        ColorDepth::Rgba => spec_rgba_to_rgba(raw),
        ColorDepth::Grayscale => spec_grayscale_to_rgba(raw),
        ColorDepth::Indexed => spec_indexed_to_rgba(raw, palette),
        ColorDepth::Unknown(_) => Err(LoadImageError::UnsupportedColorDepth),
    }
}

/// The bytes of the pixels of `image` at `bytes_per_pixel`: its data, if
/// they are as many as its size calls for, or what its compressed data
/// hold. An image whose bytes no buffer of this machine can hold is a
/// failure.
pub open spec fn spec_raw_pixels(image: ImageView, bytes_per_pixel: nat) -> Result<
    Seq<u8>,
    LoadImageError,
> {
    let size = image.pixel_count() * bytes_per_pixel;
    if size > isize::MAX {
        Err(LoadImageError::TargetBufferTooSmall)
    } else if image.compressed {
        spec_decompress(image.data, size)
    } else if image.data.len() == size {
        Ok(image.data)
    } else {
        Err(LoadImageError::InvalidImageData)
    }
}

/// The RGBA image that `image` holds in a file of the color depth `depth`
/// with the palette `palette`.
pub open spec fn spec_resolve_image(image: ImageView, depth: ColorDepth, palette: Seq<Color>)
    -> Result<RgbaImageView, LoadImageError> {
    match depth.spec_bytes_per_pixel() {
        None => Err(LoadImageError::UnsupportedColorDepth),
        Some(bytes_per_pixel) => match spec_raw_pixels(image, bytes_per_pixel as nat) {
            Err(e) => Err(e),
            Ok(raw) => match spec_pixels_of(raw, depth, palette) {
                Err(e) => Err(e),
                Ok(pixels) => Ok(
                    RgbaImageView {
                        width: image.width as u32,
                        height: image.height as u32,
                        pixels,
                    },
                ),
            },
        },
    }
}

pub fn rgba_to_rgba(source: &[u8]) -> (r: Result<Vec<Color>, LoadImageError>)
    ensures
        match r {
            Ok(pixels) => spec_rgba_to_rgba(source@) == Ok::<Seq<Color>, LoadImageError>(pixels@),
            Err(e) => spec_rgba_to_rgba(source@) == Err::<Seq<Color>, LoadImageError>(e),
        },
{
    if source.len() % 4 != 0 {
        return Err(LoadImageError::InvalidImageData);
    }
    let count: usize = source.len() / 4;
    let mut pixels: Vec<Color> = Vec::new();
    let mut i: usize = 0;
    while i < count
        invariant
            i <= count,
            source@.len() == 4 * count,
            source@.len() <= usize::MAX,
            pixels@.len() == i,
            forall|k: int| 0 <= k < i ==> pixels@[k] == bytes_pixels(source@)[k],
        decreases count - i,
    {
        pixels.push(
            Color {
                red: source[4 * i],
                green: source[4 * i + 1],
                blue: source[4 * i + 2],
                alpha: source[4 * i + 3],
            },
        );
        i += 1;
    }
    assert(pixels@ =~= bytes_pixels(source@));
    Ok(pixels)
}

pub fn grayscale_to_rgba(source: &[u8]) -> (r: Result<Vec<Color>, LoadImageError>)
    ensures
        match r {
            Ok(pixels) => spec_grayscale_to_rgba(source@) == Ok::<Seq<Color>, LoadImageError>(
                pixels@,
            ),
            Err(e) => spec_grayscale_to_rgba(source@) == Err::<Seq<Color>, LoadImageError>(e),
        },
{
    if source.len() % 2 != 0 {
        return Err(LoadImageError::InvalidImageData);
    }
    let count: usize = source.len() / 2;
    let mut pixels: Vec<Color> = Vec::new();
    let mut i: usize = 0;
    while i < count
        invariant
            i <= count,
            source@.len() == 2 * count,
            source@.len() <= usize::MAX,
            pixels@.len() == i,
            forall|k: int| 0 <= k < i ==> pixels@[k] == spec_grayscale_to_rgba(source@)->Ok_0[k],
        decreases count - i,
    {
        let value = source[2 * i];
        pixels.push(Color { red: value, green: value, blue: value, alpha: source[2 * i + 1] });
        i += 1;
    }
    assert(pixels@ =~= spec_grayscale_to_rgba(source@)->Ok_0);
    Ok(pixels)
}

pub fn indexed_to_rgba(source: &[u8], palette: &Palette) -> (r: Result<Vec<Color>, LoadImageError>)
    ensures
        match r {
            Ok(pixels) => spec_indexed_to_rgba(source@, palette@) == Ok::<
                Seq<Color>,
                LoadImageError,
            >(pixels@),
            Err(e) => spec_indexed_to_rgba(source@, palette@) == Err::<Seq<Color>, LoadImageError>(
                e,
            ),
        },
{
    let mut pixels: Vec<Color> = Vec::new();
    let mut i: usize = 0;
    while i < source.len()
        invariant
            i <= source@.len(),
            pixels@.len() == i,
            forall|k: int| 0 <= k < i ==> source@[k] < palette@.len(),
            forall|k: int| 0 <= k < i ==> pixels@[k] == palette@[source@[k] as int],
        decreases source@.len() - i,
    {
        let index = source[i] as usize;
        if index >= palette.colors.len() {
            return Err(LoadImageError::InvalidImageData);
        }
        pixels.push(palette.colors[index]);
        i += 1;
    }
    assert(pixels@ =~= Seq::new(source@.len(), |i: int| palette@[source@[i] as int]));
    Ok(pixels)
}

/// The RGBA image that `image` holds in a file of the color depth `depth`
/// with the palette `palette`.
pub fn resolve_image(image: &Image<'_>, depth: ColorDepth, palette: &Palette) -> (r: Result<
    RgbaImage,
    LoadImageError,
>)
    ensures
        match r {
            Ok(resolved) => spec_resolve_image(image@, depth, palette@) == Ok::<
                RgbaImageView,
                LoadImageError,
            >(resolved@),
            Err(e) => spec_resolve_image(image@, depth, palette@) == Err::<
                RgbaImageView,
                LoadImageError,
            >(e),
        },
{
    let bytes_per_pixel = match depth.bytes_per_pixel() {
        Some(n) => n,
        None => {
            return Err(LoadImageError::UnsupportedColorDepth);
        },
    };
    let count = image.pixel_count();
    assert(count as nat * bytes_per_pixel as nat <= 0xffff_ffff * 4) by (nonlinear_arith)
        requires
            count <= 0xffff_ffff,
            bytes_per_pixel <= 4,
    ;
    let size: u64 = count as u64 * bytes_per_pixel as u64;
    if size > isize::MAX as u64 {
        return Err(LoadImageError::TargetBufferTooSmall);
    }
    let inflated: Vec<u8>;
    let raw: &[u8] = if image.compressed {
        inflated = decompress(image.data, size as usize)?;
        inflated.as_slice()
    } else {
        if image.data.len() as u64 != size {
            return Err(LoadImageError::InvalidImageData);
        }
        image.data
    };
    let pixels = match depth {
        ColorDepth::Rgba => rgba_to_rgba(raw)?,
        ColorDepth::Grayscale => grayscale_to_rgba(raw)?,
        ColorDepth::Indexed => indexed_to_rgba(raw, palette)?,
        ColorDepth::Unknown(_) => {
            return Err(LoadImageError::UnsupportedColorDepth);
        },
    };
    Ok(RgbaImage::from_pixels(image.width as u32, image.height as u32, pixels).unwrap())
}

/// In an indexed image, a pixel whose byte is `i` has the color that the
/// palette holds at `i`.
pub proof fn lemma_indexed_pixel_is_palette_color(source: Seq<u8>, palette: Seq<Color>, at: int)
    requires
        0 <= at < source.len(),
        spec_indexed_to_rgba(source, palette) is Ok,
    ensures
        source[at] < palette.len(),
        spec_indexed_to_rgba(source, palette)->Ok_0[at] == palette[source[at] as int],
{
}

/// An indexed image of one pixel whose byte is `index` resolves, in a
/// palette that has a color at `index`, to that very color.
pub proof fn lemma_indexed_single_pixel(index: u8, palette: Seq<Color>)
    requires
        index < palette.len(),
    ensures
        spec_resolve_image(
            ImageView { width: 1, height: 1, data: seq![index], compressed: false },
            ColorDepth::Indexed,
            palette,
        ) == Ok::<RgbaImageView, LoadImageError>(
            RgbaImageView { width: 1, height: 1, pixels: seq![palette[index as int]] },
        ),
{
    let image = ImageView { width: 1, height: 1, data: seq![index], compressed: false };
    assert(image.pixel_count() == 1) by (nonlinear_arith)
        requires
            image.width == 1,
            image.height == 1,
    ;
    let source = seq![index];
    assert(!(exists|i: int| 0 <= i < source.len() && #[trigger] source[i] >= palette.len()));
    assert(Seq::new(source.len(), |i: int| palette[source[i] as int]) =~= seq![
        palette[index as int],
    ]);
}

} // verus!
