//! Images as grids of RGBA pixels.

use vstd::prelude::*;
use crate::binary::scalars::Color;

verus! {

/// The pixel that shows nothing: every channel is zero.
pub open spec fn transparent() -> Color {
    Color { red: 0, green: 0, blue: 0, alpha: 0 }
}

/// An image of `width` by `height` pixels, row by row from the top, each
/// row from the left.
#[derive(Debug, PartialEq, Eq, Hash)]
pub struct RgbaImage {
    width: u32,
    height: u32,
    pixels: Vec<Color>,
}

pub struct RgbaImageView {
    pub width: u32,
    pub height: u32,
    pub pixels: Seq<Color>,
}

impl RgbaImageView {
    /// The image holds one pixel for each place of its grid.
    pub open spec fn wf(self) -> bool {
        self.pixels.len() == self.width as nat * self.height as nat
    }

    /// The pixel in column `x` of row `y`.
    pub open spec fn pixel(self, x: int, y: int) -> Color {
        self.pixels[y * self.width + x]
    }

    /// The image of the given size that shows nothing.
    pub open spec fn blank(width: u32, height: u32) -> RgbaImageView {
        RgbaImageView {
            width,
            height,
            pixels: Seq::new(width as nat * height as nat, |i: int| transparent()),
        }
    }

    /// The channels of the pixels one after the other: red, green, blue
    /// and alpha of the first pixel, then those of the second, and so on.
    pub open spec fn bytes(self) -> Seq<u8> {
        pixel_bytes(self.pixels)
    }
}

/// Channel number `channel` of a color, counting red, green, blue, alpha
/// from 0.
pub open spec fn channel_of(color: Color, channel: int) -> u8 {
    if channel == 0 {
        color.red
    } else if channel == 1 {
        color.green
    } else if channel == 2 {
        color.blue
    } else {
        color.alpha
    }
}

/// The channels of `pixels` one after the other, 4 bytes for each pixel.
pub open spec fn pixel_bytes(pixels: Seq<Color>) -> Seq<u8> {
    Seq::new(4 * pixels.len(), |i: int| channel_of(pixels[i / 4], i % 4))
}

/// The pixels that `bytes` spell out, 4 bytes for each pixel.
pub open spec fn bytes_pixels(bytes: Seq<u8>) -> Seq<Color> {
    Seq::new(
        bytes.len() / 4,
        |i: int|
            Color {
                red: bytes[4 * i],
                green: bytes[4 * i + 1],
                blue: bytes[4 * i + 2],
                alpha: bytes[4 * i + 3],
            },
    )
}

impl View for RgbaImage {
    type V = RgbaImageView;

    closed spec fn view(&self) -> RgbaImageView {
        RgbaImageView { width: self.width, height: self.height, pixels: self.pixels@ }
    }
}

impl RgbaImage {
    #[verifier::type_invariant]
    spec fn grid_is_full(self) -> bool {
        self.pixels@.len() == self.width as nat * self.height as nat
    }

    /// An image of the given size that shows nothing.
    pub fn new(width: u32, height: u32) -> (image: RgbaImage)
        requires
            width * height <= usize::MAX,
        ensures
            image@ == RgbaImageView::blank(width, height),
    {
        let count: usize = width as usize * height as usize;
        let mut pixels: Vec<Color> = Vec::new();
        let mut i: usize = 0;
        while i < count
            invariant
                i <= count,
                pixels@.len() == i,
                forall|k: int| 0 <= k < i ==> pixels@[k] == transparent(),
            decreases count - i,
        {
            pixels.push(Color { red: 0, green: 0, blue: 0, alpha: 0 });
            i += 1;
        }
        assert(pixels@ =~= RgbaImageView::blank(width, height).pixels);
        RgbaImage { width, height, pixels }
    }

    /// The image of the given size with the given pixels, if there is one
    /// pixel for each place of the grid.
    pub fn from_pixels(width: u32, height: u32, pixels: Vec<Color>) -> (image: Option<RgbaImage>)
        ensures
            image is Some <==> pixels@.len() == width as nat * height as nat,
            image matches Some(image) ==> image@ == (RgbaImageView {
                width,
                height,
                pixels: pixels@,
            }),
    {
        assert(width as nat * height as nat <= 0xffff_ffff * 0xffff_ffff) by (nonlinear_arith)
            requires
                width <= 0xffff_ffff,
                height <= 0xffff_ffff,
        ;
        if pixels.len() as u64 == width as u64 * height as u64 {
            Some(RgbaImage { width, height, pixels })
        } else {
            None
        }
    }

    /// The image of the given size whose pixels `bytes` spell out, if there
    /// are 4 bytes for each place of the grid.
    pub fn from_raw(width: u32, height: u32, bytes: &[u8]) -> (image: Option<RgbaImage>)
        ensures
            image is Some <==> bytes@.len() == 4 * (width as nat * height as nat),
            image matches Some(image) ==> image@ == (RgbaImageView {
                width,
                height,
                pixels: bytes_pixels(bytes@),
            }),
    {
        assert(width as nat * height as nat <= 0xffff_ffff * 0xffff_ffff) by (nonlinear_arith)
            requires
                width <= 0xffff_ffff,
                height <= 0xffff_ffff,
        ;
        if bytes.len() % 4 != 0 || (bytes.len() / 4) as u64 != width as u64 * height as u64 {
            return None;
        }
        let count: usize = bytes.len() / 4;
        assert(bytes@.len() == 4 * count);
        let mut pixels: Vec<Color> = Vec::new();
        let mut i: usize = 0;
        while i < count
            invariant
                i <= count,
                bytes@.len() == 4 * count,
                bytes@.len() <= usize::MAX,
                pixels@.len() == i,
                forall|k: int| 0 <= k < i ==> pixels@[k] == bytes_pixels(bytes@)[k],
            decreases count - i,
        {
            pixels.push(
                Color {
                    red: bytes[4 * i],
                    green: bytes[4 * i + 1],
                    blue: bytes[4 * i + 2],
                    alpha: bytes[4 * i + 3],
                },
            );
            i += 1;
        }
        assert(pixels@ =~= bytes_pixels(bytes@));
        Some(RgbaImage { width, height, pixels })
    }

    pub fn width(&self) -> (width: u32)
        ensures
            width == self@.width,
    {
        self.width
    }

    pub fn height(&self) -> (height: u32)
        ensures
            height == self@.height,
    {
        self.height
    }

    /// Width and height.
    pub fn dimensions(&self) -> (size: (u32, u32))
        ensures
            size == (self@.width, self@.height),
    {
        (self.width, self.height)
    }

    /// The pixels, row by row. There is one for each place of the grid.
    pub fn pixels(&self) -> (pixels: &Vec<Color>)
        ensures
            pixels@ == self@.pixels,
            self@.wf(),
    {
        proof {
            use_type_invariant(self);
        }
        &self.pixels
    }

    /// The pixel in column `x` of row `y`.
    pub fn get_pixel(&self, x: u32, y: u32) -> (pixel: Color)
        requires
            x < self@.width,
            y < self@.height,
        ensures
            pixel == self@.pixel(x as int, y as int),
    {
        proof {
            use_type_invariant(self);
            lemma_grid_index(x as int, y as int, self.width as int, self.height as int);
            assert(self.pixels@.len() == self.width as int * self.height as int);
            assert(0 <= y as int * self.width as int <= y as int * self.width as int + x as int);
        }
        let _ = self.pixels.len();
        let row: usize = y as usize * self.width as usize;
        self.pixels[row + x as usize]
    }

    /// The same image once more.
    pub fn duplicate(&self) -> (image: RgbaImage)
        ensures
            image@ == self@,
    {
        proof {
            use_type_invariant(self);
        }
        let mut pixels: Vec<Color> = Vec::new();
        let mut i: usize = 0;
        while i < self.pixels.len()
            invariant
                i <= self.pixels.len(),
                pixels@ == self.pixels@.take(i as int),
            decreases self.pixels.len() - i,
        {
            pixels.push(self.pixels[i]);
            assert(self.pixels@.take(i + 1) =~= self.pixels@.take(i as int).push(self.pixels@[i as int]));
            i += 1;
        }
        assert(self.pixels@.take(i as int) =~= self.pixels@);
        RgbaImage { width: self.width, height: self.height, pixels }
    }

    /// Whether the two images are the same: of the same size, with the same
    /// pixels.
    pub fn same(&self, other: &RgbaImage) -> (same: bool)
        ensures
            same == (self@ == other@),
    {
        if self.width != other.width || self.height != other.height {
            return false;
        }
        if self.pixels.len() != other.pixels.len() {
            assert(self@.pixels.len() != other@.pixels.len());
            return false;
        }
        let mut i: usize = 0;
        while i < self.pixels.len()
            invariant
                i <= self.pixels@.len(),
                self.pixels@.len() == other.pixels@.len(),
                forall|k: int| 0 <= k < i ==> self.pixels@[k] == other.pixels@[k],
            decreases self.pixels@.len() - i,
        {
            if self.pixels[i] != other.pixels[i] {
                assert(self@.pixels[i as int] != other@.pixels[i as int]);
                return false;
            }
            i += 1;
        }
        assert(self.pixels@ =~= other.pixels@);
        true
    }

    /// The channels of the pixels one after the other.
    pub fn to_bytes(&self) -> (bytes: Vec<u8>)
        requires
            4 * self@.pixels.len() <= usize::MAX,
        ensures
            bytes@ == self@.bytes(),
    {
        let mut bytes: Vec<u8> = Vec::new();
        let mut i: usize = 0;
        while i < self.pixels.len()
            invariant
                i <= self.pixels.len(),
                4 * self.pixels.len() <= usize::MAX,
                bytes@.len() == 4 * i,
                forall|k: int| 0 <= k < 4 * i ==> bytes@[k] == pixel_bytes(self.pixels@)[k],
            decreases self.pixels.len() - i,
        {
            let pixel = self.pixels[i];
            bytes.push(pixel.red);
            bytes.push(pixel.green);
            bytes.push(pixel.blue);
            bytes.push(pixel.alpha);
            i += 1;
        }
        assert(bytes@ =~= pixel_bytes(self.pixels@));
        bytes
    }
}

/// A place of a grid has an index below the number of places.
pub proof fn lemma_grid_index(x: int, y: int, width: int, height: int)
    requires
        0 <= x < width,
        0 <= y < height,
    ensures
        0 <= y * width + x < width * height,
        (y * width + x) / width == y,
        (y * width + x) % width == x,
{
    assert(y * width + x < width * height) by (nonlinear_arith)
        requires
            0 <= x < width,
            0 <= y < height,
    {
        assert((y + 1) * width <= height * width);
    }
    assert(0 <= y * width) by (nonlinear_arith)
        requires
            0 <= y,
            0 < width,
    ;
    vstd::arithmetic::div_mod::lemma_fundamental_div_mod_converse(y * width + x, width, y, x);
}

impl Clone for RgbaImage {
    fn clone(&self) -> (image: RgbaImage)
        ensures
            image@ == self@,
    {
        self.duplicate()
    }
}

} // verus!
