//! The pixels of a cel as the file stores them.

use vstd::prelude::*;

verus! {

#[derive(Debug, Clone, Copy)]
pub struct Image<'a> {
    /// Width in pixels.
    pub width: u16,
    /// Height in pixels.
    pub height: u16,
    /// The pixels row by row from the top, each row from the left; or the
    /// same bytes compressed with zlib.
    pub data: &'a [u8],
    /// The data is compressed.
    pub compressed: bool,
}

pub struct ImageView {
    pub width: u16,
    pub height: u16,
    pub data: Seq<u8>,
    pub compressed: bool,
}

impl View for Image<'_> {
    type V = ImageView;

    open spec fn view(&self) -> ImageView {
        ImageView {
            width: self.width,
            height: self.height,
            data: self.data@,
            compressed: self.compressed,
        }
    }
}

impl ImageView {
    /// Number of pixels of the image.
    pub open spec fn pixel_count(self) -> nat {
        (self.width as nat) * (self.height as nat)
    }
}

impl Image<'_> {
    pub fn pixel_count(&self) -> (count: usize)
        ensures
            count == self@.pixel_count(),
            count <= 65535 * 65535,
    {
        assert(self.width as nat * self.height as nat <= 65535 * 65535) by (nonlinear_arith)
            requires
                self.width <= 65535,
                self.height <= 65535,
        ;
        self.width as usize * self.height as usize
    }
}

} // verus!
