//! Thresholding a raster to pure black and white.
//!
//! The luma of a pixel is a weighted sum of its red, green and blue bytes
//! with weights of four decimal places. It is compared with the threshold
//! in integers, both sides scaled by ten thousand, so nothing is rounded: a
//! luma that equals the threshold is not below it.

use crate::image::{Image, ImageView};
use crate::pixel::{black, white, Pixel};
use vstd::prelude::*;

verus! {

/// Ten thousand times the luma of `pixel`: the red, green and blue bytes
/// weighted by 0.2126, 0.7152 and 0.0722.
pub open spec fn luma(pixel: Pixel) -> int {
    2126 * pixel.0 + 7152 * pixel.1 + 722 * pixel.2
}

/// Black where the luma of `pixel` is below `threshold`, white elsewhere.
/// The comparison is exact: both sides are scaled by ten thousand.
pub open spec fn binarize_pixel(pixel: Pixel, threshold: u8) -> Pixel {
    if luma(pixel) < 10000 * threshold {
        black()
    } else {
        white()
    }
}

impl ImageView {
    /// Every pixel replaced by its black or white value.
    pub open spec fn binarize(self, threshold: u8) -> ImageView {
        ImageView {
            width: self.width,
            height: self.height,
            pixels: self.pixels.map_values(|pixel: Pixel| binarize_pixel(pixel, threshold)),
        }
    }

    /// Whether every pixel is opaque black or opaque white.
    pub open spec fn binary(self) -> bool {
        forall|i: int|
            0 <= i < self.pixels.len() ==> #[trigger] self.pixels[i] == black() || self.pixels[i]
                == white()
    }
}

/// The black or white value of one pixel.
pub fn threshold_pixel(pixel: Pixel, threshold: u8) -> (r: Pixel)
    ensures
        r == binarize_pixel(pixel, threshold),
{
    let weighted: u32 = 2126 * (pixel.0 as u32) + 7152 * (pixel.1 as u32) + 722 * (pixel.2 as u32);
    if weighted < 10000 * (threshold as u32) {
        black()
    } else {
        white()
    }
}

impl Image {
    /// A raster of the same size in which every pixel whose luma is below
    /// `threshold` is black and every other pixel is white.
    pub fn binarize(&self, threshold: u8) -> (r: Image)
        ensures
            r@ == self@.binarize(threshold),
            r@.wf(),
    {
        let width = self.get_width();
        let height = self.get_height();
        let ghost target = self@.binarize(threshold);
        let mut result = self.clone();
        let mut y: u32 = 0;
        while y < height
            invariant
                y <= height,
                self@.wf(),
                width == self@.width,
                height == self@.height,
                target == self@.binarize(threshold),
                result@.wf(),
                result@.width == width,
                result@.height == height,
                result@.agrees_before(target, 0, y as int),
            decreases height - y,
        {
            let mut x: u32 = 0;
            while x < width
                invariant
                    x <= width,
                    y < height,
                    self@.wf(),
                    width == self@.width,
                    height == self@.height,
                    target == self@.binarize(threshold),
                    result@.wf(),
                    result@.width == width,
                    result@.height == height,
                    result@.agrees_before(target, x as int, y as int),
                decreases width - x,
            {
                let value = threshold_pixel(self.get_pixel(x, y), threshold);
                proof {
                    crate::grid::lemma_offset(width as int, height as int, x as int, y as int);
                    assert(target.at(x as int, y as int) == value);
                    result@.lemma_agrees_step(target, x as int, y as int);
                }
                result.set_pixel(x, y, value);
                x += 1;
            }
            y += 1;
        }
        proof {
            result@.lemma_ext_equal(target);
        }
        result
    }
}

} // verus!
