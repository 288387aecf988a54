//! Owned RGBA8 rasters and their mathematical content.
//!
//! A raster is read and written by column and row. Whether a position lies
//! on the raster is settled before the program runs: `get_pixel` and
//! `set_pixel` demand it as a precondition. Code that is not verified has
//! to compare against `get_width` and `get_height` itself.

use crate::grid::{lemma_offset, lemma_position};
use crate::pixel::Pixel;
use vstd::prelude::*;

verus! {

/// The mathematical content of a raster: its size and its pixels in
/// row-major order, the top-left pixel first.
pub struct ImageView {
    pub width: nat,
    pub height: nat,
    pub pixels: Seq<Pixel>,
}

impl ImageView {
    /// There is one pixel per position.
    pub open spec fn wf(self) -> bool {
        self.pixels.len() == self.width * self.height
    }

    /// Whether `(x, y)` lies on the raster.
    pub open spec fn contains(self, x: int, y: int) -> bool {
        0 <= x < self.width && 0 <= y < self.height
    }

    /// The pixel in column `x` of row `y`.
    pub open spec fn at(self, x: int, y: int) -> Pixel {
        self.pixels[y * self.width + x]
    }

    /// The same raster with the pixel in column `x` of row `y` replaced.
    pub open spec fn set(self, x: int, y: int, pixel: Pixel) -> ImageView {
        ImageView {
            width: self.width,
            height: self.height,
            pixels: self.pixels.update(y * self.width + x, pixel),
        }
    }

    /// The raster of the given size whose pixel at `(x, y)` is `f(x, y)`.
    pub open spec fn tabulate(width: nat, height: nat, f: spec_fn(int, int) -> Pixel) -> ImageView {
        ImageView {
            width,
            height,
            pixels: Seq::new(
                width * height,
                |i: int| f(i % (width as int), i / (width as int)),
            ),
        }
    }

    /// The raster of the given size that shows `pixel` everywhere.
    pub open spec fn filled(width: nat, height: nat, pixel: Pixel) -> ImageView {
        Self::tabulate(width, height, |x: int, y: int| pixel)
    }

    /// The raster that an RGBA8 buffer of the given size holds: four bytes
    /// per pixel, in the order red, green, blue, alpha.
    pub open spec fn from_bytes(bytes: Seq<u8>, width: nat, height: nat) -> ImageView {
        ImageView {
            width,
            height,
            pixels: Seq::new(
                width * height,
                |i: int| Pixel(bytes[4 * i], bytes[4 * i + 1], bytes[4 * i + 2], bytes[4 * i + 3]),
            ),
        }
    }

    /// The RGBA8 buffer that holds this raster.
    pub open spec fn bytes(self) -> Seq<u8> {
        Seq::new(4 * self.pixels.len(), |i: int| self.pixels[i / 4].channel(i % 4))
    }

    /// Whether `self` shows the pixels of `target` at every position that
    /// comes before `(x, y)` in row-major order.
    pub open spec fn agrees_before(self, target: ImageView, x: int, y: int) -> bool {
        forall|i: int, j: int|
            self.contains(i, j) && (j < y || (j == y && i < x)) ==> #[trigger] self.at(i, j)
                == target.at(i, j)
    }

    /// Whether every pixel has full alpha.
    pub open spec fn opaque(self) -> bool {
        forall|i: int| 0 <= i < self.pixels.len() ==> (#[trigger] self.pixels[i]).3 == 255
    }
}

impl ImageView {
    /// Reading a tabulated raster gives back the tabulated function.
    pub proof fn lemma_tabulate_at(width: nat, height: nat, f: spec_fn(int, int) -> Pixel, x: int, y: int)
        requires
            0 <= x < width,
            0 <= y < height,
        ensures
            Self::tabulate(width, height, f).at(x, y) == f(x, y),
            Self::tabulate(width, height, f).wf(),
    {
        lemma_offset(width as int, height as int, x, y);
    }

    /// Replacing one pixel changes that position and no other.
    pub proof fn lemma_set_at(self, x: int, y: int, pixel: Pixel, i: int, j: int)
        requires
            self.wf(),
            self.contains(x, y),
            self.contains(i, j),
        ensures
            self.set(x, y, pixel).at(i, j) == if i == x && j == y {
                pixel
            } else {
                self.at(i, j)
            },
            self.set(x, y, pixel).wf(),
    {
        lemma_offset(self.width as int, self.height as int, x, y);
        lemma_offset(self.width as int, self.height as int, i, j);
    }

    /// Writing the pixel of `target` at `(x, y)` extends the agreement with
    /// `target` by that position.
    pub proof fn lemma_agrees_step(self, target: ImageView, x: int, y: int)
        requires
            self.wf(),
            self.contains(x, y),
            self.agrees_before(target, x, y),
        ensures
            self.set(x, y, target.at(x, y)).agrees_before(target, x + 1, y),
            self.set(x, y, target.at(x, y)).wf(),
    {
        let next = self.set(x, y, target.at(x, y));
        assert forall|i: int, j: int|
            next.contains(i, j) && (j < y || (j == y && i < x + 1)) implies #[trigger] next.at(i, j)
            == target.at(i, j) by {
            self.lemma_set_at(x, y, target.at(x, y), i, j);
        }
        self.lemma_set_at(x, y, target.at(x, y), x, y);
    }

    /// Writing at `(x, y)` leaves alone whatever comes after that position
    /// in row-major order.
    pub proof fn lemma_keeps_after(self, source: ImageView, pixel: Pixel, x: int, y: int)
        requires
            self.wf(),
            self.contains(x, y),
            source.width == self.width,
            source.height == self.height,
            forall|i: int, j: int|
                self.contains(i, j) && (j > y || (j == y && i >= x)) ==> #[trigger] self.at(i, j)
                    == source.at(i, j),
        ensures
            forall|i: int, j: int|
                self.contains(i, j) && (j > y || (j == y && i >= x + 1)) ==> #[trigger] self.set(
                    x,
                    y,
                    pixel,
                ).at(i, j) == source.at(i, j),
    {
        let next = self.set(x, y, pixel);
        assert forall|i: int, j: int|
            self.contains(i, j) && (j > y || (j == y && i >= x + 1)) implies #[trigger] next.at(i, j)
            == source.at(i, j) by {
            self.lemma_set_at(x, y, pixel, i, j);
        }
    }

    /// Writing the pixel that is already there changes nothing.
    pub proof fn lemma_set_same(self, x: int, y: int)
        requires
            self.wf(),
            self.contains(x, y),
        ensures
            self.set(x, y, self.at(x, y)) == self,
    {
        lemma_offset(self.width as int, self.height as int, x, y);
        assert(self.set(x, y, self.at(x, y)).pixels =~= self.pixels);
    }

    /// Two rasters of one size that agree at every position are equal.
    pub proof fn lemma_ext_equal(self, other: ImageView)
        requires
            self.wf(),
            other.wf(),
            self.width == other.width,
            self.height == other.height,
            forall|x: int, y: int| self.contains(x, y) ==> self.at(x, y) == other.at(x, y),
        ensures
            self == other,
    {
        assert forall|i: int| 0 <= i < self.pixels.len() implies self.pixels[i] == other.pixels[i] by {
            lemma_position(self.width as int, self.height as int, i);
            let x = i % (self.width as int);
            let y = i / (self.width as int);
            assert(self.at(x, y) == other.at(x, y));
        }
        assert(self.pixels =~= other.pixels);
    }
}

/// An owned RGBA8 raster.
pub struct Image {
    data: Vec<u8>,
    width: u32,
    height: u32,
}

impl View for Image {
    type V = ImageView;

    closed spec fn view(&self) -> ImageView {
        ImageView::from_bytes(self.data@, self.width as nat, self.height as nat)
    }
}

impl Image {
    /// The buffer holds four bytes for every position.
    #[verifier::type_invariant]
    pub closed spec fn inv(self) -> bool {
        self.data@.len() == 4 * (self.width * self.height)
    }

    /// Wraps an RGBA8 buffer of the given size; `None` where the buffer's
    /// length is not `width * height * 4`.
    pub fn from_rgba8(data: Vec<u8>, width: u32, height: u32) -> (r: Option<Image>)
        ensures
            r.is_some() <==> data@.len() == 4 * (width * height),
            r matches Some(image) ==> image@ == ImageView::from_bytes(data@, width as nat, height as nat)
                && image@.wf(),
    {
        assert(width * height <= 0xffff_ffff * 0xffff_ffff) by (nonlinear_arith)
            requires
                width <= 0xffff_ffff,
                height <= 0xffff_ffff,
        ;
        let expected: u128 = 4 * (width as u128 * height as u128);
        if data.len() as u128 == expected {
            Some(Image { data, width, height })
        } else {
            None
        }
    }

    /// The RGBA8 buffer.
    pub fn get_bitmap_data(&self) -> (data: &Vec<u8>)
        ensures
            data@ == self@.bytes(),
            self@.wf(),
    {
        proof {
            use_type_invariant(self);
            assert(self.data@ =~= self@.bytes());
        }
        &self.data
    }

    /// The number of columns.
    pub fn get_width(&self) -> (width: u32)
        ensures
            width == self@.width,
            self@.wf(),
    {
        self.width
    }

    /// The number of rows.
    pub fn get_height(&self) -> (height: u32)
        ensures
            height == self@.height,
            self@.wf(),
    {
        self.height
    }

    /// The pixel in column `x` of row `y`.
    pub fn get_pixel(&self, x: u32, y: u32) -> (pixel: Pixel)
        requires
            self@.contains(x as int, y as int),
        ensures
            pixel == self@.at(x as int, y as int),
    {
        proof {
            use_type_invariant(self);
            lemma_offset(self.width as int, self.height as int, x as int, y as int);
            assert(self.data.len() == 4 * (self.width * self.height));
        }
        let index: usize = (y as usize * self.width as usize + x as usize) * 4;
        Pixel(self.data[index], self.data[index + 1], self.data[index + 2], self.data[index + 3])
    }

    /// Replaces the pixel in column `x` of row `y`.
    pub fn set_pixel(&mut self, x: u32, y: u32, pixel: Pixel)
        requires
            old(self)@.contains(x as int, y as int),
        ensures
            final(self)@ == old(self)@.set(x as int, y as int, pixel),
            final(self)@.wf(),
    {
        proof {
            use_type_invariant(&*self);
            lemma_offset(self.width as int, self.height as int, x as int, y as int);
            assert(self.data.len() == 4 * (self.width * self.height));
        }
        let index: usize = (y as usize * self.width as usize + x as usize) * 4;
        self.data[index] = pixel.0;
        self.data[index + 1] = pixel.1;
        self.data[index + 2] = pixel.2;
        self.data[index + 3] = pixel.3;
        proof {
            assert(self@.pixels =~= old(self)@.set(x as int, y as int, pixel).pixels);
        }
    }
}

impl Clone for Image {
    fn clone(&self) -> (image: Image)
        ensures
            image@ == self@,
    {
        proof {
            use_type_invariant(self);
        }
        let image = Image { data: self.data.clone(), width: self.width, height: self.height };
        proof {
            assert(image.data@ =~= self.data@);
        }
        image
    }
}

} // verus!
