//! Exact neighborhood matching, and the thinning and thickening built on it.

use crate::image::{Image, ImageView};
use crate::kernel::{Kernel, KernelVal, KernelView};
use crate::pixel::{black, white, Pixel};
use vstd::prelude::*;

verus! {

impl ImageView {
    /// Whether cell `(i, j)` of `kernel`, centered on `(x, y)`, is content
    /// with what it sees: white under a foreground cell, black under a
    /// background cell, anything under a cell that does not care.
    pub open spec fn cell_matches(self, kernel: KernelView, x: int, y: int, i: int, j: int) -> bool {
        match kernel.get(i, j) {
            KernelVal::One => self.sample(kernel, x, y, i, j) == white(),
            KernelVal::Zero => self.sample(kernel, x, y, i, j) == black(),
            KernelVal::DontCare => true,
        }
    }

    /// Whether the neighborhood of `(x, y)` matches `kernel` cell by cell.
    pub open spec fn matches_at(self, kernel: KernelView, x: int, y: int) -> bool {
        forall|i: int, j: int|
            kernel.contains(i, j) ==> #[trigger] self.cell_matches(kernel, x, y, i, j)
    }

    /// White where the neighborhood of `(x, y)` matches `kernel`, black
    /// where it does not.
    pub open spec fn hit_or_miss_at(self, kernel: KernelView, x: int, y: int) -> Pixel {
        if self.matches_at(kernel, x, y) {
            white()
        } else {
            black()
        }
    }

    /// The raster of matches: white at every position whose neighborhood
    /// matches `kernel`, black elsewhere.
    pub open spec fn hit_or_miss(self, kernel: KernelView) -> ImageView {
        ImageView::tabulate(
            self.width,
            self.height,
            |x: int, y: int| self.hit_or_miss_at(kernel, x, y),
        )
    }

    /// The pixel at `(x, y)` once every matching position is painted with
    /// `mark`: `mark` where the neighborhood matches, the pixel of the raster
    /// where it does not.
    pub open spec fn marked_at(self, kernel: KernelView, mark: Pixel, x: int, y: int) -> Pixel {
        if self.matches_at(kernel, x, y) {
            mark
        } else {
            self.at(x, y)
        }
    }

    /// The raster with every matching position painted with `mark`.
    pub open spec fn marked(self, kernel: KernelView, mark: Pixel) -> ImageView {
        ImageView::tabulate(
            self.width,
            self.height,
            |x: int, y: int| self.marked_at(kernel, mark, x, y),
        )
    }

    /// The raster with every matching position turned black.
    pub open spec fn thinning(self, kernel: KernelView) -> ImageView {
        self.marked(kernel, black())
    }

    /// The raster with every matching position turned white.
    pub open spec fn thickening(self, kernel: KernelView) -> ImageView {
        self.marked(kernel, white())
    }

    /// Whether the cells of `kernel` that come before `(i, j)` in row-major
    /// order are all content around `(x, y)`.
    pub open spec fn matches_before(self, kernel: KernelView, x: int, y: int, i: int, j: int) -> bool {
        forall|a: int, b: int|
            kernel.contains(a, b) && (b < j || (b == j && a < i)) ==> #[trigger] self.cell_matches(
                kernel,
                x,
                y,
                a,
                b,
            )
    }
}

impl Image {
    /// White where the neighborhood of `(x, y)` matches `kernel`; black
    /// where some cell is not content.
    pub fn match_kernel(&self, x: u32, y: u32, kernel: &Kernel) -> (r: Pixel)
        requires
            self@.contains(x as int, y as int),
        ensures
            r == self@.hit_or_miss_at(kernel@, x as int, y as int),
    {
        let kernel_dim = kernel.get_dimension();
        let kernel_center: i64 = (kernel_dim as i64 - 1) / 2;
        let center = self.get_pixel(x, y);
        let width = self.get_width();
        let height = self.get_height();

        let mut j: u32 = 0;
        while j < kernel_dim
            invariant
                j <= kernel_dim,
                kernel@.wf(),
                kernel_dim == kernel@.dimension,
                kernel_center == kernel@.center(),
                self@.wf(),
                width == self@.width,
                height == self@.height,
                self@.contains(x as int, y as int),
                center == self@.at(x as int, y as int),
                self@.matches_before(kernel@, x as int, y as int, 0, j as int),
            decreases kernel_dim - j,
        {
            let mut i: u32 = 0;
            while i < kernel_dim
                invariant
                    i <= kernel_dim,
                    j < kernel_dim,
                    kernel@.wf(),
                    kernel_dim == kernel@.dimension,
                    kernel_center == kernel@.center(),
                    self@.wf(),
                    width == self@.width,
                    height == self@.height,
                    self@.contains(x as int, y as int),
                    center == self@.at(x as int, y as int),
                    self@.matches_before(kernel@, x as int, y as int, i as int, j as int),
                decreases kernel_dim - i,
            {
                let image_x: i64 = x as i64 + i as i64 - kernel_center;
                let image_y: i64 = y as i64 + j as i64 - kernel_center;
                let pixel = if 0 <= image_x && image_x < width as i64 && 0 <= image_y && image_y
                    < height as i64 {
                    self.get_pixel(image_x as u32, image_y as u32)
                } else {
                    center
                };
                let wanted = kernel.get(i, j);
                if wanted == KernelVal::Zero {
                    if pixel != black() {
                        assert(!self@.cell_matches(kernel@, x as int, y as int, i as int, j as int));
                        return black();
                    }
                } else if wanted == KernelVal::One {
                    if pixel != white() {
                        assert(!self@.cell_matches(kernel@, x as int, y as int, i as int, j as int));
                        return black();
                    }
                }
                i += 1;
            }
            j += 1;
        }
        white()
    }

    /// The raster of matches: white at every position whose neighborhood
    /// matches `kernel` exactly, black elsewhere.
    pub fn hit_or_miss(&self, kernel: Kernel) -> (r: Image)
        ensures
            r@ == self@.hit_or_miss(kernel@),
            r@.wf(),
    {
        let width = self.get_width();
        let height = self.get_height();
        let ghost target = self@.hit_or_miss(kernel@);
        let mut result = self.clone();
        let mut y: u32 = 0;
        while y < height
            invariant
                y <= height,
                self@.wf(),
                width == self@.width,
                height == self@.height,
                target == self@.hit_or_miss(kernel@),
                result@.wf(),
                result@.width == width,
                result@.height == height,
                result@.agrees_before(target, 0, y as int),
            decreases height - y,
        {
            let mut x: u32 = 0;
            while x < width
                invariant
                    x <= width,
                    y < height,
                    self@.wf(),
                    width == self@.width,
                    height == self@.height,
                    target == self@.hit_or_miss(kernel@),
                    result@.wf(),
                    result@.width == width,
                    result@.height == height,
                    result@.agrees_before(target, x as int, y as int),
                decreases width - x,
            {
                let pixel = self.match_kernel(x, y, &kernel);
                proof {
                    ImageView::lemma_tabulate_at(
                        self@.width,
                        self@.height,
                        |x: int, y: int| self@.hit_or_miss_at(kernel@, x, y),
                        x as int,
                        y as int,
                    );
                    result@.lemma_agrees_step(target, x as int, y as int);
                }
                result.set_pixel(x, y, pixel);
                x += 1;
            }
            y += 1;
        }
        proof {
            result@.lemma_ext_equal(target);
        }
        result
    }

    /// The raster with every position whose neighborhood matches `kernel`
    /// painted with `mark`, and every other pixel kept.
    fn mark_matches(&self, kernel: &Kernel, mark: Pixel) -> (r: Image)
        ensures
            r@ == self@.marked(kernel@, mark),
            r@.wf(),
    {
        let width = self.get_width();
        let height = self.get_height();
        let ghost target = self@.marked(kernel@, mark);
        let mut result = self.clone();
        let mut y: u32 = 0;
        while y < height
            invariant
                y <= height,
                self@.wf(),
                width == self@.width,
                height == self@.height,
                target == self@.marked(kernel@, mark),
                result@.wf(),
                result@.width == width,
                result@.height == height,
                result@.agrees_before(target, 0, y as int),
                forall|i: int, j: int|
                    self@.contains(i, j) && j >= y ==> #[trigger] result@.at(i, j) == self@.at(i, j),
            decreases height - y,
        {
            let mut x: u32 = 0;
            while x < width
                invariant
                    x <= width,
                    y < height,
                    self@.wf(),
                    width == self@.width,
                    height == self@.height,
                    target == self@.marked(kernel@, mark),
                    result@.wf(),
                    result@.width == width,
                    result@.height == height,
                    result@.agrees_before(target, x as int, y as int),
                    forall|i: int, j: int|
                        self@.contains(i, j) && (j > y || (j == y && i >= x)) ==> #[trigger] result@.at(
                            i,
                            j,
                        ) == self@.at(i, j),
                decreases width - x,
            {
                let matches = self.match_kernel(x, y, kernel);
                proof {
                    ImageView::lemma_tabulate_at(
                        self@.width,
                        self@.height,
                        |x: int, y: int| self@.marked_at(kernel@, mark, x, y),
                        x as int,
                        y as int,
                    );
                    result@.lemma_agrees_step(target, x as int, y as int);
                    result@.lemma_keeps_after(self@, target.at(x as int, y as int), x as int, y as int);
                }
                if matches == white() {
                    result.set_pixel(x, y, mark);
                } else {
                    proof {
                        result@.lemma_set_same(x as int, y as int);
                    }
                }
                x += 1;
            }
            y += 1;
        }
        proof {
            result@.lemma_ext_equal(target);
        }
        result
    }

    /// The raster with every position whose neighborhood matches `kernel`
    /// turned black, and every other pixel kept.
    pub fn thinning(&self, kernel: Kernel) -> (r: Image)
        ensures
            r@ == self@.thinning(kernel@),
            r@.wf(),
    {
        self.mark_matches(&kernel, black())
    }

    /// The raster with every position whose neighborhood matches `kernel`
    /// turned white, and every other pixel kept.
    pub fn thickening(&self, kernel: Kernel) -> (r: Image)
        ensures
            r@ == self@.thickening(kernel@),
            r@.wf(),
    {
        self.mark_matches(&kernel, white())
    }
}

} // verus!
