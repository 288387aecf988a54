//! Dilation, erosion, opening and closing by a structuring element.

use crate::grid::lemma_offset;
use crate::image::{Image, ImageView};
use crate::kernel::{Kernel, KernelVal, KernelView};
use crate::pixel::{black, white, Pixel};
use vstd::prelude::*;

verus! {

impl ImageView {
    /// What cell `(i, j)` of `kernel` sees when the kernel's center lies on
    /// `(x, y)`: the pixel at the cell's offset from the center or, where
    /// that position is off the raster, the pixel at `(x, y)` itself.
    pub open spec fn sample(self, kernel: KernelView, x: int, y: int, i: int, j: int) -> Pixel {
        let nx = x + i - kernel.center();
        let ny = y + j - kernel.center();
        if self.contains(nx, ny) {
            self.at(nx, ny)
        } else {
            self.at(x, y)
        }
    }

    /// What the cell with row-major index `n` sees around `(x, y)`.
    pub open spec fn seen(self, kernel: KernelView, x: int, y: int, n: int) -> Pixel {
        self.sample(kernel, x, y, n % (kernel.dimension as int), n / (kernel.dimension as int))
    }

    /// The running maximum, seeded with black, of what the foreground cells
    /// among the first `n` cells of `kernel` see around `(x, y)`.
    pub open spec fn scan_max(self, kernel: KernelView, x: int, y: int, n: nat) -> Pixel
        decreases n,
    {
        if n == 0 {
            black()
        } else {
            let before = self.scan_max(kernel, x, y, (n - 1) as nat);
            if kernel.cells[n - 1] == KernelVal::One {
                before.join(self.seen(kernel, x, y, n - 1))
            } else {
                before
            }
        }
    }

    /// The running minimum, seeded with white, of what the foreground cells
    /// among the first `n` cells of `kernel` see around `(x, y)`.
    pub open spec fn scan_min(self, kernel: KernelView, x: int, y: int, n: nat) -> Pixel
        decreases n,
    {
        if n == 0 {
            white()
        } else {
            let before = self.scan_min(kernel, x, y, (n - 1) as nat);
            if kernel.cells[n - 1] == KernelVal::One {
                before.meet(self.seen(kernel, x, y, n - 1))
            } else {
                before
            }
        }
    }

    /// The dilated pixel at `(x, y)`.
    pub open spec fn dilate_at(self, kernel: KernelView, x: int, y: int) -> Pixel {
        self.scan_max(kernel, x, y, kernel.cells.len())
    }

    /// The eroded pixel at `(x, y)`.
    pub open spec fn erode_at(self, kernel: KernelView, x: int, y: int) -> Pixel {
        self.scan_min(kernel, x, y, kernel.cells.len())
    }

    /// The dilation of the raster by `kernel`.
    pub open spec fn dilate(self, kernel: KernelView) -> ImageView {
        ImageView::tabulate(self.width, self.height, |x: int, y: int| self.dilate_at(kernel, x, y))
    }

    /// The erosion of the raster by `kernel`.
    pub open spec fn erode(self, kernel: KernelView) -> ImageView {
        ImageView::tabulate(self.width, self.height, |x: int, y: int| self.erode_at(kernel, x, y))
    }

    /// Erosion, then dilation, both by the flat element of `kernel`'s size.
    pub open spec fn open(self, kernel: KernelView) -> ImageView {
        self.erode(KernelView::full(kernel.dimension)).dilate(KernelView::full(kernel.dimension))
    }

    /// Dilation, then erosion, both by the flat element of `kernel`'s size.
    pub open spec fn close(self, kernel: KernelView) -> ImageView {
        self.dilate(KernelView::full(kernel.dimension)).erode(KernelView::full(kernel.dimension))
    }
}

impl Image {
    /// The extremum around `(x, y)`: the erosion's minimum where `erode` is
    /// set, the dilation's maximum where it is not.
    pub fn get_min_or_max(&self, x: u32, y: u32, kernel: &Kernel, erode: bool) -> (r: Pixel)
        requires
            self@.contains(x as int, y as int),
        ensures
            r == if erode {
                self@.erode_at(kernel@, x as int, y as int)
            } else {
                self@.dilate_at(kernel@, x as int, y as int)
            },
    {
        let kernel_dim = kernel.get_dimension();
        let kernel_center: i64 = (kernel_dim as i64 - 1) / 2;
        let center = self.get_pixel(x, y);
        let width = self.get_width();
        let height = self.get_height();

        let mut min = white();
        let mut max = black();

        let mut j: u32 = 0;
        while j < kernel_dim
            invariant
                j <= kernel_dim,
                kernel@.wf(),
                kernel_dim == kernel@.dimension,
                kernel_center == kernel@.center(),
                self@.wf(),
                width == self@.width,
                height == self@.height,
                self@.contains(x as int, y as int),
                center == self@.at(x as int, y as int),
                min == self@.scan_min(kernel@, x as int, y as int, (j * kernel_dim) as nat),
                max == self@.scan_max(kernel@, x as int, y as int, (j * kernel_dim) as nat),
            decreases kernel_dim - j,
        {
            let mut i: u32 = 0;
            while i < kernel_dim
                invariant
                    i <= kernel_dim,
                    j < kernel_dim,
                    kernel@.wf(),
                    kernel_dim == kernel@.dimension,
                    kernel_center == kernel@.center(),
                    self@.wf(),
                    width == self@.width,
                    height == self@.height,
                    self@.contains(x as int, y as int),
                    center == self@.at(x as int, y as int),
                    min == self@.scan_min(kernel@, x as int, y as int, (j * kernel_dim + i) as nat),
                    max == self@.scan_max(kernel@, x as int, y as int, (j * kernel_dim + i) as nat),
                decreases kernel_dim - i,
            {
                proof {
                    lemma_offset(kernel_dim as int, kernel_dim as int, i as int, j as int);
                }
                if kernel.get(i, j) == KernelVal::One {
                    let image_x: i64 = x as i64 + i as i64 - kernel_center;
                    let image_y: i64 = y as i64 + j as i64 - kernel_center;
                    let pixel = if 0 <= image_x && image_x < width as i64 && 0 <= image_y && image_y
                        < height as i64 {
                        self.get_pixel(image_x as u32, image_y as u32)
                    } else {
                        center
                    };
                    min = min.min(pixel);
                    max = max.max(pixel);
                }
                i += 1;
            }
            proof {
                assert(j * kernel_dim + kernel_dim == (j + 1) * kernel_dim) by (nonlinear_arith);
            }
            j += 1;
        }

        if erode {
            min
        } else {
            max
        }
    }

    /// The erosion of the raster by `kernel` where `erode` is set, its
    /// dilation where it is not.
    pub fn dilate_or_erode(&self, kernel: Kernel, erode: bool) -> (r: Image)
        ensures
            r@ == if erode {
                self@.erode(kernel@)
            } else {
                self@.dilate(kernel@)
            },
            r@.wf(),
    {
        let width = self.get_width();
        let height = self.get_height();
        let ghost target = if erode {
            self@.erode(kernel@)
        } else {
            self@.dilate(kernel@)
        };
        let mut new_image = self.clone();
        let mut y: u32 = 0;
        while y < height
            invariant
                y <= height,
                self@.wf(),
                width == self@.width,
                height == self@.height,
                target == if erode {
                    self@.erode(kernel@)
                } else {
                    self@.dilate(kernel@)
                },
                new_image@.wf(),
                new_image@.width == width,
                new_image@.height == height,
                new_image@.agrees_before(target, 0, y as int),
            decreases height - y,
        {
            let mut x: u32 = 0;
            while x < width
                invariant
                    x <= width,
                    y < height,
                    self@.wf(),
                    width == self@.width,
                    height == self@.height,
                    target == if erode {
                        self@.erode(kernel@)
                    } else {
                        self@.dilate(kernel@)
                    },
                    new_image@.wf(),
                    new_image@.width == width,
                    new_image@.height == height,
                    new_image@.agrees_before(target, x as int, y as int),
                decreases width - x,
            {
                let pixel = self.get_min_or_max(x, y, &kernel, erode);
                proof {
                    self@.lemma_erode_at(kernel@, x as int, y as int);
                    self@.lemma_dilate_at(kernel@, x as int, y as int);
                    new_image@.lemma_agrees_step(target, x as int, y as int);
                }
                new_image.set_pixel(x, y, pixel);
                x += 1;
            }
            y += 1;
        }
        proof {
            new_image@.lemma_ext_equal(target);
        }
        new_image
    }

    /// The dilation of the raster by `kernel`: at every position the
    /// componentwise maximum, seeded with black, over the foreground cells.
    pub fn dilate(&self, kernel: Kernel) -> (r: Image)
        ensures
            r@ == self@.dilate(kernel@),
            r@.wf(),
    {
        self.dilate_or_erode(kernel, false)
    }

    /// The erosion of the raster by `kernel`: at every position the
    /// componentwise minimum, seeded with white, over the foreground cells.
    pub fn erode(&self, kernel: Kernel) -> (r: Image)
        ensures
            r@ == self@.erode(kernel@),
            r@.wf(),
    {
        self.dilate_or_erode(kernel, true)
    }

    /// Erosion followed by dilation. Only the size of `kernel` counts: both
    /// steps use the flat element of that size.
    pub fn open(&self, kernel: Kernel) -> (r: Image)
        ensures
            r@ == self@.open(kernel@),
            r@.wf(),
    {
        let mut okernel = Kernel::new();
        okernel.change_dimension(kernel.get_dimension()).unwrap();
        self.erode(okernel.clone()).dilate(okernel)
    }

    /// Dilation followed by erosion. Only the size of `kernel` counts: both
    /// steps use the flat element of that size.
    pub fn close(&self, kernel: Kernel) -> (r: Image)
        ensures
            r@ == self@.close(kernel@),
            r@.wf(),
    {
        let mut okernel = Kernel::new();
        okernel.change_dimension(kernel.get_dimension()).unwrap();
        self.dilate(okernel.clone()).erode(okernel)
    }
}

} // verus!
