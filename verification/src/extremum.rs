//! What dilation and erosion compute at one position, channel by channel:
//! the dilated pixel is the least value that bounds the seed and what every
//! foreground cell sees from above, the eroded pixel the greatest that
//! bounds them from below. For flat elements this is restated over the
//! positions of the window itself.

use crate::grid::{lemma_offset, lemma_position};
use crate::image::ImageView;
use crate::kernel::{KernelVal, KernelView};
use crate::pixel::{black, white};
use vstd::prelude::*;

verus! {

impl ImageView {
    /// The running maximum is no smaller than its seed and than any sample
    /// of a foreground cell among the first `n`.
    proof fn lemma_scan_max_upper(self, kernel: KernelView, x: int, y: int, n: nat, c: int)
        requires
            0 <= c < 4,
        ensures
            black().channel(c) <= self.scan_max(kernel, x, y, n).channel(c),
            forall|i: int|
                0 <= i < n && kernel.cells[i] == KernelVal::One ==> (#[trigger] self.seen(
                    kernel,
                    x,
                    y,
                    i,
                )).channel(c) <= self.scan_max(kernel, x, y, n).channel(c),
        decreases n,
    {
        if n > 0 {
            self.lemma_scan_max_upper(kernel, x, y, (n - 1) as nat, c);
        }
    }

    /// The running maximum is its seed or the sample of a foreground cell
    /// among the first `n`.
    proof fn lemma_scan_max_attained(self, kernel: KernelView, x: int, y: int, n: nat, c: int)
        requires
            0 <= c < 4,
        ensures
            self.scan_max(kernel, x, y, n).channel(c) == black().channel(c) || exists|i: int|
                0 <= i < n && kernel.cells[i] == KernelVal::One && (#[trigger] self.seen(
                    kernel,
                    x,
                    y,
                    i,
                )).channel(c) == self.scan_max(kernel, x, y, n).channel(c),
        decreases n,
    {
        if n > 0 {
            self.lemma_scan_max_attained(kernel, x, y, (n - 1) as nat, c);
            let before = self.scan_max(kernel, x, y, (n - 1) as nat).channel(c);
            let now = self.scan_max(kernel, x, y, n).channel(c);
            if kernel.cells[n - 1] == KernelVal::One && now == self.seen(kernel, x, y, n - 1).channel(
                c,
            ) {
            } else if before != black().channel(c) {
                let i = choose|i: int|
                    0 <= i < n - 1 && kernel.cells[i] == KernelVal::One && (#[trigger] self.seen(
                        kernel,
                        x,
                        y,
                        i,
                    )).channel(c) == before;
                assert(self.seen(kernel, x, y, i).channel(c) == now);
            }
        }
    }

    /// The running minimum is no larger than any sample of a foreground cell
    /// among the first `n`.
    proof fn lemma_scan_min_lower(self, kernel: KernelView, x: int, y: int, n: nat, c: int)
        requires
            0 <= c < 4,
        ensures
            forall|i: int|
                0 <= i < n && kernel.cells[i] == KernelVal::One ==> self.scan_min(
                    kernel,
                    x,
                    y,
                    n,
                ).channel(c) <= (#[trigger] self.seen(kernel, x, y, i)).channel(c),
        decreases n,
    {
        if n > 0 {
            self.lemma_scan_min_lower(kernel, x, y, (n - 1) as nat, c);
        }
    }

    /// The running minimum is its seed or the sample of a foreground cell
    /// among the first `n`.
    proof fn lemma_scan_min_attained(self, kernel: KernelView, x: int, y: int, n: nat, c: int)
        requires
            0 <= c < 4,
        ensures
            self.scan_min(kernel, x, y, n).channel(c) == white().channel(c) || exists|i: int|
                0 <= i < n && kernel.cells[i] == KernelVal::One && (#[trigger] self.seen(
                    kernel,
                    x,
                    y,
                    i,
                )).channel(c) == self.scan_min(kernel, x, y, n).channel(c),
        decreases n,
    {
        if n > 0 {
            self.lemma_scan_min_attained(kernel, x, y, (n - 1) as nat, c);
            let before = self.scan_min(kernel, x, y, (n - 1) as nat).channel(c);
            let now = self.scan_min(kernel, x, y, n).channel(c);
            if kernel.cells[n - 1] == KernelVal::One && now == self.seen(kernel, x, y, n - 1).channel(
                c,
            ) {
            } else if before != white().channel(c) {
                let i = choose|i: int|
                    0 <= i < n - 1 && kernel.cells[i] == KernelVal::One && (#[trigger] self.seen(
                        kernel,
                        x,
                        y,
                        i,
                    )).channel(c) == before;
                assert(self.seen(kernel, x, y, i).channel(c) == now);
            }
        }
    }

    /// The dilated pixel bounds from above what every foreground cell sees.
    pub proof fn lemma_dilate_at_upper(
        self,
        kernel: KernelView,
        x: int,
        y: int,
        i: int,
        j: int,
        c: int,
    )
        requires
            kernel.wf(),
            kernel.contains(i, j),
            kernel.get(i, j) == KernelVal::One,
            0 <= c < 4,
        ensures
            self.sample(kernel, x, y, i, j).channel(c) <= self.dilate_at(kernel, x, y).channel(c),
    {
        let side = kernel.dimension as int;
        lemma_offset(side, side, i, j);
        self.lemma_scan_max_upper(kernel, x, y, kernel.cells.len(), c);
        assert(self.seen(kernel, x, y, j * side + i) == self.sample(kernel, x, y, i, j));
    }

    /// Each channel of the dilated pixel is that of what some foreground
    /// cell sees or, where `None` comes back, that of the black seed.
    pub proof fn lemma_dilate_at_attained(self, kernel: KernelView, x: int, y: int, c: int) -> (cell:
        Option<(int, int)>)
        requires
            kernel.wf(),
            0 <= c < 4,
        ensures
            match cell {
                Some((i, j)) => kernel.contains(i, j) && kernel.get(i, j) == KernelVal::One
                    && self.sample(kernel, x, y, i, j).channel(c) == self.dilate_at(
                    kernel,
                    x,
                    y,
                ).channel(c),
                None => self.dilate_at(kernel, x, y).channel(c) == black().channel(c),
            },
    {
        let side = kernel.dimension as int;
        let top = self.dilate_at(kernel, x, y).channel(c);
        self.lemma_scan_max_attained(kernel, x, y, kernel.cells.len(), c);
        if top == black().channel(c) {
            None
        } else {
            let n = choose|n: int|
                0 <= n < kernel.cells.len() && kernel.cells[n] == KernelVal::One && (
                #[trigger] self.seen(kernel, x, y, n)).channel(c) == top;
            lemma_position(side, side, n);
            Some((n % side, n / side))
        }
    }

    /// The eroded pixel bounds from below what every foreground cell sees.
    pub proof fn lemma_erode_at_lower(
        self,
        kernel: KernelView,
        x: int,
        y: int,
        i: int,
        j: int,
        c: int,
    )
        requires
            kernel.wf(),
            kernel.contains(i, j),
            kernel.get(i, j) == KernelVal::One,
            0 <= c < 4,
        ensures
            self.erode_at(kernel, x, y).channel(c) <= self.sample(kernel, x, y, i, j).channel(c),
    {
        let side = kernel.dimension as int;
        lemma_offset(side, side, i, j);
        self.lemma_scan_min_lower(kernel, x, y, kernel.cells.len(), c);
        assert(self.seen(kernel, x, y, j * side + i) == self.sample(kernel, x, y, i, j));
    }

    /// Each channel of the eroded pixel is that of what some foreground
    /// cell sees or, where `None` comes back, that of the white seed.
    pub proof fn lemma_erode_at_attained(self, kernel: KernelView, x: int, y: int, c: int) -> (cell:
        Option<(int, int)>)
        requires
            kernel.wf(),
            0 <= c < 4,
        ensures
            match cell {
                Some((i, j)) => kernel.contains(i, j) && kernel.get(i, j) == KernelVal::One
                    && self.sample(kernel, x, y, i, j).channel(c) == self.erode_at(
                    kernel,
                    x,
                    y,
                ).channel(c),
                None => self.erode_at(kernel, x, y).channel(c) == white().channel(c),
            },
    {
        let side = kernel.dimension as int;
        let bottom = self.erode_at(kernel, x, y).channel(c);
        self.lemma_scan_min_attained(kernel, x, y, kernel.cells.len(), c);
        if bottom == white().channel(c) {
            None
        } else {
            let n = choose|n: int|
                0 <= n < kernel.cells.len() && kernel.cells[n] == KernelVal::One && (
                #[trigger] self.seen(kernel, x, y, n)).channel(c) == bottom;
            lemma_position(side, side, n);
            Some((n % side, n / side))
        }
    }

    /// Dilation always yields full alpha: its seed has it.
    pub proof fn lemma_dilate_at_alpha(self, kernel: KernelView, x: int, y: int)
        ensures
            self.dilate_at(kernel, x, y).3 == 255,
    {
        self.lemma_scan_max_upper(kernel, x, y, kernel.cells.len(), 3);
    }

    /// Whether `(a, b)` lies on the raster and at most `reach` columns and
    /// `reach` rows away from `(x, y)`.
    pub open spec fn near(self, reach: int, x: int, y: int, a: int, b: int) -> bool {
        &&& self.contains(a, b)
        &&& x - reach <= a <= x + reach
        &&& y - reach <= b <= y + reach
    }

    /// From `(x, y)`, a cell of a flat element sees a pixel near `(x, y)`.
    proof fn lemma_flat_sample(self, side: nat, x: int, y: int, i: int, j: int) -> (w: (int, int))
        requires
            side % 2 == 1,
            self.contains(x, y),
            KernelView::full(side).contains(i, j),
        ensures
            self.near(KernelView::full(side).center(), x, y, w.0, w.1),
            self.sample(KernelView::full(side), x, y, i, j) == self.at(w.0, w.1),
    {
        let flat = KernelView::full(side);
        let nx = x + i - flat.center();
        let ny = y + j - flat.center();
        if self.contains(nx, ny) {
            (nx, ny)
        } else {
            (x, y)
        }
    }

    /// Every pixel near `(x, y)` is seen from there by a cell of a flat
    /// element, and all cells of a flat element are foreground.
    proof fn lemma_flat_cell(self, side: nat, x: int, y: int, a: int, b: int) -> (cell: (int, int))
        requires
            side % 2 == 1,
            self.near(KernelView::full(side).center(), x, y, a, b),
        ensures
            KernelView::full(side).wf(),
            KernelView::full(side).contains(cell.0, cell.1),
            KernelView::full(side).get(cell.0, cell.1) == KernelVal::One,
            self.sample(KernelView::full(side), x, y, cell.0, cell.1) == self.at(a, b),
    {
        let flat = KernelView::full(side);
        let i = a - x + flat.center();
        let j = b - y + flat.center();
        lemma_offset(side as int, side as int, i, j);
        (i, j)
    }

    /// Dilation by a flat element bounds every pixel of the window from
    /// above.
    pub proof fn lemma_flat_dilate_upper(self, side: nat, x: int, y: int, a: int, b: int, c: int)
        requires
            side % 2 == 1,
            self.near(KernelView::full(side).center(), x, y, a, b),
            0 <= c < 4,
        ensures
            self.at(a, b).channel(c) <= self.dilate_at(KernelView::full(side), x, y).channel(c),
    {
        let (i, j) = self.lemma_flat_cell(side, x, y, a, b);
        self.lemma_dilate_at_upper(KernelView::full(side), x, y, i, j, c);
    }

    /// Dilation by a flat element takes each color channel from some pixel
    /// of the window.
    pub proof fn lemma_flat_dilate_attained(self, side: nat, x: int, y: int, c: int) -> (w: (
        int,
        int,
    ))
        requires
            side % 2 == 1,
            self.contains(x, y),
            0 <= c < 3,
        ensures
            self.near(KernelView::full(side).center(), x, y, w.0, w.1),
            self.at(w.0, w.1).channel(c) == self.dilate_at(KernelView::full(side), x, y).channel(c),
    {
        let flat = KernelView::full(side);
        match self.lemma_dilate_at_attained(flat, x, y, c) {
            Some((i, j)) => self.lemma_flat_sample(side, x, y, i, j),
            None => {
                self.lemma_flat_dilate_upper(side, x, y, x, y, c);
                (x, y)
            },
        }
    }

    /// Erosion by a flat element bounds every pixel of the window from
    /// below.
    pub proof fn lemma_flat_erode_lower(self, side: nat, x: int, y: int, a: int, b: int, c: int)
        requires
            side % 2 == 1,
            self.near(KernelView::full(side).center(), x, y, a, b),
            0 <= c < 4,
        ensures
            self.erode_at(KernelView::full(side), x, y).channel(c) <= self.at(a, b).channel(c),
    {
        let (i, j) = self.lemma_flat_cell(side, x, y, a, b);
        self.lemma_erode_at_lower(KernelView::full(side), x, y, i, j, c);
    }

    /// Erosion by a flat element takes each channel from some pixel of the
    /// window.
    pub proof fn lemma_flat_erode_attained(self, side: nat, x: int, y: int, c: int) -> (w: (
        int,
        int,
    ))
        requires
            side % 2 == 1,
            self.contains(x, y),
            0 <= c < 4,
        ensures
            self.near(KernelView::full(side).center(), x, y, w.0, w.1),
            self.at(w.0, w.1).channel(c) == self.erode_at(KernelView::full(side), x, y).channel(c),
    {
        let flat = KernelView::full(side);
        match self.lemma_erode_at_attained(flat, x, y, c) {
            Some((i, j)) => self.lemma_flat_sample(side, x, y, i, j),
            None => {
                self.lemma_flat_erode_lower(side, x, y, x, y, c);
                (x, y)
            },
        }
    }

    /// Reading a dilated raster gives the dilated pixel.
    pub proof fn lemma_dilate_at(self, kernel: KernelView, x: int, y: int)
        requires
            self.contains(x, y),
        ensures
            self.dilate(kernel).at(x, y) == self.dilate_at(kernel, x, y),
    {
        ImageView::lemma_tabulate_at(
            self.width,
            self.height,
            |x: int, y: int| self.dilate_at(kernel, x, y),
            x,
            y,
        );
    }

    /// Reading an eroded raster gives the eroded pixel.
    pub proof fn lemma_erode_at(self, kernel: KernelView, x: int, y: int)
        requires
            self.contains(x, y),
        ensures
            self.erode(kernel).at(x, y) == self.erode_at(kernel, x, y),
    {
        ImageView::lemma_tabulate_at(
            self.width,
            self.height,
            |x: int, y: int| self.erode_at(kernel, x, y),
            x,
            y,
        );
    }
}

} // verus!
