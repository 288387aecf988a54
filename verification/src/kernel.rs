//! Structuring elements: odd-sized square masks of ternary cells.
//!
//! Cells are read and written by column and row. Whether a position names a
//! cell is settled before the program runs: `get` and `set` demand it as a
//! precondition. Code that is not verified has to compare against
//! `get_dimension` itself.

use crate::grid::lemma_offset;
use vstd::prelude::*;

verus! {

/// What a structuring element asks of the pixel under one of its cells.
#[derive(Clone, Copy, Debug, PartialEq, Eq, Structural)]
pub enum KernelVal {
    /// Foreground: the cell takes part in dilation and erosion, and a
    /// hit-or-miss match wants white under it.
    One,
    /// Background: a hit-or-miss match wants black under it.
    Zero,
    /// The cell is ignored by every operation.
    DontCare,
}

/// Why a structuring element refused a change.
#[derive(Clone, Copy, Debug, PartialEq, Eq, Structural)]
pub enum KernelError {
    /// An even dimension was asked for; only odd ones have a center cell.
    InvalidArgument,
}

impl KernelError {
    /// What went wrong, in words.
    pub fn message(&self) -> (s: &'static str)
        ensures
            s@ == "Dimension must be odd."@,
    {
        "Dimension must be odd."
    }
}

/// The mathematical content of a structuring element: its side length and
/// its cells in row-major order.
pub struct KernelView {
    pub dimension: nat,
    pub cells: Seq<KernelVal>,
}

impl KernelView {
    /// The side is odd and there is one cell per position.
    pub open spec fn wf(self) -> bool {
        &&& self.dimension % 2 == 1
        &&& self.cells.len() == self.dimension * self.dimension
    }

    /// Whether `(x, y)` names a cell.
    pub open spec fn contains(self, x: int, y: int) -> bool {
        0 <= x < self.dimension && 0 <= y < self.dimension
    }

    /// The cell in column `x` of row `y`.
    pub open spec fn get(self, x: int, y: int) -> KernelVal {
        self.cells[y * self.dimension + x]
    }

    /// The same element with the cell in column `x` of row `y` replaced.
    pub open spec fn set(self, x: int, y: int, val: KernelVal) -> KernelView {
        KernelView { dimension: self.dimension, cells: self.cells.update(y * self.dimension + x, val) }
    }

    /// The coordinate, on both axes, of the middle cell.
    pub open spec fn center(self) -> int {
        (self.dimension - 1) / 2
    }

    /// The flat element of the given side: every cell is foreground.
    pub open spec fn full(dimension: nat) -> KernelView {
        KernelView {
            dimension,
            cells: Seq::new(dimension * dimension, |i: int| KernelVal::One),
        }
    }

    /// Whether every cell holds `val`.
    pub open spec fn all(self, val: KernelVal) -> bool {
        forall|i: int| 0 <= i < self.cells.len() ==> self.cells[i] == val
    }
}

/// A structuring element.
#[derive(Debug)]
pub struct Kernel {
    dimension: u32,
    data: Vec<KernelVal>,
}

impl View for Kernel {
    type V = KernelView;

    closed spec fn view(&self) -> KernelView {
        KernelView { dimension: self.dimension as nat, cells: self.data@ }
    }
}

impl Kernel {
    /// Every element is well formed, at all times.
    #[verifier::type_invariant]
    pub open spec fn inv(self) -> bool {
        self@.wf()
    }

    /// The identity element: one foreground cell.
    pub fn new() -> (k: Kernel)
        ensures
            k@ == KernelView::full(1),
            k@.wf(),
    {
        let mut data: Vec<KernelVal> = Vec::new();
        data.push(KernelVal::One);
        let k = Kernel { dimension: 1, data };
        assert(k@.cells =~= KernelView::full(1).cells);
        k
    }

    /// Resizes to `dimension` and resets every cell to foreground. An even
    /// `dimension` is refused and leaves the element as it was.
    pub fn change_dimension(&mut self, dimension: u32) -> (r: Result<(), KernelError>)
        ensures
            final(self)@.wf(),
            dimension % 2 == 0 ==> r == Err::<(), KernelError>(KernelError::InvalidArgument),
            dimension % 2 == 0 ==> final(self)@ == old(self)@,
            dimension % 2 == 1 ==> r == Ok::<(), KernelError>(()),
            dimension % 2 == 1 ==> final(self)@ == KernelView::full(dimension as nat),
    {
        proof {
            use_type_invariant(&*self);
        }
        if dimension % 2 == 0 {
            return Err(KernelError::InvalidArgument);
        }
        assert(dimension * dimension <= 0xffff_ffff * 0xffff_ffff) by (nonlinear_arith)
            requires
                dimension <= 0xffff_ffff,
        ;
        let count: u64 = dimension as u64 * dimension as u64;
        let mut data: Vec<KernelVal> = Vec::new();
        let mut i: u64 = 0;
        while i < count
            invariant
                i <= count,
                data@.len() == i,
                forall|j: int| 0 <= j < i ==> data@[j] == KernelVal::One,
            decreases count - i,
        {
            data.push(KernelVal::One);
            i += 1;
        }
        *self = Kernel { dimension, data };
        assert(self@.cells =~= KernelView::full(dimension as nat).cells);
        Ok(())
    }

    /// The side length.
    pub fn get_dimension(&self) -> (d: u32)
        ensures
            d == self@.dimension,
            self@.wf(),
    {
        proof {
            use_type_invariant(self);
        }
        self.dimension
    }

    /// Replaces the cell in column `x` of row `y`.
    pub fn set(&mut self, x: u32, y: u32, val: KernelVal)
        requires
            old(self)@.contains(x as int, y as int),
        ensures
            final(self)@ == old(self)@.set(x as int, y as int, val),
            final(self)@.wf(),
    {
        proof {
            use_type_invariant(&*self);
            lemma_offset(self.dimension as int, self.dimension as int, x as int, y as int);
            assert(self.data.len() == self.dimension as int * self.dimension as int);
        }
        let index: usize = y as usize * self.dimension as usize + x as usize;
        self.data[index] = val;
    }

    /// The cell in column `x` of row `y`.
    pub fn get(&self, x: u32, y: u32) -> (val: KernelVal)
        requires
            self@.contains(x as int, y as int),
        ensures
            val == self@.get(x as int, y as int),
    {
        proof {
            use_type_invariant(self);
            lemma_offset(self.dimension as int, self.dimension as int, x as int, y as int);
            assert(self.data.len() == self.dimension as int * self.dimension as int);
        }
        let index: usize = y as usize * self.dimension as usize + x as usize;
        self.data[index]
    }
}

impl Clone for Kernel {
    fn clone(&self) -> (k: Kernel)
        ensures
            k@ == self@,
    {
        proof {
            use_type_invariant(self);
        }
        let k = Kernel { dimension: self.dimension, data: self.data.clone() };
        assert(k@.cells =~= self@.cells);
        k
    }
}

} // verus!
