//! Convolution: every output channel is a weighted sum of the input
//! channel over a square neighbourhood of the pixel.
//!
//! Neighbours that fall outside the input are replaced by the nearest
//! pixel inside it: the edge of the image is repeated.

use crate::error::Error;
use crate::filter::{views, Filter, FilterModel};
use crate::geometry::{Point, Size};
use crate::image::{Image, ImageView, Meta};
use crate::tone::div_floor;
use vstd::prelude::*;

verus! {

/// The largest dimension of a kernel.
pub const MAX_DIM: usize = 127;

/// A square matrix of weights with an odd dimension. The weights are the
/// integers of `weights`, row by row, each divided by `divisor`.
#[derive(Debug)]
pub struct Kernel {
    pub dim: usize,
    pub weights: Vec<i32>,
    pub divisor: i32,
}

/// `v` held to the range from 0 to `n - 1`.
pub open spec fn clamp_coord(v: int, n: int) -> int {
    if v < 0 {
        0
    } else if v >= n {
        n - 1
    } else {
        v
    }
}

impl Kernel {
    /// The dimension is odd and at most [`MAX_DIM`], there is one weight for
    /// each cell, and the divisor is positive.
    pub open spec fn wf(&self) -> bool {
        &&& self.dim % 2 == 1
        &&& self.dim <= MAX_DIM
        &&& self.weights@.len() == self.dim * self.dim
        &&& self.divisor > 0
    }

    /// The input pixel that cell `cell` of the kernel weighs for the output
    /// pixel at `pt`: the centre cell weighs the pixel at `pt` itself.
    pub open spec fn neighbour(&self, pt: Point, cell: int, size: Size) -> Point {
        Point {
            x: clamp_coord(
                pt.x + cell % (self.dim as int) - self.dim / 2,
                size.width as int,
            ) as usize,
            y: clamp_coord(
                pt.y + cell / (self.dim as int) - self.dim / 2,
                size.height as int,
            ) as usize,
        }
    }

    /// The weighted sum of channel `c` over the first `cells` cells.
    pub open spec fn partial_sum(&self, pt: Point, c: int, src: ImageView, cells: nat) -> int
        decreases cells,
    {
        if cells == 0 {
            0
        } else {
            self.partial_sum(pt, c, src, (cells - 1) as nat) + self.weights@[cells - 1]
                * src.level(self.neighbour(pt, cells - 1, src.meta.size), c)
        }
    }

    /// Decides [`Kernel::wf`].
    pub fn is_wf(&self) -> (b: bool)
        ensures
            b == self.wf(),
    {
        if self.dim % 2 != 1 || self.dim > MAX_DIM || self.divisor <= 0 {
            return false;
        }
        assert(self.dim * self.dim <= 127 * 127) by (nonlinear_arith)
            requires
                self.dim <= 127,
        ;
        self.weights.len() == self.dim * self.dim
    }

    /// The kernel of dimension `dim` with the given weights, row by row,
    /// over `divisor`. `None` exactly where that is no kernel.
    pub fn new(dim: usize, weights: Vec<i32>, divisor: i32) -> (r: Option<Kernel>)
        ensures
            r is Some <==> (Kernel { dim, weights, divisor }).wf(),
            r matches Some(k) ==> k == (Kernel { dim, weights, divisor }),
    {
        let k = Kernel { dim, weights, divisor };
        if k.is_wf() {
            Some(k)
        } else {
            None
        }
    }

    /// A kernel that answers to edges in every direction.
    pub fn edges() -> (k: Kernel)
        ensures
            k.wf(),
            k.dim == 3,
            k.divisor == 1,
            k.weights@ == seq![-1i32, -1i32, -1i32, -1i32, 8, -1i32, -1i32, -1i32, -1i32],
    {
        Kernel { dim: 3, weights: vec![-1i32, -1, -1, -1, 8, -1, -1, -1, -1], divisor: 1 }
    }
}

/// A blur with the weights of a bell curve over five by five pixels.
pub fn gaussian_5x5() -> (k: Kernel)
    ensures
        k.wf(),
        k.dim == 5,
        k.divisor == 273,
        k.weights@ == seq![
            1i32, 4, 7, 4, 1, 4, 16, 26, 16, 4, 7, 26, 41, 26, 7, 4, 16, 26, 16, 4, 1, 4, 7, 4, 1,
        ],
{
    Kernel {
        dim: 5,
        weights: vec![
            1i32, 4, 7, 4, 1, 4, 16, 26, 16, 4, 7, 26, 41, 26, 7, 4, 16, 26, 16, 4, 1, 4, 7, 4, 1,
        ],
        divisor: 273,
    }
}

/// The horizontal gradient of Sobel.
pub fn sobel_x() -> (k: Kernel)
    ensures
        k.wf(),
        k.dim == 3,
        k.divisor == 1,
        k.weights@ == seq![1i32, 0, -1i32, 2, 0, -2i32, 1, 0, -1i32],
{
    Kernel { dim: 3, weights: vec![1i32, 0, -1, 2, 0, -2, 1, 0, -1], divisor: 1 }
}

/// The vertical gradient of Sobel.
pub fn sobel_y() -> (k: Kernel)
    ensures
        k.wf(),
        k.dim == 3,
        k.divisor == 1,
        k.weights@ == seq![1i32, 2, 1, 0, 0, 0, -1i32, -2i32, -1i32],
{
    Kernel { dim: 3, weights: vec![1i32, 2, 1, 0, 0, 0, -1, -2, -1], divisor: 1 }
}

/// The sum of the two gradients of Sobel.
pub fn sobel() -> (k: Kernel)
    ensures
        k.wf(),
        k.dim == 3,
        k.divisor == 1,
        k.weights@ == seq![2i32, 2, 0, 2, 0, -2i32, 0, -2i32, -2i32],
{
    Kernel { dim: 3, weights: vec![2i32, 2, 0, 2, 0, -2, 0, -2, -2], divisor: 1 }
}

impl FilterModel for Kernel {
    open spec fn refusal_at(&self, pt: Point, inputs: Seq<ImageView>, out: Meta) -> Option<Error> {
        if inputs.len() == 0 {
            Some(Error::Mismatch)
        } else if inputs[0].meta.channels() != out.channels() || !self.wf() {
            Some(Error::Mismatch)
        } else if inputs[0].meta.size.width == 0 || inputs[0].meta.size.height == 0 {
            Some(Error::OutOfBounds)
        } else {
            None
        }
    }

    open spec fn level_at(&self, pt: Point, c: int, inputs: Seq<ImageView>, out: Meta) -> int {
        self.partial_sum(pt, c, inputs[0], (self.dim * self.dim) as nat) / (self.divisor as int)
    }
}

/// Computes [`clamp_coord`] of `at + offset - radius`.
fn clamp_to(at: usize, offset: usize, radius: usize, n: usize) -> (r: usize)
    requires
        n > 0,
    ensures
        r == clamp_coord(at + offset - radius, n as int),
        r < n,
{
    let v: u128 = at as u128 + offset as u128;
    let radius: u128 = radius as u128;
    if v < radius {
        0
    } else if v - radius >= n as u128 {
        n - 1
    } else {
        (v - radius) as usize
    }
}

proof fn lemma_term_bound(w: int, level: int)
    by (nonlinear_arith)
    requires
        -0x8000_0000 <= w < 0x8000_0000,
        0 <= level <= 65535,
    ensures
        -0x8000_0000_0000 <= w * level <= 0x8000_0000_0000,
{
}

proof fn lemma_cell_split(cell: int, dim: int)
    requires
        0 < dim,
        0 <= cell < dim * dim,
    ensures
        0 <= cell % dim < dim,
        0 <= cell / dim < dim,
{
    vstd::arithmetic::div_mod::lemma_fundamental_div_mod(cell, dim);
    let q = cell / dim;
    let r = cell % dim;
    assert(0 <= q < dim) by (nonlinear_arith)
        requires
            cell == dim * q + r,
            0 <= r < dim,
            0 <= cell < dim * dim,
            0 < dim,
    ;
}

impl Filter for Kernel {
    fn compute_at(&self, pt: Point, inputs: &[&Image], out: Meta, px: &mut Vec<i64>) -> (r:
        Result<(), Error>) {
        if inputs.len() == 0 {
            return Err(Error::Mismatch);
        }
        let src: &Image = inputs[0];
        assert(src@ == views(inputs@)[0]);
        if src.meta.num_channels() != out.num_channels() || !self.is_wf() {
            return Err(Error::Mismatch);
        }
        let size = src.meta.size;
        if size.width == 0 || size.height == 0 {
            return Err(Error::OutOfBounds);
        }
        let dim = self.dim;
        let radius = dim / 2;
        assert(dim * dim <= 127 * 127) by (nonlinear_arith)
            requires
                dim <= 127,
        ;
        let cells = dim * dim;
        let ch = px.len();
        let mut c: usize = 0;
        while c < ch
            invariant
                src.wf(),
                self.wf(),
                size == src.meta.size,
                size.width > 0,
                size.height > 0,
                dim == self.dim,
                radius == dim / 2,
                cells == dim * dim,
                cells <= 127 * 127,
                ch == src.meta.channels(),
                px@.len() == ch,
                c <= ch,
                forall|k: int|
                    0 <= k < c ==> px@[k] == self.partial_sum(pt, k, src@, cells as nat) / (
                    self.divisor as int),
            decreases ch - c,
        {
            let mut acc: i64 = 0;
            let mut cell: usize = 0;
            while cell < cells
                invariant
                    src.wf(),
                    self.wf(),
                    size == src.meta.size,
                    size.width > 0,
                    size.height > 0,
                    dim == self.dim,
                    radius == dim / 2,
                    cells == dim * dim,
                    cells <= 127 * 127,
                    ch == src.meta.channels(),
                    c < ch,
                    cell <= cells,
                    acc == self.partial_sum(pt, c as int, src@, cell as nat),
                    -0x8000_0000_0000 * cell <= acc <= 0x8000_0000_0000 * cell,
                decreases cells - cell,
            {
                proof {
                    lemma_cell_split(cell as int, dim as int);
                }
                let x = clamp_to(pt.x, cell % dim, radius, size.width);
                let y = clamp_to(pt.y, cell / dim, radius, size.height);
                let at = Point { x, y };
                assert(at == self.neighbour(pt, cell as int, size));
                let level = src.get_f(at, c);
                let w: i64 = self.weights[cell] as i64;
                proof {
                    lemma_term_bound(w as int, level as int);
                }
                acc = acc + w * level;
                cell += 1;
            }
            px.set(c, div_floor(acc, self.divisor as i64));
            c += 1;
        }
        Ok(())
    }
}

} // verus!
