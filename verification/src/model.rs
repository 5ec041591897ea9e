//! The mathematics that the contracts of the algebra speak of: sequences of
//! numbers for vectors, and row-major grids for matrices.

use vstd::prelude::*;
use vstd::arithmetic::div_mod::{lemma_fundamental_div_mod, lemma_fundamental_div_mod_converse};
use crate::scalar::{Scalar, zero, sum, difference, product};

verus! {

/// `u + v`, entry by entry. Meant for sequences of equal length.
pub open spec fn vec_sum<T: Scalar>(u: Seq<T>, v: Seq<T>) -> Seq<T> {
    Seq::new(u.len(), |i: int| sum(u[i], v[i]))
}

/// `u - v`, entry by entry. Meant for sequences of equal length.
pub open spec fn vec_difference<T: Scalar>(u: Seq<T>, v: Seq<T>) -> Seq<T> {
    Seq::new(u.len(), |i: int| difference(u[i], v[i]))
}

/// `k * v`: every entry of `v` multiplied by `k` from the left.
pub open spec fn vec_scaled<T: Scalar>(k: T, v: Seq<T>) -> Seq<T> {
    Seq::new(v.len(), |i: int| product(k, v[i]))
}

/// `f` applied to every entry of `v`.
pub open spec fn vec_mapped<T>(f: spec_fn(T) -> T, v: Seq<T>) -> Seq<T> {
    Seq::new(v.len(), |i: int| f(v[i]))
}

/// A matrix as a value: its shape and its entries, row after row.
pub struct Grid<T> {
    pub rows: nat,
    pub cols: nat,
    pub cells: Seq<T>,
}

impl<T> Grid<T> {
    /// There is one cell for every position of the shape.
    pub open spec fn wf(self) -> bool {
        self.cells.len() == self.rows * self.cols
    }

    /// The entry in row `i` and column `j`.
    pub open spec fn at(self, i: int, j: int) -> T {
        self.cells[i * self.cols + j]
    }

    /// The grid of the given shape whose entry at `(i, j)` is `f(i, j)`.
    pub open spec fn tabulate(rows: nat, cols: nat, f: spec_fn(int, int) -> T) -> Grid<T> {
        Grid {
            rows,
            cols,
            cells: Seq::new(rows * cols, |k: int| f(k / (cols as int), k % (cols as int))),
        }
    }

    /// The grid with rows and columns exchanged.
    pub open spec fn transposed(self) -> Grid<T> {
        Grid::tabulate(self.cols, self.rows, |i: int, j: int| self.at(j, i))
    }

    /// `v` as a grid of a single column.
    pub open spec fn column(v: Seq<T>) -> Grid<T> {
        Grid { rows: v.len(), cols: 1, cells: v }
    }

    /// The two grids have the same shape.
    pub open spec fn same_shape(self, other: Grid<T>) -> bool {
        self.rows == other.rows && self.cols == other.cols
    }
}

impl<T: Scalar> Grid<T> {
    /// The first `n` terms of the inner product of row `i` of `self` with
    /// column `j` of `other`, added from the left starting at zero.
    pub open spec fn inner(self, other: Grid<T>, i: int, j: int, n: nat) -> T
        decreases n,
    {
        if n == 0 {
            zero::<T>()
        } else {
            sum(
                self.inner(other, i, j, (n - 1) as nat),
                product(self.at(i, n - 1), other.at(n - 1, j)),
            )
        }
    }

    /// The matrix product `self * other`. Meant for `self.cols == other.rows`.
    pub open spec fn times(self, other: Grid<T>) -> Grid<T> {
        Grid::tabulate(self.rows, other.cols, |i: int, j: int| self.inner(other, i, j, self.cols))
    }

    /// The product of `self` with `v` taken as a column.
    pub open spec fn apply(self, v: Seq<T>) -> Seq<T> {
        self.times(Grid::column(v)).cells
    }

    /// The square grid with `v` on its main diagonal and zero elsewhere.
    pub open spec fn diagonal(v: Seq<T>) -> Grid<T> {
        Grid::tabulate(v.len(), v.len(), |i: int, j: int| if i == j { v[i] } else { zero::<T>() })
    }

    /// The grid whose entry at `(i, j)` is `u[i] * v[j]`.
    pub open spec fn outer(u: Seq<T>, v: Seq<T>) -> Grid<T> {
        Grid::tabulate(u.len(), v.len(), |i: int, j: int| product(u[i], v[j]))
    }

    /// `self + other`, entry by entry. Meant for grids of the same shape.
    pub open spec fn plus(self, other: Grid<T>) -> Grid<T> {
        Grid { rows: self.rows, cols: self.cols, cells: vec_sum(self.cells, other.cells) }
    }

    /// `self - other`, entry by entry. Meant for grids of the same shape.
    pub open spec fn minus(self, other: Grid<T>) -> Grid<T> {
        Grid { rows: self.rows, cols: self.cols, cells: vec_difference(self.cells, other.cells) }
    }

    /// `k * self`: every entry multiplied by `k` from the left.
    pub open spec fn scaled(self, k: T) -> Grid<T> {
        Grid { rows: self.rows, cols: self.cols, cells: vec_scaled(k, self.cells) }
    }
}

/// Position `(i, j)` of a `rows` by `cols` grid lies at offset `i * cols + j`
/// of its cells, and the offset gives the position back.
pub proof fn lemma_cell_offset(rows: nat, cols: nat, i: int, j: int)
    requires
        0 <= i < rows,
        0 <= j < cols,
    ensures
        0 <= i * cols + j < rows * cols,
        (i * cols + j) / (cols as int) == i,
        (i * cols + j) % (cols as int) == j,
{
    assert(0 <= i * cols + j < rows * cols) by (nonlinear_arith)
        requires
            0 <= i < rows,
            0 <= j < cols,
    ;
    lemma_fundamental_div_mod_converse(i * cols + j, cols as int, i, j);
}

/// A tabulated grid is well formed and holds `f(i, j)` at `(i, j)`.
pub proof fn lemma_tabulate_at<T>(rows: nat, cols: nat, f: spec_fn(int, int) -> T, i: int, j: int)
    requires
        0 <= i < rows,
        0 <= j < cols,
    ensures
        Grid::tabulate(rows, cols, f).at(i, j) == f(i, j),
{
    lemma_cell_offset(rows, cols, i, j);
}

/// Offset `k` of the cells of a `rows` by `cols` grid is the position in
/// row `k / cols` and column `k % cols`.
pub proof fn lemma_offset_position(rows: nat, cols: nat, k: int)
    requires
        0 <= k < rows * cols,
    ensures
        0 <= k / (cols as int) < rows,
        0 <= k % (cols as int) < cols,
        k == (k / (cols as int)) * cols + k % (cols as int),
{
    assert(cols > 0) by (nonlinear_arith)
        requires
            0 <= k < rows * cols,
    ;
    lemma_fundamental_div_mod(k, cols as int);
    let q = k / (cols as int);
    let r = k % (cols as int);
    assert(0 <= r < cols);
    assert(k == cols * q + r);
    assert(0 <= q < rows) by (nonlinear_arith)
        requires
            0 <= k < rows * cols,
            k == cols * q + r,
            0 <= r < cols,
    ;
    assert(cols * q == q * cols) by (nonlinear_arith);
}

} // verus!
