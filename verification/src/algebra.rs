//! Dense vectors and row-major matrices over a [`Scalar`].
//!
//! Every operation returns a new value. An operation whose operands do not
//! fit together reports it instead of computing on them.

use vstd::prelude::*;
use crate::model::{Grid, lemma_cell_offset, vec_difference, vec_scaled, vec_sum};
use crate::scalar::{Scalar, is_exact, product, zero};

verus! {

/// Why an operation of the algebra could not be carried out.
#[derive(Clone, Copy, Debug, PartialEq, Eq, Structural)]
pub enum AlgebraError {
    /// Two vectors of different lengths were to be combined entry by entry.
    LengthMismatch,
    /// The number of values handed over is not `rows * cols`.
    WrongValueCount,
    /// The left matrix of a product has not as many columns as the right one
    /// has rows.
    IncompatibleDimensions,
    /// Two matrices of different shapes were to be combined entry by entry.
    ShapeMismatch,
    /// A matrix with more than one row and more than one column was to be
    /// turned into a vector.
    NotAVector,
    /// The result would have more entries than can be counted.
    TooLarge,
}

impl AlgebraError {
    /// A sentence that describes the failure.
    pub fn message(&self) -> (r: String)
        ensures
            r@ == (match *self {
                AlgebraError::LengthMismatch =>
                    "Attempt to perform component wise operation on vectors of different lengths."@,
                AlgebraError::WrongValueCount =>
                    "Attempt to create a matrix with incorrect dimensions."@,
                AlgebraError::IncompatibleDimensions =>
                    "Attempt to multiply matrices with incompatible dimensions."@,
                AlgebraError::ShapeMismatch =>
                    "Attempt to perform component wise operation on matrices of inconsistent dimensions."@,
                AlgebraError::NotAVector =>
                    "Attempt to convert matrix which is not a single row or column into a vector."@,
                AlgebraError::TooLarge =>
                    "Attempt to create a matrix with more entries than can be addressed."@,
            }),
    {
        match self {
            AlgebraError::LengthMismatch =>
                "Attempt to perform component wise operation on vectors of different lengths.".to_string(),
            AlgebraError::WrongValueCount =>
                "Attempt to create a matrix with incorrect dimensions.".to_string(),
            AlgebraError::IncompatibleDimensions =>
                "Attempt to multiply matrices with incompatible dimensions.".to_string(),
            AlgebraError::ShapeMismatch =>
                "Attempt to perform component wise operation on matrices of inconsistent dimensions.".to_string(),
            AlgebraError::NotAVector =>
                "Attempt to convert matrix which is not a single row or column into a vector.".to_string(),
            AlgebraError::TooLarge =>
                "Attempt to create a matrix with more entries than can be addressed.".to_string(),
        }
    }
}

/// A copy of `values`.
pub fn copy_of<T: Copy>(values: &Vec<T>) -> (r: Vec<T>)
    ensures
        r@ == values@,
{
    let mut out: Vec<T> = Vec::with_capacity(values.len());
    let mut i: usize = 0;
    while i < values.len()
        invariant
            i <= values.len(),
            out@ == values@.take(i as int),
        decreases values.len() - i,
    {
        out.push(values[i]);
        i += 1;
        assert(out@ =~= values@.take(i as int));
    }
    assert(values@.take(values.len() as int) =~= values@);
    out
}

/// An ordered sequence of numbers, of a length fixed when it is made.
#[derive(Debug)]
pub struct Vector<T> {
    values: Vec<T>,
}

impl<T> View for Vector<T> {
    type V = Seq<T>;

    closed spec fn view(&self) -> Seq<T> {
        self.values@
    }
}

impl<T: Copy> Clone for Vector<T> {
    fn clone(&self) -> (r: Self)
        ensures
            r@ == self@,
    {
        Vector { values: copy_of(&self.values) }
    }
}

impl<T: Scalar> Vector<T> {
    /// The vector of the given entries.
    pub fn new(values: Vec<T>) -> (r: Vector<T>)
        ensures
            r@ == values@,
    {
        Vector { values }
    }

    /// The number of entries.
    pub fn len(&self) -> (r: usize)
        ensures
            r == self@.len(),
    {
        self.values.len()
    }

    /// The entry at `index`.
    pub fn index(&self, index: usize) -> (r: T)
        requires
            index < self@.len(),
        ensures
            r == self@[index as int],
    {
        self.values[index]
    }

    /// The entries, in order.
    pub fn as_vec(&self) -> (r: &Vec<T>)
        ensures
            r@ == self@,
    {
        &self.values
    }

    /// The vector whose every entry is what `mapping` returned for the entry
    /// of `self` at the same place. `mapping` is called once per entry, from
    /// the first to the last.
    pub fn map<F: Fn(T) -> T>(&self, mapping: F) -> (r: Vector<T>)
        requires
            forall|i: int| 0 <= i < self@.len() ==> call_requires(mapping, (#[trigger] self@[i],)),
        ensures
            r@.len() == self@.len(),
            forall|i: int|
                0 <= i < self@.len() ==> call_ensures(mapping, (self@[i],), #[trigger] r@[i]),
    {
        let mut out: Vec<T> = Vec::with_capacity(self.values.len());
        let mut i: usize = 0;
        while i < self.values.len()
            invariant
                i <= self.values.len(),
                out.len() == i,
                forall|k: int|
                    0 <= k < self@.len() ==> call_requires(mapping, (#[trigger] self@[k],)),
                forall|k: int|
                    0 <= k < i ==> call_ensures(mapping, (self@[k],), #[trigger] out@[k]),
            decreases self.values.len() - i,
        {
            assert(self.values[i as int] == self@[i as int]);
            let y = mapping(self.values[i]);
            out.push(y);
            i += 1;
        }
        Vector { values: out }
    }

    /// The vector whose every entry is what `operation` returned for the two
    /// entries of `first` and `second` at the same place.
    pub fn component_wise<F: Fn(T, T) -> T>(
        first: &Vector<T>,
        second: &Vector<T>,
        operation: F,
    ) -> (r: Result<Vector<T>, AlgebraError>)
        requires
            first@.len() == second@.len() ==> forall|i: int|
                0 <= i < first@.len() ==> call_requires(
                    operation,
                    (#[trigger] first@[i], second@[i]),
                ),
        ensures
            first@.len() != second@.len() <==> r == Err::<Vector<T>, AlgebraError>(
                AlgebraError::LengthMismatch,
            ),
            first@.len() == second@.len() <==> r is Ok,
            r matches Ok(v) ==> {
                &&& v@.len() == first@.len()
                &&& forall|i: int|
                    0 <= i < first@.len() ==> call_ensures(
                        operation,
                        (first@[i], second@[i]),
                        #[trigger] v@[i],
                    )
            },
    {
        if first.values.len() != second.values.len() {
            return Err(AlgebraError::LengthMismatch);
        }
        let n = first.values.len();
        let mut out: Vec<T> = Vec::with_capacity(n);
        let mut i: usize = 0;
        while i < n
            invariant
                n == first@.len(),
                n == second@.len(),
                i <= n,
                out.len() == i,
                forall|k: int|
                    0 <= k < n ==> call_requires(operation, (#[trigger] first@[k], second@[k])),
                forall|k: int|
                    0 <= k < i ==> call_ensures(
                        operation,
                        (first@[k], second@[k]),
                        #[trigger] out@[k],
                    ),
            decreases n - i,
        {
            assert(first.values[i as int] == first@[i as int]);
            let y = operation(first.values[i], second.values[i]);
            out.push(y);
            i += 1;
        }
        Ok(Vector { values: out })
    }

    /// `self + other`, entry by entry.
    pub fn add(&self, other: &Vector<T>) -> (r: Result<Vector<T>, AlgebraError>)
        requires
            is_exact::<T>(),
        ensures
            self@.len() != other@.len() <==> r == Err::<Vector<T>, AlgebraError>(
                AlgebraError::LengthMismatch,
            ),
            self@.len() == other@.len() <==> r is Ok,
            r matches Ok(v) ==> v@ == vec_sum(self@, other@),
    {
        let r = Vector::component_wise(self, other, T::plus);
        proof {
            if let Ok(v) = &r {
                assert(v@ =~= vec_sum(self@, other@));
            }
        }
        r
    }

    /// `self - other`, entry by entry.
    pub fn sub(&self, other: &Vector<T>) -> (r: Result<Vector<T>, AlgebraError>)
        requires
            is_exact::<T>(),
        ensures
            self@.len() != other@.len() <==> r == Err::<Vector<T>, AlgebraError>(
                AlgebraError::LengthMismatch,
            ),
            self@.len() == other@.len() <==> r is Ok,
            r matches Ok(v) ==> v@ == vec_difference(self@, other@),
    {
        let r = Vector::component_wise(self, other, T::minus);
        proof {
            if let Ok(v) = &r {
                assert(v@ =~= vec_difference(self@, other@));
            }
        }
        r
    }

    /// `factor * self`: every entry multiplied by `factor` from the left.
    pub fn scale(&self, factor: T) -> (r: Vector<T>)
        requires
            is_exact::<T>(),
        ensures
            r@ == vec_scaled(factor, self@),
    {
        let mut out: Vec<T> = Vec::with_capacity(self.values.len());
        let mut i: usize = 0;
        while i < self.values.len()
            invariant
                is_exact::<T>(),
                i <= self.values.len(),
                out.len() == i,
                forall|k: int| 0 <= k < i ==> #[trigger] out@[k] == product(factor, self.values@[k]),
            decreases self.values.len() - i,
        {
            out.push(factor.times(self.values[i]));
            i += 1;
        }
        assert(out@ =~= vec_scaled(factor, self.values@));
        Vector { values: out }
    }
}

/// A dense grid of numbers with a fixed number of rows and columns, stored row
/// after row.
#[derive(Debug)]
pub struct Matrix<T> {
    rows: usize,
    cols: usize,
    values: Vec<T>,
}

impl<T> View for Matrix<T> {
    type V = Grid<T>;

    closed spec fn view(&self) -> Grid<T> {
        Grid { rows: self.rows as nat, cols: self.cols as nat, cells: self.values@ }
    }
}

impl<T: Copy> Clone for Matrix<T> {
    fn clone(&self) -> (r: Self)
        ensures
            r@ == self@,
    {
        Matrix { rows: self.rows, cols: self.cols, values: copy_of(&self.values) }
    }
}

impl<T: Scalar> Matrix<T> {
    /// The matrix holds one value for every position of its shape, and no
    /// more values than can be counted.
    pub open spec fn wf(&self) -> bool {
        &&& self@.wf()
        &&& self@.cells.len() <= usize::MAX
    }

    /// The matrix of the given shape whose entries are `values`, row after
    /// row.
    pub fn new(rows: usize, cols: usize, values: Vec<T>) -> (r: Result<Matrix<T>, AlgebraError>)
        ensures
            values@.len() == rows * cols <==> r is Ok,
            values@.len() != rows * cols <==> r == Err::<Matrix<T>, AlgebraError>(
                AlgebraError::WrongValueCount,
            ),
            r matches Ok(m) ==> m.wf() && m@ == (Grid {
                rows: rows as nat,
                cols: cols as nat,
                cells: values@,
            }),
    {
        let given = values.len();
        match rows.checked_mul(cols) {
            Some(count) => {
                if count == given {
                    Ok(Matrix { rows, cols, values })
                } else {
                    Err(AlgebraError::WrongValueCount)
                }
            },
            None => Err(AlgebraError::WrongValueCount),
        }
    }

    /// The number of rows.
    pub fn rows(&self) -> (r: usize)
        ensures
            r == self@.rows,
    {
        self.rows
    }

    /// The number of columns.
    pub fn cols(&self) -> (r: usize)
        ensures
            r == self@.cols,
    {
        self.cols
    }

    /// The entries, row after row.
    pub fn values(&self) -> (r: &Vec<T>)
        ensures
            r@ == self@.cells,
    {
        &self.values
    }

    /// The entry in row `row` and column `col`.
    pub fn index(&self, row: usize, col: usize) -> (r: T)
        requires
            self.wf(),
            row < self@.rows,
            col < self@.cols,
        ensures
            r == self@.at(row as int, col as int),
    {
        proof {
            lemma_cell_offset(self.rows as nat, self.cols as nat, row as int, col as int);
            assert(self.values.len() == self.rows * self.cols);
        }
        self.values[row * self.cols + col]
    }

    /// The matrix product `first * second`: entry `(i, j)` is the sum, taken
    /// from the left and starting at zero, of the products of the entries of
    /// row `i` of `first` with those of column `j` of `second`.
    pub fn multiply(first: &Matrix<T>, second: &Matrix<T>) -> (r: Result<Matrix<T>, AlgebraError>)
        requires
            is_exact::<T>(),
            first.wf(),
            second.wf(),
        ensures
            first@.cols != second@.rows <==> r == Err::<Matrix<T>, AlgebraError>(
                AlgebraError::IncompatibleDimensions,
            ),
            first@.cols == second@.rows && first@.rows * second@.cols > usize::MAX <==> r == Err::<
                Matrix<T>,
                AlgebraError,
            >(AlgebraError::TooLarge),
            first@.cols == second@.rows && first@.rows * second@.cols <= usize::MAX <==> r is Ok,
            r matches Ok(m) ==> m.wf() && m@ == first@.times(second@),
    {
        if first.cols != second.rows {
            return Err(AlgebraError::IncompatibleDimensions);
        }
        let size = match first.rows.checked_mul(second.cols) {
            Some(size) => size,
            None => {
                return Err(AlgebraError::TooLarge);
            },
        };
        let mut unravelled: Vec<T> = Vec::with_capacity(size);
        let mut i: usize = 0;
        while i < first.rows
            invariant
                is_exact::<T>(),
                first.wf(),
                second.wf(),
                first.cols == second.rows,
                i <= first.rows,
                unravelled.len() == i * second.cols,
                forall|k: int|
                    0 <= k < unravelled.len() ==> #[trigger] unravelled@[k] == first@.inner(
                        second@,
                        k / (second.cols as int),
                        k % (second.cols as int),
                        first.cols as nat,
                    ),
            decreases first.rows - i,
        {
            let mut j: usize = 0;
            while j < second.cols
                invariant
                    is_exact::<T>(),
                    first.wf(),
                    second.wf(),
                    first.cols == second.rows,
                    i < first.rows,
                    j <= second.cols,
                    unravelled.len() == i * second.cols + j,
                    forall|k: int|
                        0 <= k < unravelled.len() ==> #[trigger] unravelled@[k] == first@.inner(
                            second@,
                            k / (second.cols as int),
                            k % (second.cols as int),
                            first.cols as nat,
                        ),
                decreases second.cols - j,
            {
                let mut new_val = T::zero();
                let mut k: usize = 0;
                while k < first.cols
                    invariant
                        is_exact::<T>(),
                        first.wf(),
                        second.wf(),
                        first.cols == second.rows,
                        i < first.rows,
                        j < second.cols,
                        k <= first.cols,
                        new_val == first@.inner(second@, i as int, j as int, k as nat),
                    decreases first.cols - k,
                {
                    new_val = new_val.plus(first.index(i, k).times(second.index(k, j)));
                    k += 1;
                }
                proof {
                    lemma_cell_offset(first.rows as nat, second.cols as nat, i as int, j as int);
                }
                unravelled.push(new_val);
                j += 1;
            }
            assert(i * second.cols + second.cols == (i + 1) * second.cols) by (nonlinear_arith);
            i += 1;
        }
        let product = Matrix { rows: first.rows, cols: second.cols, values: unravelled };
        assert(product@.cells =~= first@.times(second@).cells);
        Ok(product)
    }

    /// The matrix with rows and columns exchanged: entry `(i, j)` of the
    /// result is entry `(j, i)` of `self`.
    pub fn transpose(&self) -> (r: Matrix<T>)
        requires
            self.wf(),
        ensures
            r.wf(),
            r@ == self@.transposed(),
    {
        let mut values: Vec<T> = Vec::with_capacity(self.values.len());
        let mut i: usize = 0;
        while i < self.cols
            invariant
                self.wf(),
                i <= self.cols,
                values.len() == i * self.rows,
                forall|k: int|
                    0 <= k < values.len() ==> #[trigger] values@[k] == self@.at(
                        k % (self.rows as int),
                        k / (self.rows as int),
                    ),
            decreases self.cols - i,
        {
            let mut j: usize = 0;
            while j < self.rows
                invariant
                    self.wf(),
                    i < self.cols,
                    j <= self.rows,
                    values.len() == i * self.rows + j,
                    forall|k: int|
                        0 <= k < values.len() ==> #[trigger] values@[k] == self@.at(
                            k % (self.rows as int),
                            k / (self.rows as int),
                        ),
                decreases self.rows - j,
            {
                proof {
                    lemma_cell_offset(self.cols as nat, self.rows as nat, i as int, j as int);
                }
                values.push(self.index(j, i));
                j += 1;
            }
            assert(i * self.rows + self.rows == (i + 1) * self.rows) by (nonlinear_arith);
            i += 1;
        }
        assert(self.cols * self.rows == self.rows * self.cols) by (nonlinear_arith);
        let flipped = Matrix { rows: self.cols, cols: self.rows, values };
        assert(flipped@.cells =~= self@.transposed().cells);
        flipped
    }

    /// The square matrix with the entries of `vector` on its main diagonal
    /// and zero everywhere else.
    pub fn diagonal(vector: &Vector<T>) -> (r: Result<Matrix<T>, AlgebraError>)
        requires
            is_exact::<T>(),
        ensures
            vector@.len() * vector@.len() > usize::MAX <==> r == Err::<Matrix<T>, AlgebraError>(
                AlgebraError::TooLarge,
            ),
            vector@.len() * vector@.len() <= usize::MAX <==> r is Ok,
            r matches Ok(m) ==> m.wf() && m@ == Grid::diagonal(vector@),
    {
        let n = vector.len();
        let size = match n.checked_mul(n) {
            Some(size) => size,
            None => {
                return Err(AlgebraError::TooLarge);
            },
        };
        let mut values: Vec<T> = Vec::with_capacity(size);
        let mut row: usize = 0;
        while row < n
            invariant
                is_exact::<T>(),
                n == vector@.len(),
                row <= n,
                values.len() == row * n,
                forall|k: int|
                    0 <= k < values.len() ==> #[trigger] values@[k] == (if k / (n as int) == k % (
                    n as int) {
                        vector@[k / (n as int)]
                    } else {
                        zero::<T>()
                    }),
            decreases n - row,
        {
            let mut col: usize = 0;
            while col < n
                invariant
                    is_exact::<T>(),
                    n == vector@.len(),
                    row < n,
                    col <= n,
                    values.len() == row * n + col,
                    forall|k: int|
                        0 <= k < values.len() ==> #[trigger] values@[k] == (if k / (n as int) == k
                            % (n as int) {
                            vector@[k / (n as int)]
                        } else {
                            zero::<T>()
                        }),
                decreases n - col,
            {
                proof {
                    lemma_cell_offset(n as nat, n as nat, row as int, col as int);
                }
                values.push(
                    if row == col {
                        vector.index(row)
                    } else {
                        T::zero()
                    },
                );
                col += 1;
            }
            assert(row * n + n == (row + 1) * n) by (nonlinear_arith);
            row += 1;
        }
        let square = Matrix { rows: n, cols: n, values };
        assert(square@.cells =~= Grid::diagonal(vector@).cells);
        Ok(square)
    }

    /// The matrix whose every entry is what `operation` returned for the two
    /// entries of `first` and `second` at the same position.
    pub fn component_wise<F: Fn(T, T) -> T>(
        first: &Matrix<T>,
        second: &Matrix<T>,
        operation: F,
    ) -> (r: Result<Matrix<T>, AlgebraError>)
        requires
            first.wf(),
            second.wf(),
            first@.same_shape(second@) ==> forall|k: int|
                0 <= k < first@.cells.len() ==> call_requires(
                    operation,
                    (#[trigger] first@.cells[k], second@.cells[k]),
                ),
        ensures
            !first@.same_shape(second@) <==> r == Err::<Matrix<T>, AlgebraError>(
                AlgebraError::ShapeMismatch,
            ),
            first@.same_shape(second@) <==> r is Ok,
            r matches Ok(m) ==> {
                &&& m.wf()
                &&& m@.same_shape(first@)
                &&& forall|k: int|
                    0 <= k < first@.cells.len() ==> call_ensures(
                        operation,
                        (first@.cells[k], second@.cells[k]),
                        #[trigger] m@.cells[k],
                    )
            },
    {
        if first.rows != second.rows || first.cols != second.cols {
            return Err(AlgebraError::ShapeMismatch);
        }
        let n = first.values.len();
        let mut out: Vec<T> = Vec::with_capacity(n);
        let mut i: usize = 0;
        while i < n
            invariant
                n == first.values@.len(),
                n == second.values@.len(),
                i <= n,
                out.len() == i,
                forall|k: int|
                    0 <= k < n ==> call_requires(
                        operation,
                        (#[trigger] first@.cells[k], second@.cells[k]),
                    ),
                forall|k: int|
                    0 <= k < i ==> call_ensures(
                        operation,
                        (first@.cells[k], second@.cells[k]),
                        #[trigger] out@[k],
                    ),
            decreases n - i,
        {
            assert(first.values[i as int] == first@.cells[i as int]);
            let y = operation(first.values[i], second.values[i]);
            out.push(y);
            i += 1;
        }
        Ok(Matrix { rows: first.rows, cols: first.cols, values: out })
    }

    /// The entries of a matrix of a single row or a single column, as a
    /// vector.
    pub fn into_vector(self) -> (r: Result<Vector<T>, AlgebraError>)
        ensures
            self@.rows != 1 && self@.cols != 1 <==> r == Err::<Vector<T>, AlgebraError>(
                AlgebraError::NotAVector,
            ),
            self@.rows == 1 || self@.cols == 1 <==> r is Ok,
            r matches Ok(v) ==> v@ == self@.cells,
    {
        if self.rows != 1 && self.cols != 1 {
            return Err(AlgebraError::NotAVector);
        }
        Ok(Vector { values: self.values })
    }

    /// `self + other`, entry by entry.
    pub fn add(&self, other: &Matrix<T>) -> (r: Result<Matrix<T>, AlgebraError>)
        requires
            is_exact::<T>(),
            self.wf(),
            other.wf(),
        ensures
            !self@.same_shape(other@) <==> r == Err::<Matrix<T>, AlgebraError>(
                AlgebraError::ShapeMismatch,
            ),
            self@.same_shape(other@) <==> r is Ok,
            r matches Ok(m) ==> m.wf() && m@ == self@.plus(other@),
    {
        let r = Matrix::component_wise(self, other, T::plus);
        proof {
            if let Ok(m) = &r {
                assert(m@.cells =~= vec_sum(self@.cells, other@.cells));
            }
        }
        r
    }

    /// `self - other`, entry by entry.
    pub fn sub(&self, other: &Matrix<T>) -> (r: Result<Matrix<T>, AlgebraError>)
        requires
            is_exact::<T>(),
            self.wf(),
            other.wf(),
        ensures
            !self@.same_shape(other@) <==> r == Err::<Matrix<T>, AlgebraError>(
                AlgebraError::ShapeMismatch,
            ),
            self@.same_shape(other@) <==> r is Ok,
            r matches Ok(m) ==> m.wf() && m@ == self@.minus(other@),
    {
        let r = Matrix::component_wise(self, other, T::minus);
        proof {
            if let Ok(m) = &r {
                assert(m@.cells =~= vec_difference(self@.cells, other@.cells));
            }
        }
        r
    }

    /// `factor * self`: every entry multiplied by `factor` from the left.
    pub fn scale(&self, factor: T) -> (r: Matrix<T>)
        requires
            is_exact::<T>(),
            self.wf(),
        ensures
            r.wf(),
            r@ == self@.scaled(factor),
    {
        let mut out: Vec<T> = Vec::with_capacity(self.values.len());
        let mut i: usize = 0;
        while i < self.values.len()
            invariant
                is_exact::<T>(),
                i <= self.values.len(),
                out.len() == i,
                forall|k: int| 0 <= k < i ==> #[trigger] out@[k] == product(factor, self.values@[k]),
            decreases self.values.len() - i,
        {
            out.push(factor.times(self.values[i]));
            i += 1;
        }
        assert(out@ =~= vec_scaled(factor, self.values@));
        Matrix { rows: self.rows, cols: self.cols, values: out }
    }

    /// The product of `self` with `vector` taken as a single column.
    pub fn multiply_vector(&self, vector: &Vector<T>) -> (r: Result<Vector<T>, AlgebraError>)
        requires
            is_exact::<T>(),
            self.wf(),
        ensures
            self@.cols != vector@.len() <==> r == Err::<Vector<T>, AlgebraError>(
                AlgebraError::IncompatibleDimensions,
            ),
            self@.cols == vector@.len() <==> r is Ok,
            r matches Ok(v) ==> v@ == self@.apply(vector@) && v@.len() == self@.rows,
    {
        let column = vector.clone().into_matrix();
        assert(self@.rows * column@.cols == self@.rows) by (nonlinear_arith)
            requires
                column@.cols == 1,
        ;
        match Matrix::multiply(self, &column) {
            Ok(product) => product.into_vector(),
            Err(error) => Err(error),
        }
    }
}

impl<T: Scalar> Vector<T> {
    /// The vector as a matrix of a single column.
    pub fn into_matrix(self) -> (r: Matrix<T>)
        ensures
            r.wf(),
            r@ == Grid::column(self@),
    {
        assert(self.values.len() * 1 == self.values.len()) by (nonlinear_arith);
        Matrix { rows: self.values.len(), cols: 1, values: self.values }
    }

    /// The matrix whose entry at `(i, j)` is `first[i] * second[j]`.
    pub fn outer_product(first: &Vector<T>, second: &Vector<T>) -> (r: Result<Matrix<T>, AlgebraError>)
        requires
            is_exact::<T>(),
        ensures
            first@.len() * second@.len() > usize::MAX <==> r == Err::<Matrix<T>, AlgebraError>(
                AlgebraError::TooLarge,
            ),
            first@.len() * second@.len() <= usize::MAX <==> r is Ok,
            r matches Ok(m) ==> {
                &&& m.wf()
                &&& m@ == Grid::outer(first@, second@)
                &&& m@.rows == first@.len()
                &&& m@.cols == second@.len()
                &&& forall|i: int, j: int|
                    0 <= i < first@.len() && 0 <= j < second@.len() ==> #[trigger] m@.at(i, j)
                        == product(first@[i], second@[j])
            },
    {
        let size = match first.len().checked_mul(second.len()) {
            Some(size) => size,
            None => {
                return Err(AlgebraError::TooLarge);
            },
        };
        let rows = first.len();
        let cols = second.len();
        let mut values: Vec<T> = Vec::with_capacity(size);
        let mut i: usize = 0;
        while i < rows
            invariant
                is_exact::<T>(),
                rows == first@.len(),
                cols == second@.len(),
                i <= rows,
                values.len() == i * cols,
                forall|k: int|
                    0 <= k < values.len() ==> #[trigger] values@[k] == product(
                        first@[k / (cols as int)],
                        second@[k % (cols as int)],
                    ),
            decreases rows - i,
        {
            let mut j: usize = 0;
            while j < cols
                invariant
                    is_exact::<T>(),
                    rows == first@.len(),
                    cols == second@.len(),
                    i < rows,
                    j <= cols,
                    values.len() == i * cols + j,
                    forall|k: int|
                        0 <= k < values.len() ==> #[trigger] values@[k] == product(
                            first@[k / (cols as int)],
                            second@[k % (cols as int)],
                        ),
                decreases cols - j,
            {
                proof {
                    lemma_cell_offset(rows as nat, cols as nat, i as int, j as int);
                }
                values.push(first.index(i).times(second.index(j)));
                j += 1;
            }
            assert(i * cols + cols == (i + 1) * cols) by (nonlinear_arith);
            i += 1;
        }
        let outer = Matrix { rows, cols, values };
        assert(outer@.cells =~= Grid::outer(first@, second@).cells);
        assert forall|i: int, j: int|
            0 <= i < first@.len() && 0 <= j < second@.len() implies #[trigger] outer@.at(i, j)
            == product(first@[i], second@[j]) by {
            lemma_cell_offset(rows as nat, cols as nat, i, j);
        }
        Ok(outer)
    }
}

} // verus!
