use network::algebra::{AlgebraError, Matrix, Vector};
use network::scalar::Scalar;

#[derive(Clone, Copy, Debug, PartialEq)]
struct Real(f64);

impl Scalar for Real {
    fn zero() -> Real {
        Real(0.0)
    }

    fn one() -> Real {
        Real(1.0)
    }

    fn plus(self, rhs: Real) -> Real {
        Real(self.0 + rhs.0)
    }

    fn minus(self, rhs: Real) -> Real {
        Real(self.0 - rhs.0)
    }

    fn times(self, rhs: Real) -> Real {
        Real(self.0 * rhs.0)
    }

    fn over(self, rhs: Real) -> Real {
        Real(self.0 / rhs.0)
    }

    fn negated(self) -> Real {
        Real(-self.0)
    }

    fn exp(self) -> Real {
        Real(self.0.exp())
    }

    fn is_infinite(self) -> bool {
        self.0.is_infinite()
    }
}

fn reals(values: &[f64]) -> Vec<Real> {
    values.iter().map(|v| Real(*v)).collect()
}

fn vector(values: &[f64]) -> Vector<Real> {
    Vector::new(reals(values))
}

fn matrix(rows: usize, cols: usize, values: &[f64]) -> Matrix<Real> {
    Matrix::new(rows, cols, reals(values)).unwrap()
}

fn entries(m: &Matrix<Real>) -> Vec<f64> {
    let mut out = Vec::new();
    for i in 0..m.rows() {
        for j in 0..m.cols() {
            out.push(m.index(i, j).0);
        }
    }
    out
}

fn floats(v: &Vector<Real>) -> Vec<f64> {
    v.as_vec().iter().map(|x| x.0).collect()
}

#[test]
fn vector_reports_its_entries() {
    let v = vector(&[1.0, -2.0, 3.5]);
    assert_eq!(v.len(), 3);
    assert_eq!(v.index(1), Real(-2.0));
    assert_eq!(floats(&v), vec![1.0, -2.0, 3.5]);
    assert_eq!(floats(&v.clone()), vec![1.0, -2.0, 3.5]);
}

#[test]
fn vector_add_and_sub_work_entry_by_entry() {
    let u = vector(&[1.0, 2.0, 3.0]);
    let v = vector(&[0.5, -1.0, 4.0]);
    assert_eq!(floats(&u.add(&v).unwrap()), vec![1.5, 1.0, 7.0]);
    assert_eq!(floats(&u.sub(&v).unwrap()), vec![0.5, 3.0, -1.0]);
}

#[test]
fn vector_add_then_sub_gives_the_first_back() {
    let u = vector(&[1.0, 2.5, -3.0, 1e-3]);
    let v = vector(&[0.1, -7.0, 2.0, 1e3]);
    let back = u.add(&v).unwrap().sub(&v).unwrap();
    for i in 0..u.len() {
        assert!((back.index(i).0 - u.index(i).0).abs() < 1e-9);
    }
}

#[test]
fn vectors_of_different_lengths_are_refused() {
    let u = vector(&[1.0, 2.0]);
    let v = vector(&[1.0, 2.0, 3.0]);
    assert_eq!(u.add(&v).err(), Some(AlgebraError::LengthMismatch));
    assert_eq!(u.sub(&v).err(), Some(AlgebraError::LengthMismatch));
    assert_eq!(
        Vector::component_wise(&u, &v, |a: Real, b: Real| a.times(b)).err(),
        Some(AlgebraError::LengthMismatch)
    );
}

#[test]
fn vector_scale_multiplies_every_entry() {
    let v = vector(&[1.0, -2.0, 0.0]);
    assert_eq!(floats(&v.scale(Real(2.5))), vec![2.5, -5.0, 0.0]);
}

#[test]
fn vector_map_applies_the_function() {
    let v = vector(&[1.0, 2.0, 3.0]);
    let doubled = v.map(|x: Real| Real(x.0 * x.0));
    assert_eq!(floats(&doubled), vec![1.0, 4.0, 9.0]);
}

#[test]
fn vector_component_wise_uses_the_operation() {
    let u = vector(&[1.0, 2.0, 3.0]);
    let v = vector(&[4.0, 5.0, 6.0]);
    let w = Vector::component_wise(&u, &v, |a: Real, b: Real| Real(a.0 * b.0)).unwrap();
    assert_eq!(floats(&w), vec![4.0, 10.0, 18.0]);
}

#[test]
fn vector_into_matrix_is_a_column() {
    let m = vector(&[1.0, 2.0, 3.0]).into_matrix();
    assert_eq!((m.rows(), m.cols()), (3, 1));
    assert_eq!(entries(&m), vec![1.0, 2.0, 3.0]);
}

#[test]
fn outer_product_has_the_products_of_all_pairs() {
    let u = vector(&[1.0, 2.0, 3.0]);
    let v = vector(&[4.0, 5.0]);
    let m = Vector::outer_product(&u, &v).unwrap();
    assert_eq!((m.rows(), m.cols()), (3, 2));
    for i in 0..3 {
        for j in 0..2 {
            assert_eq!(m.index(i, j).0, u.index(i).0 * v.index(j).0);
        }
    }
    assert_eq!(entries(&m), vec![4.0, 5.0, 8.0, 10.0, 12.0, 15.0]);
}

#[test]
fn outer_product_with_an_empty_vector_is_empty() {
    let u = vector(&[]);
    let v = vector(&[4.0, 5.0]);
    let m = Vector::outer_product(&u, &v).unwrap();
    assert_eq!((m.rows(), m.cols()), (0, 2));
}

#[test]
fn matrix_new_checks_the_number_of_values() {
    assert!(Matrix::new(2, 3, reals(&[1.0, 2.0, 3.0, 4.0, 5.0, 6.0])).is_ok());
    assert_eq!(
        Matrix::new(2, 3, reals(&[1.0, 2.0, 3.0])).err(),
        Some(AlgebraError::WrongValueCount)
    );
    assert_eq!(
        Matrix::new(usize::MAX, 2, reals(&[1.0])).err(),
        Some(AlgebraError::WrongValueCount)
    );
    assert!(Matrix::new(0, 5, reals(&[])).is_ok());
}

#[test]
fn matrix_index_is_row_major() {
    let m = matrix(2, 3, &[1.0, 2.0, 3.0, 4.0, 5.0, 6.0]);
    assert_eq!(m.index(0, 0), Real(1.0));
    assert_eq!(m.index(0, 2), Real(3.0));
    assert_eq!(m.index(1, 0), Real(4.0));
    assert_eq!(m.index(1, 2), Real(6.0));
}

#[test]
fn matrix_multiply_gives_the_product() {
    let a = matrix(2, 3, &[1.0, 2.0, 3.0, 4.0, 5.0, 6.0]);
    let b = matrix(3, 2, &[7.0, 8.0, 9.0, 10.0, 11.0, 12.0]);
    let c = Matrix::multiply(&a, &b).unwrap();
    assert_eq!((c.rows(), c.cols()), (2, 2));
    assert_eq!(entries(&c), vec![58.0, 64.0, 139.0, 154.0]);
}

#[test]
fn matrix_multiply_refuses_incompatible_dimensions() {
    let a = matrix(2, 3, &[1.0, 2.0, 3.0, 4.0, 5.0, 6.0]);
    let b = matrix(2, 2, &[1.0, 2.0, 3.0, 4.0]);
    assert_eq!(Matrix::multiply(&a, &b).err(), Some(AlgebraError::IncompatibleDimensions));
}

#[test]
fn matrix_multiply_refuses_a_result_too_large() {
    let tall = Matrix::<Real>::new(usize::MAX, 0, Vec::new()).unwrap();
    let wide = Matrix::<Real>::new(0, 2, Vec::new()).unwrap();
    assert_eq!(Matrix::multiply(&tall, &wide).err(), Some(AlgebraError::TooLarge));
}

#[test]
fn matrix_transpose_exchanges_rows_and_columns() {
    let m = matrix(2, 3, &[1.0, 2.0, 3.0, 4.0, 5.0, 6.0]);
    let t = m.transpose();
    assert_eq!((t.rows(), t.cols()), (3, 2));
    assert_eq!(entries(&t), vec![1.0, 4.0, 2.0, 5.0, 3.0, 6.0]);
    for i in 0..2 {
        for j in 0..3 {
            assert_eq!(t.index(j, i), m.index(i, j));
        }
    }
}

#[test]
fn transpose_of_a_product_is_the_product_of_the_transposes_reversed() {
    let a = matrix(2, 3, &[1.5, -2.0, 3.0, 4.0, 0.5, -6.0]);
    let b = matrix(3, 4, &[7.0, 8.0, -9.0, 1.0, 0.25, 11.0, 12.0, -3.0, 2.0, 5.0, 6.0, 0.0]);
    let left = Matrix::multiply(&a, &b).unwrap().transpose();
    let right = Matrix::multiply(&b.transpose(), &a.transpose()).unwrap();
    assert_eq!((left.rows(), left.cols()), (4, 2));
    assert_eq!((right.rows(), right.cols()), (4, 2));
    assert_eq!(entries(&left), entries(&right));
}

#[test]
fn diagonal_holds_the_vector_and_zeros() {
    let d = Matrix::diagonal(&vector(&[1.0, 2.0, 3.0])).unwrap();
    assert_eq!((d.rows(), d.cols()), (3, 3));
    assert_eq!(entries(&d), vec![1.0, 0.0, 0.0, 0.0, 2.0, 0.0, 0.0, 0.0, 3.0]);
}

#[test]
fn diagonal_times_vector_is_the_component_wise_product() {
    let v = vector(&[2.0, -3.0, 0.5]);
    let u = vector(&[4.0, 5.0, -6.0]);
    let d = Matrix::diagonal(&v).unwrap();
    let product = d.multiply_vector(&u).unwrap();
    let expected = Vector::component_wise(&v, &u, |a: Real, b: Real| a.times(b)).unwrap();
    assert_eq!(floats(&product), floats(&expected));
    assert_eq!(floats(&product), vec![8.0, -15.0, -3.0]);
}

#[test]
fn matrix_add_sub_and_scale_work_entry_by_entry() {
    let a = matrix(2, 2, &[1.0, 2.0, 3.0, 4.0]);
    let b = matrix(2, 2, &[0.5, 0.5, -1.0, 2.0]);
    assert_eq!(entries(&a.add(&b).unwrap()), vec![1.5, 2.5, 2.0, 6.0]);
    assert_eq!(entries(&a.sub(&b).unwrap()), vec![0.5, 1.5, 4.0, 2.0]);
    assert_eq!(entries(&a.scale(Real(-2.0))), vec![-2.0, -4.0, -6.0, -8.0]);
    assert_eq!(entries(&a.clone()), vec![1.0, 2.0, 3.0, 4.0]);
}

#[test]
fn matrices_of_different_shapes_are_refused() {
    let a = matrix(2, 3, &[1.0, 2.0, 3.0, 4.0, 5.0, 6.0]);
    let b = matrix(3, 2, &[1.0, 2.0, 3.0, 4.0, 5.0, 6.0]);
    assert_eq!(a.add(&b).err(), Some(AlgebraError::ShapeMismatch));
    assert_eq!(a.sub(&b).err(), Some(AlgebraError::ShapeMismatch));
    assert_eq!(
        Matrix::component_wise(&a, &b, |x: Real, y: Real| x.times(y)).err(),
        Some(AlgebraError::ShapeMismatch)
    );
}

#[test]
fn matrix_component_wise_uses_the_operation() {
    let a = matrix(1, 3, &[1.0, 2.0, 3.0]);
    let b = matrix(1, 3, &[4.0, 5.0, 6.0]);
    let c = Matrix::component_wise(&a, &b, |x: Real, y: Real| x.times(y)).unwrap();
    assert_eq!(entries(&c), vec![4.0, 10.0, 18.0]);
}

#[test]
fn into_vector_takes_a_single_row_or_column() {
    assert_eq!(floats(&matrix(1, 3, &[1.0, 2.0, 3.0]).into_vector().unwrap()), vec![1.0, 2.0, 3.0]);
    assert_eq!(floats(&matrix(3, 1, &[1.0, 2.0, 3.0]).into_vector().unwrap()), vec![1.0, 2.0, 3.0]);
    assert_eq!(
        matrix(2, 2, &[1.0, 2.0, 3.0, 4.0]).into_vector().err(),
        Some(AlgebraError::NotAVector)
    );
}

#[test]
fn multiply_vector_gives_one_entry_per_row() {
    let m = matrix(2, 3, &[1.0, 2.0, 3.0, 4.0, 5.0, 6.0]);
    let v = vector(&[1.0, 0.0, -1.0]);
    assert_eq!(floats(&m.multiply_vector(&v).unwrap()), vec![-2.0, -2.0]);
    assert_eq!(
        m.multiply_vector(&vector(&[1.0, 2.0])).err(),
        Some(AlgebraError::IncompatibleDimensions)
    );
}

#[test]
fn diagonal_refuses_a_square_too_large() {
    let side = (usize::MAX / 2) + 1;
    let wide = Vector::<Unit>::new(vec![Unit; side]);
    assert_eq!(Matrix::diagonal(&wide).err(), Some(AlgebraError::TooLarge));
    assert_eq!(Vector::outer_product(&wide, &wide).err(), Some(AlgebraError::TooLarge));
}

#[test]
fn algebra_errors_describe_themselves() {
    assert_eq!(
        AlgebraError::LengthMismatch.message(),
        "Attempt to perform component wise operation on vectors of different lengths."
    );
    assert_eq!(
        AlgebraError::WrongValueCount.message(),
        "Attempt to create a matrix with incorrect dimensions."
    );
    assert_eq!(
        AlgebraError::IncompatibleDimensions.message(),
        "Attempt to multiply matrices with incompatible dimensions."
    );
    assert_eq!(
        AlgebraError::ShapeMismatch.message(),
        "Attempt to perform component wise operation on matrices of inconsistent dimensions."
    );
    assert_eq!(
        AlgebraError::NotAVector.message(),
        "Attempt to convert matrix which is not a single row or column into a vector."
    );
    assert_eq!(
        AlgebraError::TooLarge.message(),
        "Attempt to create a matrix with more entries than can be addressed."
    );
}

/// A number that takes no room, so that a vector of any length can be made.
#[derive(Clone, Copy, Debug, PartialEq)]
struct Unit;

impl Scalar for Unit {
    fn zero() -> Unit {
        Unit
    }

    fn one() -> Unit {
        Unit
    }

    fn plus(self, _rhs: Unit) -> Unit {
        Unit
    }

    fn minus(self, _rhs: Unit) -> Unit {
        Unit
    }

    fn times(self, _rhs: Unit) -> Unit {
        Unit
    }

    fn over(self, _rhs: Unit) -> Unit {
        Unit
    }

    fn negated(self) -> Unit {
        Unit
    }

    fn exp(self) -> Unit {
        Unit
    }

    fn is_infinite(self) -> bool {
        false
    }
}

fn debug(value: Real) -> String {
    format!("{:?}", value.0)
}

#[test]
fn vector_describes_its_length_and_values() {
    assert_eq!(
        vector(&[1.0, 2.0, 3.5]).describe(debug),
        "Vector { Length: 3, Values: [1.0, 2.0, 3.5] }"
    );
    assert_eq!(vector(&[-0.25]).describe(debug), "Vector { Length: 1, Values: [-0.25] }");
    assert_eq!(vector(&[]).describe(debug), "Vector { Length: 0, Values: [] }");
}

#[test]
fn matrix_describes_its_shape_and_rows() {
    assert_eq!(
        matrix(2, 3, &[1.0, 2.0, 3.0, 4.0, 5.0, 6.0]).describe(debug),
        "Matrix { Rows: 2, Columns 3, Values: [[1.0, 2.0, 3.0], [4.0, 5.0, 6.0]] }"
    );
    assert_eq!(
        matrix(3, 1, &[1.0, 2.0, 3.0]).describe(debug),
        "Matrix { Rows: 3, Columns 1, Values: [[1.0], [2.0], [3.0]] }"
    );
    assert_eq!(matrix(0, 3, &[]).describe(debug), "Matrix { Rows: 0, Columns 3, Values: [] }");
    assert_eq!(matrix(2, 0, &[]).describe(debug), "Matrix { Rows: 2, Columns 0, Values: [[], []] }");
}

#[test]
fn matrix_values_are_its_entries_row_after_row() {
    let m = matrix(2, 2, &[1.0, 2.0, 3.0, 4.0]);
    let values: Vec<f64> = m.values().iter().map(|x| x.0).collect();
    assert_eq!(values, vec![1.0, 2.0, 3.0, 4.0]);
}
