use tensor_algebra_in_rust::prelude::{AllowedNumericTypes, Matrix, TensorError, Vector};

/// A 64-bit float as an element type, for inputs without NaN.
#[derive(Clone, Copy, Debug, PartialEq, PartialOrd)]
struct F64(f64);

impl std::ops::Add for F64 {
    type Output = F64;

    fn add(self, rhs: F64) -> F64 {
        F64(self.0 + rhs.0)
    }
}

impl std::ops::Sub for F64 {
    type Output = F64;

    fn sub(self, rhs: F64) -> F64 {
        F64(self.0 - rhs.0)
    }
}

impl std::ops::Mul for F64 {
    type Output = F64;

    fn mul(self, rhs: F64) -> F64 {
        F64(self.0 * rhs.0)
    }
}

impl std::ops::Div for F64 {
    type Output = F64;

    fn div(self, rhs: F64) -> F64 {
        F64(self.0 / rhs.0)
    }
}

impl std::ops::Neg for F64 {
    type Output = F64;

    fn neg(self) -> F64 {
        F64(-self.0)
    }
}

// The trait's specification items are compiled as ordinary functions that
// nothing calls; they mirror the executable ones.
impl AllowedNumericTypes for F64 {
    fn zero_spec() -> F64 {
        F64(0.0)
    }

    fn one_spec() -> F64 {
        F64(1.0)
    }

    fn is_zero_spec(self) -> bool {
        self.0 == 0.0
    }

    fn abs_req(self) -> bool {
        true
    }

    fn abs_spec(self) -> F64 {
        F64(self.0.abs())
    }

    fn from_usize_spec(n: usize) -> Option<F64> {
        Some(F64(n as f64))
    }

    fn lemma_laws() {}

    fn zero() -> F64 {
        F64(0.0)
    }

    fn one() -> F64 {
        F64(1.0)
    }

    fn is_zero(&self) -> bool {
        self.0 == 0.0
    }

    fn abs(self) -> F64 {
        F64(self.0.abs())
    }

    fn from_usize(n: usize) -> Option<F64> {
        Some(F64(n as f64))
    }
}

fn floats<const N: usize>(values: [f64; N]) -> Vector<F64, N> {
    Vector::from(values.map(F64))
}

#[test]
fn determinant_2x2() {
    let matrix = Matrix::from_vectors(vec![floats([1.0, 2.0]), floats([3.0, 4.0])]);
    assert_eq!(matrix.determinant().unwrap(), F64(-2.0));
}

#[test]
fn determinant_3x3() {
    let matrix = Matrix::from_vectors(vec![
        floats([6.0, 1.0, 1.0]),
        floats([4.0, -2.0, 5.0]),
        floats([2.0, 8.0, 7.0]),
    ]);
    assert_eq!(matrix.determinant().unwrap(), F64(-306.0));
}

#[test]
fn determinant_singular() {
    let matrix = Matrix::from_vectors(vec![floats([1.0, 2.0]), floats([2.0, 4.0])]);
    assert_eq!(matrix.determinant().unwrap(), F64(0.0));
}

#[test]
fn determinant_not_square() {
    let matrix: Matrix<F64, 2> = Matrix::from_vectors(vec![floats([1.0, 2.0])]);
    assert!(matrix.determinant().is_err());
}

#[test]
fn transpose() {
    let matrix = Matrix::from_vectors(vec![Vector::from([1, 2, 3]), Vector::from([4, 5, 6])]);
    let transposed = matrix.transpose().unwrap();
    let expectedv2 = Matrix::from_vectors(vec![
        Vector::from([1, 4]),
        Vector::from([2, 5]),
        Vector::from([3, 6]),
    ]);
    assert_eq!(transposed, expectedv2);
}

#[test]
fn swap_rows() {
    let mut matrix = Matrix::from_vectors(vec![
        Vector::from([1, 2, 3]),
        Vector::from([4, 5, 6]),
        Vector::from([7, 8, 9]),
    ]);
    matrix.swap_rows(0, 2).unwrap();
    let expected = Matrix::from_vectors(vec![
        Vector::from([7, 8, 9]),
        Vector::from([4, 5, 6]),
        Vector::from([1, 2, 3]),
    ]);
    assert_eq!(matrix, expected);
}

#[test]
fn swap_rows_out_of_bounds() {
    let mut matrix: Matrix<i32, 3> = Matrix::from_vectors(vec![Vector::from([1, 2, 3])]);
    assert!(matrix.swap_rows(0, 1).is_err());
}

#[test]
fn swap_rows_failure_leaves_the_matrix_as_it_was() {
    let rows = vec![Vector::from([1, 2]), Vector::from([3, 4])];
    let mut matrix: Matrix<i32, 2> = Matrix::from_vectors(rows.clone());
    assert_eq!(
        matrix.swap_rows(2, 0),
        Err(TensorError::OutOfBounds { index: "2".to_string(), size: "2".to_string() })
    );
    assert_eq!(
        matrix.swap_rows(1, 7),
        Err(TensorError::OutOfBounds { index: "7".to_string(), size: "2".to_string() })
    );
    assert_eq!(matrix, Matrix::from_vectors(rows));
}

#[test]
fn determinant_of_integers_divides_as_integers_do() {
    // Pivot 3 after the exchange; the factor 1 / 3 is 0, so row 1 stays.
    let matrix = Matrix::<i32, 2>::from_vectors(vec![Vector::from([1, 2]), Vector::from([3, 4])]);
    assert_eq!(matrix.determinant().unwrap(), -6);
    let exact = Matrix::<i64, 2>::from_vectors(vec![Vector::from([2, 4]), Vector::from([4, 3])]);
    // Pivot 4, exchange, factor 2 / 4 = 0: -(4 * 4).
    assert_eq!(exact.determinant().unwrap(), -16);
    let triangular = Matrix::<i64, 3>::from_vectors(vec![
        Vector::from([5, 1, 2]),
        Vector::from([0, 3, 4]),
        Vector::from([0, 0, 2]),
    ]);
    assert_eq!(triangular.determinant().unwrap(), 30);
}

#[test]
fn determinant_of_no_rows_and_of_one_entry() {
    let empty = Matrix::<i32, 0>::new(0);
    assert_eq!(empty.determinant().unwrap(), 1);
    let single = Matrix::<i32, 1>::from_vectors(vec![Vector::from([-7])]);
    assert_eq!(single.determinant().unwrap(), -7);
    let zero = Matrix::<i32, 1>::new(1);
    assert_eq!(zero.determinant().unwrap(), 0);
}

#[test]
fn determinant_not_square_names_the_shape() {
    let matrix = Matrix::<i32, 2>::new(3);
    assert_eq!(
        matrix.determinant(),
        Err(TensorError::DimensionMismatch {
            expected: "Square Matrix".to_string(),
            found: "3x2 matrix".to_string(),
            operation: "Determinant".to_string(),
        })
    );
}

#[test]
fn transpose_twice_gives_the_matrix_back() {
    let matrix = Matrix::from_vectors(vec![Vector::from([1u32, 2, 3]), Vector::from([4, 5, 6])]);
    let there: Matrix<u32, 2> = matrix.transpose().unwrap();
    assert_eq!(there.shape(), (3, 2));
    let back: Matrix<u32, 3> = there.transpose().unwrap();
    assert_eq!(back, matrix);
}

#[test]
fn transpose_rejects_a_target_that_cannot_hold_the_rows() {
    let matrix = Matrix::from_vectors(vec![Vector::from([1, 2, 3]), Vector::from([4, 5, 6])]);
    let wrong: Result<Matrix<i32, 3>, TensorError> = matrix.transpose();
    assert_eq!(
        wrong,
        Err(TensorError::DimensionMismatch {
            expected: "Any x 3".to_string(),
            found: "2x3".to_string(),
            operation: "Transpose".to_string(),
        })
    );
}

#[test]
fn matrix_addition_commutes_and_associates() {
    let a = Matrix::from_vectors(vec![Vector::from([1, -2]), Vector::from([3, 4])]);
    let b = Matrix::from_vectors(vec![Vector::from([10, 20]), Vector::from([-30, 40])]);
    let c = Matrix::from_vectors(vec![Vector::from([7, 7]), Vector::from([0, -1])]);
    let ab = (a.clone() + b.clone()).unwrap();
    let ba = (b.clone() + a.clone()).unwrap();
    assert_eq!(ab, ba);
    let left = (ab + c.clone()).unwrap();
    let right = (a + (b + c).unwrap()).unwrap();
    assert_eq!(left, right);
    assert_eq!(left, Matrix::from_vectors(vec![Vector::from([18, 25]), Vector::from([-27, 43])]));
}

#[test]
fn matrix_addition_mismatch_names_both_shapes() {
    let a = Matrix::<i32, 2>::new(2);
    let b = Matrix::<i32, 2>::new(5);
    assert_eq!(
        a + b,
        Err(TensorError::DimensionMismatch {
            expected: "2x2".to_string(),
            found: "5x2".to_string(),
            operation: "Matrix addition".to_string(),
        })
    );
}

#[test]
fn hadamard_product_multiplies_position_by_position() {
    let a = Matrix::from_vectors(vec![Vector::from([1, 2]), Vector::from([3, 4])]);
    let b = Matrix::from_vectors(vec![Vector::from([5, 6]), Vector::from([7, 8])]);
    assert_eq!(
        a.hadamard_product(&b).unwrap(),
        Matrix::from_vectors(vec![Vector::from([5, 12]), Vector::from([21, 32])])
    );
    let short = Matrix::<i32, 2>::new(1);
    assert_eq!(
        a.hadamard_product(&short),
        Err(TensorError::DimensionMismatch {
            expected: "2x2".to_string(),
            found: "1x2".to_string(),
            operation: "Hadamard product".to_string(),
        })
    );
}

#[test]
fn matrix_scalar_mul_scales_every_element() {
    let a = Matrix::from_vectors(vec![Vector::from([1, -2]), Vector::from([3, 0])]);
    assert_eq!(
        a.scalar_mul(-3),
        Matrix::from_vectors(vec![Vector::from([-3, 6]), Vector::from([-9, 0])])
    );
}

#[test]
fn checked_access_reports_index_and_size() {
    let mut m = Matrix::from_vectors(vec![Vector::from([1, 2, 3]), Vector::from([4, 5, 6])]);
    assert_eq!(m.get(1).unwrap(), &Vector::from([4, 5, 6]));
    assert_eq!(
        m.get(2).unwrap_err(),
        TensorError::OutOfBounds { index: "2".to_string(), size: "2".to_string() }
    );
    assert_eq!(
        m.get_mut(12).unwrap_err(),
        TensorError::OutOfBounds { index: "12".to_string(), size: "2".to_string() }
    );
    assert_eq!(m.get_at(1, 2), Ok(&6));
    assert_eq!(
        m.get_at(5, 9).unwrap_err(),
        TensorError::OutOfBounds { index: "5".to_string(), size: "2".to_string() }
    );
    assert_eq!(
        m.get_at(1, 3).unwrap_err(),
        TensorError::OutOfBounds { index: "3".to_string(), size: "3".to_string() }
    );
    *m.get_at_mut(0, 1).unwrap() = 20;
    *m.get_mut(1).unwrap() = Vector::from([7, 8, 9]);
    *m.index_mut(0).index_mut(2) = 30;
    assert_eq!(m, Matrix::from_vectors(vec![Vector::from([1, 20, 30]), Vector::from([7, 8, 9])]));
    assert_eq!(
        m.get_at_mut(0, 100).unwrap_err(),
        TensorError::OutOfBounds { index: "100".to_string(), size: "3".to_string() }
    );
}

#[test]
fn new_matrix_is_zero_filled() {
    let m = Matrix::<i64, 2>::new(3);
    assert_eq!(m.shape(), (3, 2));
    assert_eq!(
        m,
        Matrix::from_vectors(vec![Vector::from([0, 0]), Vector::from([0, 0]), Vector::from([0, 0])])
    );
}
