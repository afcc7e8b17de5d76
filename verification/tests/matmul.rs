use tensor_algebra_in_rust::prelude::{AllowedNumericTypes, Matrix, TensorError, Vector};

/// A 64-bit float as an element type, for inputs without NaN.
#[derive(Clone, Copy, Debug, PartialEq, PartialOrd)]
struct F64(f64);

impl std::ops::Add for F64 {
    type Output = F64;

    fn add(self, rhs: F64) -> F64 {
        F64(self.0 + rhs.0)
    }
}

impl std::ops::Sub for F64 {
    type Output = F64;

    fn sub(self, rhs: F64) -> F64 {
        F64(self.0 - rhs.0)
    }
}

impl std::ops::Mul for F64 {
    type Output = F64;

    fn mul(self, rhs: F64) -> F64 {
        F64(self.0 * rhs.0)
    }
}

impl std::ops::Div for F64 {
    type Output = F64;

    fn div(self, rhs: F64) -> F64 {
        F64(self.0 / rhs.0)
    }
}

impl std::ops::Neg for F64 {
    type Output = F64;

    fn neg(self) -> F64 {
        F64(-self.0)
    }
}

// The trait's specification items are compiled as ordinary functions that
// nothing calls; they mirror the executable ones.
impl AllowedNumericTypes for F64 {
    fn zero_spec() -> F64 {
        F64(0.0)
    }

    fn one_spec() -> F64 {
        F64(1.0)
    }

    fn is_zero_spec(self) -> bool {
        self.0 == 0.0
    }

    fn abs_req(self) -> bool {
        true
    }

    fn abs_spec(self) -> F64 {
        F64(self.0.abs())
    }

    fn from_usize_spec(n: usize) -> Option<F64> {
        Some(F64(n as f64))
    }

    fn lemma_laws() {}

    fn zero() -> F64 {
        F64(0.0)
    }

    fn one() -> F64 {
        F64(1.0)
    }

    fn is_zero(&self) -> bool {
        self.0 == 0.0
    }

    fn abs(self) -> F64 {
        F64(self.0.abs())
    }

    fn from_usize(n: usize) -> Option<F64> {
        Some(F64(n as f64))
    }
}

#[test]
fn i32_basic() {
    // A: 2x3
    let a = Matrix::<i32, 3>::from_vectors(vec![Vector::from([1, 2, 3]), Vector::from([4, 5, 6])]);

    // B: 3x2
    let b = Matrix::<i32, 2>::from_vectors(vec![
        Vector::from([7, 8]),
        Vector::from([9, 10]),
        Vector::from([11, 12]),
    ]);

    // C = A * B: 2x2
    let c = (&a * &b).unwrap();
    assert_eq!(c[0], Vector::from([58, 64]));
    assert_eq!(c[1], Vector::from([139, 154]));
}

#[test]
fn dimension_mismatch() {
    // A: 2x3
    let a = Matrix::<i32, 3>::from_vectors(vec![Vector::from([1, 2, 3]), Vector::from([4, 5, 6])]);

    // B_bad: 2x2 (rows do not match A's inner dimension 3)
    let b_bad = Matrix::<i32, 2>::from_vectors(vec![Vector::from([1, 0]), Vector::from([0, 1])]);

    let err = (&a * &b_bad).unwrap_err();
    match err {
        TensorError::DimensionMismatch { .. } => {}
        other => panic!("Expected DimensionMismatch, got {:?}", other),
    }
}

#[test]
fn f64_kahan_stability_sanity() {
    // Construct a case with catastrophic cancellation if summed naively:
    // [1e16, 1, 1, -1e16] dot [1, 1, -1, 1] = 0
    let a = Matrix::<F64, 4>::from_vectors(vec![Vector::from([
        F64(1e16),
        F64(1.0),
        F64(1.0),
        F64(-1e16),
    ])]); // 1x4

    // 4x1 matrix representing a column vector
    let b = Matrix::<F64, 1>::from_vectors(vec![
        Vector::from([F64(1.0)]),
        Vector::from([F64(1.0)]),
        Vector::from([F64(-1.0)]),
        Vector::from([F64(1.0)]),
    ]);

    let c = (&a * &b).unwrap(); // 1x1
    let val = c[0][0].0;
    assert!(val.abs() < 1e-6, "expected ~0, got {}", val);
}

#[test]
fn matmul_owned_and_borrowed_operands_agree() {
    let a = Matrix::<i64, 2>::from_vectors(vec![Vector::from([1, 2]), Vector::from([3, 4])]);
    let b = Matrix::<i64, 2>::from_vectors(vec![Vector::from([5, 6]), Vector::from([7, 8])]);
    let expected =
        Matrix::<i64, 2>::from_vectors(vec![Vector::from([19, 22]), Vector::from([43, 50])]);
    assert_eq!((&a * &b).unwrap(), expected);
    assert_eq!((&a * b.clone()).unwrap(), expected);
    assert_eq!((a.clone() * &b).unwrap(), expected);
    assert_eq!((a * b).unwrap(), expected);
}

#[test]
fn matmul_mismatch_names_both_shapes() {
    let a = Matrix::<u32, 3>::from_vectors(vec![Vector::from([1, 2, 3])]);
    let b = Matrix::<u32, 2>::from_vectors(vec![Vector::from([1, 0]), Vector::from([0, 1])]);
    let err = (&a * &b).unwrap_err();
    assert_eq!(
        err,
        TensorError::DimensionMismatch {
            expected: "3x2".to_string(),
            found: "2x2".to_string(),
            operation: "Matrix multiplication".to_string(),
        }
    );
}

#[test]
fn matmul_with_no_rows_on_the_left_is_empty() {
    let a = Matrix::<u64, 2>::new(0);
    let b = Matrix::<u64, 3>::from_vectors(vec![Vector::from([1, 2, 3]), Vector::from([4, 5, 6])]);
    let c = (&a * &b).unwrap();
    assert_eq!(c.shape(), (0, 3));
}
