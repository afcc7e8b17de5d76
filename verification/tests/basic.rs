use tensor_algebra_in_rust::error::TensorError;
use tensor_algebra_in_rust::tensor::{Matrix, Tensor, Vector};

#[test]
fn vector_elementwise_ops_and_scalar_ops() {
    let a = Vector::from([1, 2, 3]);
    let b = Vector::from([4, 5, 6]);

    // elementwise add, sub, mul
    let c = a + b;
    assert_eq!(c, Vector::from([5, 7, 9]));

    let d = c - Vector::from([1, 1, 1]);
    assert_eq!(d, Vector::from([4, 6, 8]));

    let e = d * Vector::from([2, 0, 3]);
    assert_eq!(e, Vector::from([8, 0, 24]));

    // scalar ops
    let f = e.scalar_add(1);
    assert_eq!(f, Vector::from([9, 1, 25]));

    let g = f.scalar_mul(2);
    assert_eq!(g, Vector::from([18, 2, 50]));

    let h = g.scalar_div(2).unwrap();
    assert_eq!(h, Vector::from([9, 1, 25]));

    // dot product
    let x = Vector::from([1, 2, 3]);
    let y = Vector::from([4, 5, 6]);
    assert_eq!(x.dot(&y), 32);
}

#[test]
fn vector_division_by_zero_errors() {
    let a = Vector::from([1, 2, 3]);
    let z = Vector::from([1, 0, 1]);

    assert_eq!(a.clone() / z, Err(TensorError::DivisionByZero));
    assert!(a.scalar_div(0).is_err());
}

#[test]
fn matrix_add_and_shape_and_mat_vec_mul() {
    type T = i32;
    const N: usize = 3;

    let m1 = Matrix::<T, N>::from_vectors(vec![Vector::from([1, 2, 3]), Vector::from([4, 5, 6])]);
    let m2 =
        Matrix::<T, N>::from_vectors(vec![Vector::from([7, 8, 9]), Vector::from([10, 11, 12])]);

    assert_eq!(m1.shape(), (2, N));

    let sum = (m1.clone() + m2.clone()).unwrap();
    assert_eq!(sum[0], Vector::from([8, 10, 12]));
    assert_eq!(sum[1], Vector::from([14, 16, 18]));

    // matrix-vector multiplication
    let v = Vector::from([1, 1, 1]);
    let res = m1.mat_vec_mul(&v).unwrap();
    assert_eq!(res, vec![6, 15]);

    // dimension mismatch error for addition
    let m3 = Matrix::<T, N>::from_vectors(vec![Vector::from([0, 0, 0])]);
    let err = (m1 + m3).unwrap_err();
    match err {
        TensorError::DimensionMismatch { .. } => {}
        _ => panic!("expected DimensionMismatch"),
    }
}

#[test]
fn tensor_scalar_mul_and_shape_and_bounds() {
    type T = i32;
    const N: usize = 2;

    let t = Tensor::<T, N>::new(2, 3);
    assert_eq!(t.shape(), (2, 3, N));

    let t2 = t.scalar_mul(2);
    assert_eq!(t2.shape(), (2, 3, N));

    // out of bounds check
    assert!(t.get(2).is_err());
}
