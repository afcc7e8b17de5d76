use tensor_algebra_in_rust::error::TensorError;
use tensor_algebra_in_rust::format::{decimal_string, shape_string};
use tensor_algebra_in_rust::tensor::{AllowedNumericTypes, Matrix, Tensor, Vector};

#[test]
fn vector_reductions() {
    let v = Vector::from([1, -2, 3, 4, 5]);
    assert_eq!(v.sum(), 11);
    assert_eq!(v.mean(), 2); // (1-2+3+4+5)/5 = 11/5 = 2 in integer arithmetic
    assert_eq!(v.max(), 5);
    assert_eq!(v.min(), -2);
    assert_eq!(v.argmax(), 4); // index of max value 5
}

#[test]
fn vector_map_and_zip_map() {
    let v = Vector::from([1, 2, 3]);
    let mapped = v.map(|&x| x * x);
    assert_eq!(mapped, Vector::from([1, 4, 9]));

    let v2 = Vector::from([10, 20, 30]);
    let zipped = v.zip_map(&v2, |&x, &y| x + y);
    assert_eq!(zipped, Vector::from([11, 22, 33]));
}

#[test]
fn matrix_row_and_col_views() {
    let m = Matrix::from_vectors(vec![Vector::from([1, 2, 3]), Vector::from([4, 5, 6])]);
    assert_eq!(m.row(0), &[1, 2, 3]);
    assert_eq!(m.row(1), &[4, 5, 6]);

    let col1: Vec<&i32> = m.col(1);
    assert_eq!(col1, vec![&2, &5]);
}

#[test]
fn matrix_reductions() {
    let m = Matrix::from_vectors(vec![Vector::from([1, -2, 3]), Vector::from([4, 5, -6])]);
    assert_eq!(m.sum(), 5);
    assert_eq!(m.mean(), 0); // (1-2+3+4+5-6)/6 = 5/6 = 0 in integer arithmetic
    assert_eq!(m.max(), 5);
    assert_eq!(m.min(), -6);
    assert_eq!(m.argmax(), (1, 1)); // index of max value 5
}

#[test]
fn argmax_and_extremes_take_the_first_of_equals() {
    let v = Vector::from([3u32, 9, 2, 9, 1, 1]);
    assert_eq!(v.argmax(), 1);
    assert_eq!(v.max(), 9);
    assert_eq!(v.min(), 1);
    let m = Matrix::from_vectors(vec![
        Vector::from([1, 7, 7]),
        Vector::from([7, 0, 7]),
        Vector::from([2, 2, 2]),
    ]);
    assert_eq!(m.argmax(), (0, 1));
    assert_eq!(m.max(), 7);
    assert_eq!(m.min(), 0);
}

#[test]
fn reductions_of_nothing_are_zero() {
    let v = Vector::<i32, 0>::new();
    assert!(v.is_empty());
    assert_eq!(v.len(), 0);
    assert_eq!(v.sum(), 0);
    assert_eq!(v.max(), 0);
    assert_eq!(v.min(), 0);
    assert_eq!(v.argmax(), 0);
    let m = Matrix::<i32, 3>::new(0);
    assert_eq!(m.sum(), 0);
    assert_eq!(m.max(), 0);
    assert_eq!(m.min(), 0);
    assert_eq!(m.argmax(), (0, 0));
}

#[test]
fn vector_division_stops_at_the_first_zero_divisor() {
    let a = Vector::from([8, 9, 10]);
    assert_eq!(a.clone() / Vector::from([2, 3, 5]), Ok(Vector::from([4, 3, 2])));
    assert_eq!(a.clone() / Vector::from([2, 3, 0]), Err(TensorError::DivisionByZero));
    assert_eq!(a.clone() / Vector::from([0, 0, 0]), Err(TensorError::DivisionByZero));
    assert_eq!(a.scalar_div(3), Ok(Vector::from([2, 3, 3])));
    assert_eq!(a.scalar_div(0), Err(TensorError::DivisionByZero));
    // Signed division rounds toward zero.
    assert_eq!(Vector::from([-7, 7]) / Vector::from([2, -2]), Ok(Vector::from([-3, -3])));
}

#[test]
fn vector_from_slice_checks_the_length() {
    let v: Vector<u64, 3> = Vector::from_slice(&[4, 5, 6]).unwrap();
    assert_eq!(v, Vector::from([4, 5, 6]));
    assert_eq!(v.len(), 3);
    assert!(!v.is_empty());
    let short: Result<Vector<u64, 3>, TensorError> = Vector::from_slice(&[4, 5]);
    assert_eq!(
        short,
        Err(TensorError::DimensionMismatch {
            expected: "3".to_string(),
            found: "2".to_string(),
            operation: "Vector::from_slice".to_string(),
        })
    );
    let long: Result<Vector<u64, 0>, TensorError> = Vector::from_slice(&[1; 11]);
    assert_eq!(
        long,
        Err(TensorError::DimensionMismatch {
            expected: "0".to_string(),
            found: "11".to_string(),
            operation: "Vector::from_slice".to_string(),
        })
    );
}

#[test]
fn vector_constructors_and_access() {
    let zero = Vector::<i32, 4>::new();
    assert_eq!(zero, Vector::from([0, 0, 0, 0]));
    assert_eq!(Vector::<i32, 4>::default(), zero);
    let mut v = Vector::from([5, 6, 7]);
    assert_eq!(v[2], 7);
    *v.index_mut(0) = 50;
    assert_eq!(v.as_slice(), &[50, 6, 7]);
    let seen: Vec<i32> = v.iter().copied().collect();
    assert_eq!(seen, vec![50, 6, 7]);
    assert_eq!(v.clone(), v);
}

#[test]
fn mean_divides_by_the_count() {
    assert_eq!(Vector::from([10u32, 20, 31]).mean(), 20);
    assert_eq!(Vector::from([-10i64, -20, -31]).mean(), -20);
    let m = Matrix::from_vectors(vec![Vector::from([4u64, 4]), Vector::from([4, 5])]);
    assert_eq!(m.mean(), 4);
}

#[test]
fn numeric_types_know_their_constants() {
    assert_eq!(<i32 as AllowedNumericTypes>::zero(), 0);
    assert_eq!(<i64 as AllowedNumericTypes>::one(), 1);
    assert!(AllowedNumericTypes::is_zero(&0u32));
    assert!(!AllowedNumericTypes::is_zero(&3u64));
    assert_eq!(AllowedNumericTypes::abs(-5i32), 5);
    assert_eq!(AllowedNumericTypes::abs(5i64), 5);
    assert_eq!(AllowedNumericTypes::abs(5u32), 5);
    assert_eq!(<i32 as AllowedNumericTypes>::from_usize(7), Some(7));
    assert_eq!(<u32 as AllowedNumericTypes>::from_usize(0), Some(0));
    assert_eq!(<u64 as AllowedNumericTypes>::from_usize(usize::MAX), Some(usize::MAX as u64));
    if usize::MAX as u64 > i32::MAX as u64 {
        assert_eq!(<i32 as AllowedNumericTypes>::from_usize(i32::MAX as usize + 1), None);
        assert_eq!(
            <i32 as AllowedNumericTypes>::from_usize(i32::MAX as usize),
            Some(i32::MAX)
        );
    }
}

#[test]
fn tensor_access_is_checked() {
    let mut t = Tensor::<i32, 2>::new(2, 3);
    assert_eq!(t.get(1).unwrap(), &Matrix::<i32, 2>::new(3));
    assert_eq!(
        t.get(2).unwrap_err(),
        TensorError::OutOfBounds { index: "2".to_string(), size: "2".to_string() }
    );
    assert_eq!(
        t.get_mut(40).unwrap_err(),
        TensorError::OutOfBounds { index: "40".to_string(), size: "2".to_string() }
    );
    *t.get_mut(0).unwrap().get_at_mut(2, 1).unwrap() = 5;
    *t.index_mut(1).get_at_mut(0, 0).unwrap() = -1;
    let scaled = t.scalar_mul(3);
    assert_eq!(scaled.shape(), (2, 3, 2));
    assert_eq!(scaled[0].get_at(2, 1), Ok(&15));
    assert_eq!(scaled[1].get_at(0, 0), Ok(&-3));
    assert_eq!(scaled[1].get_at(1, 1), Ok(&0));
    assert_eq!(t.clone(), t);
}

#[test]
fn sizes_are_written_in_decimal() {
    assert_eq!(decimal_string(0), "0");
    assert_eq!(decimal_string(7), "7");
    assert_eq!(decimal_string(10), "10");
    assert_eq!(decimal_string(4096), "4096");
    assert_eq!(decimal_string(usize::MAX), usize::MAX.to_string());
    assert_eq!(shape_string(12, 3), "12x3");
}

#[test]
fn errors_render_as_sentences() {
    let mismatch = TensorError::dimension_mismatch("2x3".to_string(), "4x3".to_string(), "Op");
    assert_eq!(mismatch.message(), "Dimensions mismatched for Op: Expected 2x3, Found 4x3");
    assert_eq!(
        TensorError::out_of_bounds(9, 4).message(),
        "Index out of bounds: Tried to access 9 in a structure size 4"
    );
    assert_eq!(TensorError::DivisionByZero.message(), "Attempted to divide by 0");
    assert_eq!(
        TensorError::InvalidOperation("no".to_string()).message(),
        "Invalid operation: no"
    );
    assert_eq!(
        TensorError::Other("odd".to_string()).message(),
        "An unexpected error occurred: odd"
    );
}

#[test]
fn dot_and_scalar_ops_on_unsigned() {
    let a = Vector::from([1u64, 2, 3, 4]);
    let b = Vector::from([10u64, 20, 30, 40]);
    assert_eq!(a.dot(&b), 300);
    assert_eq!(a.scalar_add(5), Vector::from([6, 7, 8, 9]));
    assert_eq!(b.scalar_mul(2), Vector::from([20, 40, 60, 80]));
    assert_eq!(b.clone() - a.clone(), Vector::from([9, 18, 27, 36]));
    assert_eq!(a * b, Vector::from([10, 40, 90, 160]));
}
