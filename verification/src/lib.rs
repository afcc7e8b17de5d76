//! Fixed-dimension vectors, matrices and three-axis tensors over a closed set
//! of numeric element types, with contracts that state what every operation
//! returns and when it fails.
//!
//! Shapes follow one convention:
//! - `Vector<T, N>` has length `N`;
//! - `Matrix<T, N>` has shape `(rows, N)`;
//! - `Tensor<T, N>` has shape `(depths, rows, N)`.

pub mod algebra;
pub mod arithmetic;
pub mod determinant;
pub mod error;
pub mod extremes;
pub mod format;
pub mod matrix;
pub mod numeric;
pub mod order;
pub mod prelude;
pub mod tensor;
pub mod tensor_impl;
pub mod vector;
