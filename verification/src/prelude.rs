//! The names that most callers need.

pub use crate::error::TensorError;
pub use crate::tensor::{AllowedNumericTypes, Matrix, Tensor, Vector};
