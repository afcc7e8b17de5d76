//! The error vocabulary shared by every fallible operation.

use vstd::prelude::*;
use vstd::string::StringExecFns;

verus! {

/// Why an operation failed. The fields carry text for diagnostics only.
#[derive(Debug, PartialEq)]
pub enum TensorError {
    DimensionMismatch { expected: String, found: String, operation: String },
    OutOfBounds { index: String, size: String },
    DivisionByZero,
    InvalidOperation(String),
    Other(String),
}

impl TensorError {
    /// `self` reports that `index` was asked of a structure of `size` items.
    pub open spec fn is_out_of_bounds(self, index: nat, size: nat) -> bool {
        self matches TensorError::OutOfBounds { index: i, size: s } && i@
            == crate::format::decimal(index) && s@ == crate::format::decimal(size)
    }

    /// `self` reports a shape mismatch with exactly these three texts.
    pub open spec fn is_dimension_mismatch(
        self,
        expected: Seq<char>,
        found: Seq<char>,
        operation: Seq<char>,
    ) -> bool {
        self matches TensorError::DimensionMismatch { expected: e, found: f, operation: o } && e@
            == expected && f@ == found && o@ == operation
    }

    /// The sentence that describes `self`.
    pub open spec fn message_text(self) -> Seq<char> {
        match self {
            TensorError::DimensionMismatch { expected, found, operation } => {
                "Dimensions mismatched for "@ + operation@ + ": Expected "@ + expected@
                    + ", Found "@ + found@
            },
            TensorError::OutOfBounds { index, size } => {
                "Index out of bounds: Tried to access "@ + index@ + " in a structure size "@
                    + size@
            },
            TensorError::DivisionByZero => "Attempted to divide by 0"@,
            TensorError::InvalidOperation(msg) => "Invalid operation: "@ + msg@,
            TensorError::Other(msg) => "An unexpected error occurred: "@ + msg@,
        }
    }

    /// An `OutOfBounds` error for `index` in a structure of `size` items.
    pub fn out_of_bounds(index: usize, size: usize) -> (e: TensorError)
        ensures
            e.is_out_of_bounds(index as nat, size as nat),
    {
        TensorError::OutOfBounds {
            index: crate::format::decimal_string(index),
            size: crate::format::decimal_string(size),
        }
    }

    /// A `DimensionMismatch` error carrying the three texts as given.
    pub fn dimension_mismatch(expected: String, found: String, operation: &str) -> (e: TensorError)
        ensures
            e.is_dimension_mismatch(expected@, found@, operation@),
    {
        TensorError::DimensionMismatch {
            expected,
            found,
            operation: String::from_str(operation),
        }
    }

    /// Renders `self` as a sentence.
    pub fn message(&self) -> (s: String)
        ensures
            s@ == self.message_text(),
    {
        match self {
            TensorError::DimensionMismatch { expected, found, operation } => {
                String::from_str("Dimensions mismatched for ").concat(operation.as_str()).concat(
                    ": Expected ",
                ).concat(expected.as_str()).concat(", Found ").concat(found.as_str())
            },
            TensorError::OutOfBounds { index, size } => {
                String::from_str("Index out of bounds: Tried to access ").concat(
                    index.as_str(),
                ).concat(" in a structure size ").concat(size.as_str())
            },
            TensorError::DivisionByZero => String::from_str("Attempted to divide by 0"),
            TensorError::InvalidOperation(msg) => {
                String::from_str("Invalid operation: ").concat(msg.as_str())
            },
            TensorError::Other(msg) => {
                String::from_str("An unexpected error occurred: ").concat(msg.as_str())
            },
        }
    }
}

} // verus!
