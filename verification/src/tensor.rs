//! The element types and the three containers.

use core::ops::{Add, Div, Mul, Sub};
use vstd::prelude::*;
use vstd::std_specs::ops::{AddSpec, DivSpec, MulSpec, SubSpec};

verus! {

/// What a type must offer to be the element type of a container.
///
/// The arithmetic operators come from `core::ops`; what they return is given
/// by `add_spec`, `sub_spec`, `mul_spec` and `div_spec`, and they may be
/// applied where `add_req`, `sub_req`, `mul_req` and `div_req` hold.
pub trait AllowedNumericTypes: Sized + Copy + Add<Output = Self> + Sub<Output = Self> + Mul<
    Output = Self,
> + Div<Output = Self> + PartialEq + PartialOrd + core::fmt::Debug {
    /// The additive identity.
    spec fn zero_spec() -> Self;

    /// The multiplicative identity.
    spec fn one_spec() -> Self;

    /// Whether a value counts as zero.
    spec fn is_zero_spec(self) -> bool;

    /// Whether the absolute value can be taken.
    spec fn abs_req(self) -> bool;

    /// The absolute value.
    spec fn abs_spec(self) -> Self;

    /// The value that stands for a count of `n` items, if there is one.
    spec fn from_usize_spec(n: usize) -> Option<Self>;

    /// The additive identity.
    fn zero() -> (r: Self)
        ensures
            r == Self::zero_spec(),
    ;

    /// The multiplicative identity.
    fn one() -> (r: Self)
        ensures
            r == Self::one_spec(),
    ;

    /// Whether `self` counts as zero.
    fn is_zero(&self) -> (r: bool)
        ensures
            r == self.is_zero_spec(),
    ;

    /// The absolute value of `self`.
    fn abs(self) -> (r: Self)
        requires
            self.abs_req(),
        ensures
            r == self.abs_spec(),
    ;

    /// The value that stands for a count of `n` items, or `None` where the
    /// type has none.
    fn from_usize(n: usize) -> (r: Option<Self>)
        ensures
            r == Self::from_usize_spec(n),
    ;

    /// The operators return what their specifications say, and `<` orders
    /// comparable values as a total preorder does.
    proof fn lemma_laws()
        ensures
            Self::obeys_add_spec(),
            Self::obeys_sub_spec(),
            Self::obeys_mul_spec(),
            Self::obeys_div_spec(),
            crate::order::obeys_order::<Self>(),
            forall|a: Self, b: Self|
                #![trigger crate::order::greater(a, b)]
                #![trigger crate::order::less(b, a)]
                crate::order::greater(a, b) <==> crate::order::less(b, a),
            forall|a: Self|
                crate::order::comparable(a, a) ==> #[trigger] crate::order::at_most(a, a),
            forall|a: Self, b: Self, c: Self|
                #![trigger crate::order::at_most(a, b), crate::order::at_most(b, c)]
                crate::order::at_most(a, b) && crate::order::at_most(b, c)
                    ==> crate::order::at_most(a, c),
            forall|a: Self, b: Self, c: Self|
                #![trigger crate::order::at_most(a, b), crate::order::less(b, c)]
                crate::order::at_most(a, b) && crate::order::less(b, c) ==> crate::order::less(
                    a,
                    c,
                ),
            forall|a: Self, b: Self, c: Self|
                #![trigger crate::order::less(a, b), crate::order::at_most(b, c)]
                crate::order::less(a, b) && crate::order::at_most(b, c) ==> crate::order::less(
                    a,
                    c,
                ),
    ;
}

/// A vector of exactly `N` elements.
#[derive(Debug, PartialEq)]
pub struct Vector<T: AllowedNumericTypes, const N: usize> {
    pub(crate) data: [T; N],
}

/// A matrix of `rows` rows and `N` columns, stored row by row.
#[derive(Debug, PartialEq)]
pub struct Matrix<T: AllowedNumericTypes, const N: usize> {
    pub(crate) data: Vec<Vector<T, N>>,
    pub(crate) rows: usize,
}

/// A tensor of `depths` slices, each a matrix of `rows` rows and `N` columns.
#[derive(Debug, PartialEq)]
pub struct Tensor<T: AllowedNumericTypes, const N: usize> {
    pub(crate) data: Vec<Matrix<T, N>>,
    pub(crate) depths: usize,
    pub(crate) rows: usize,
}

impl<T: AllowedNumericTypes, const N: usize> View for Vector<T, N> {
    type V = Seq<T>;

    /// The elements, in order.
    open(crate) spec fn view(&self) -> Seq<T> {
        self.data@
    }
}

impl<T: AllowedNumericTypes, const N: usize> View for Matrix<T, N> {
    type V = Seq<Seq<T>>;

    /// The rows, in order, each as its elements.
    open(crate) spec fn view(&self) -> Seq<Seq<T>> {
        Seq::new(self.data@.len(), |i: int| self.data@[i]@)
    }
}

impl<T: AllowedNumericTypes, const N: usize> Matrix<T, N> {
    /// The stored row count is the number of rows held.
    #[verifier::type_invariant]
    pub open(crate) spec fn well_formed(&self) -> bool {
        self.rows == self.data@.len()
    }
}

impl<T: AllowedNumericTypes, const N: usize> View for Tensor<T, N> {
    type V = Seq<Seq<Seq<T>>>;

    /// The depth slices, in order, each as its rows.
    open(crate) spec fn view(&self) -> Seq<Seq<Seq<T>>> {
        Seq::new(self.data@.len(), |d: int| self.data@[d]@)
    }
}

impl<T: AllowedNumericTypes, const N: usize> Tensor<T, N> {
    /// The stored depth count is the number of slices held.
    #[verifier::type_invariant]
    pub open(crate) spec fn well_formed(&self) -> bool {
        self.depths == self.data@.len()
    }

    /// The number of rows that the tensor was made with.
    pub open(crate) spec fn row_count(&self) -> nat {
        self.rows as nat
    }

    /// Every depth slice has `row_count()` rows.
    pub open spec fn is_uniform(&self) -> bool {
        forall|d: int| 0 <= d < self@.len() ==> (#[trigger] self@[d]).len() == self.row_count()
    }
}

} // verus!
