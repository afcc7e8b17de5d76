//! Vectors of a fixed length: construction, elementwise and scalar
//! arithmetic, the dot product, transforms and reductions.

use crate::error::TensorError;
use crate::tensor::{AllowedNumericTypes, Vector};
use core::ops::{Add, Div, Index, Mul, Sub};
use vstd::prelude::*;
use vstd::std_specs::convert::FromSpecImpl;
use vstd::std_specs::ops::{
    AddSpec, AddSpecImpl, DivSpec, DivSpecImpl, MulSpec, MulSpecImpl, SubSpec, SubSpecImpl,
};

verus! {

impl<T: AllowedNumericTypes, const N: usize> Vector<T, N> {
    /// The vector whose elements are `s`.
    pub open(crate) spec fn of(s: Seq<T>) -> Self {
        choose|v: Self| v@ == s
    }

    /// Two vectors with the same elements are the same vector.
    pub proof fn lemma_view_injective(a: Self, b: Self)
        requires
            a@ == b@,
        ensures
            a == b,
    {
        assert(a.data =~= b.data);
    }

    /// `of` gives back the vector that the elements were taken from.
    pub proof fn lemma_of_view(v: Self)
        ensures
            Self::of(v@) == v,
    {
        Self::lemma_view_injective(Self::of(v@), v);
    }

    /// A vector has `N` elements.
    pub proof fn lemma_len(&self)
        ensures
            self@.len() == N,
    {
    }

    /// The vector of `N` zeros.
    pub fn new() -> (r: Self)
        ensures
            r@ == Seq::new(N as nat, |i: int| T::zero_spec()),
    {
        let r = Vector { data: [T::zero();N] };
        assert(r@ =~= Seq::new(N as nat, |i: int| T::zero_spec()));
        r
    }

    /// The vector that holds the elements of `slice`, which must be `N`.
    pub fn from_slice(slice: &[T]) -> (r: Result<Self, TensorError>)
        ensures
            slice@.len() == N ==> r is Ok && r->Ok_0@ == slice@,
            slice@.len() != N ==> r is Err && r->Err_0.is_dimension_mismatch(
                crate::format::decimal(N as nat),
                crate::format::decimal(slice@.len()),
                "Vector::from_slice"@,
            ),
    {
        if slice.len() != N {
            return Err(
                TensorError::dimension_mismatch(
                    crate::format::decimal_string(N),
                    crate::format::decimal_string(slice.len()),
                    "Vector::from_slice",
                ),
            );
        }
        let mut data = [T::zero();N];
        let mut i: usize = 0;
        while i < N
            invariant
                i <= N,
                slice@.len() == N,
                forall|k: int| 0 <= k < i ==> data@[k] == slice@[k],
            decreases N - i,
        {
            data[i] = slice[i];
            i = i + 1;
        }
        let r = Vector { data };
        assert(r@ =~= slice@);
        Ok(r)
    }

    /// The number of elements, `N`.
    pub fn len(&self) -> (n: usize)
        ensures
            n == N,
            n == self@.len(),
    {
        N
    }

    /// Whether the vector has no elements.
    pub fn is_empty(&self) -> (b: bool)
        ensures
            b == (N == 0),
            b == (self@.len() == 0),
    {
        N == 0
    }

    /// The element at `index`, for writing.
    pub fn index_mut(&mut self, index: usize) -> (r: &mut T)
        requires
            index < N,
        ensures
            *r == old(self)@[index as int],
            final(self)@ == old(self)@.update(index as int, *final(r)),
    {
        &mut self.data[index]
    }

    /// The elements as a slice.
    pub fn as_slice(&self) -> (r: &[T])
        ensures
            r@ == self@,
    {
        self.data.as_slice()
    }
}

impl<T: AllowedNumericTypes, const N: usize> Vector<T, N> {
    /// An iterator over the elements, from the first to the last.
    pub fn iter(&self) -> (r: core::slice::Iter<'_, T>)
        ensures
            vstd::std_specs::slice::into_iter_elts(r) == self@,
    {
        let r = self.data.as_slice().iter();
        proof {
            broadcast use vstd::std_specs::slice::axiom_spec_slice_iter;

            assert(vstd::std_specs::slice::into_iter_elts(r) =~= self@);
        }
        r
    }

    /// Every element plus `scalar`.
    pub fn scalar_add(&self, scalar: T) -> (r: Self)
        requires
            crate::algebra::each_add_req(self@, scalar),
        ensures
            r@ == crate::algebra::each_add(self@, scalar),
    {
        let mut result = [T::zero();N];
        let mut i: usize = 0;
        while i < N
            invariant
                i <= N,
                crate::algebra::each_add_req(self@, scalar),
                forall|k: int| 0 <= k < i ==> result@[k] == self@[k].add_spec(scalar),
            decreases N - i,
        {
            proof {
                T::lemma_laws();
            }
            result[i] = self.data[i] + scalar;
            i = i + 1;
        }
        let r = Vector { data: result };
        assert(r@ =~= crate::algebra::each_add(self@, scalar));
        r
    }

    /// Every element times `scalar`.
    pub fn scalar_mul(&self, scalar: T) -> (r: Self)
        requires
            crate::algebra::each_mul_req(self@, scalar),
        ensures
            r@ == crate::algebra::each_mul(self@, scalar),
    {
        let mut result = [T::zero();N];
        let mut i: usize = 0;
        while i < N
            invariant
                i <= N,
                crate::algebra::each_mul_req(self@, scalar),
                forall|k: int| 0 <= k < i ==> result@[k] == self@[k].mul_spec(scalar),
            decreases N - i,
        {
            proof {
                T::lemma_laws();
            }
            result[i] = self.data[i] * scalar;
            i = i + 1;
        }
        let r = Vector { data: result };
        assert(r@ =~= crate::algebra::each_mul(self@, scalar));
        r
    }

    /// Every element divided by `scalar`, unless `scalar` is zero.
    pub fn scalar_div(&self, scalar: T) -> (r: Result<Self, TensorError>)
        requires
            !scalar.is_zero_spec() ==> crate::algebra::each_div_req(self@, scalar),
        ensures
            scalar.is_zero_spec() ==> r == Err::<Self, TensorError>(TensorError::DivisionByZero),
            !scalar.is_zero_spec() ==> r is Ok && r->Ok_0@ == crate::algebra::each_div(
                self@,
                scalar,
            ),
    {
        if scalar.is_zero() {
            return Err(TensorError::DivisionByZero);
        }
        let mut result = [T::zero();N];
        let mut i: usize = 0;
        while i < N
            invariant
                i <= N,
                crate::algebra::each_div_req(self@, scalar),
                forall|k: int| 0 <= k < i ==> result@[k] == self@[k].div_spec(scalar),
            decreases N - i,
        {
            proof {
                T::lemma_laws();
            }
            result[i] = self.data[i] / scalar;
            i = i + 1;
        }
        let r = Vector { data: result };
        assert(r@ =~= crate::algebra::each_div(self@, scalar));
        Ok(r)
    }

    /// The dot product with `other`: the products at each position, added
    /// up from the left.
    pub fn dot(&self, other: &Self) -> (r: T)
        requires
            crate::algebra::dot_req(self@, other@),
        ensures
            r == crate::algebra::dot_of(self@, other@),
    {
        let ghost terms = crate::algebra::zip_mul(self@, other@);
        let mut sum = T::zero();
        let mut i: usize = 0;
        proof {
            assert(terms.take(0) =~= Seq::<T>::empty());
        }
        while i < N
            invariant
                i <= N,
                terms == crate::algebra::zip_mul(self@, other@),
                crate::algebra::dot_req(self@, other@),
                sum == crate::algebra::sum_of(terms.take(i as int)),
            decreases N - i,
        {
            proof {
                T::lemma_laws();
                assert(self@[i as int].mul_req(other@[i as int]));
                crate::algebra::lemma_sum_req_prefix(terms, i + 1);
                assert(terms.take(i + 1).drop_last() =~= terms.take(i as int));
                assert(terms.take(i + 1).last() == terms[i as int]);
            }
            sum = sum + (self.data[i] * other.data[i]);
            i = i + 1;
        }
        proof {
            assert(terms.take(N as int) =~= terms);
        }
        sum
    }

    /// The vector of what `f` makes of each element.
    pub fn map<F, U>(&self, f: F) -> (r: Vector<U, N>) where
        F: Fn(&T) -> U,
        U: AllowedNumericTypes,

        requires
            forall|i: int| 0 <= i < N ==> call_requires(f, (&#[trigger] self@[i],)),
        ensures
            forall|i: int| 0 <= i < N ==> call_ensures(f, (&self@[i],), #[trigger] r@[i]),
    {
        let mut new_data = [U::zero();N];
        let mut i: usize = 0;
        while i < N
            invariant
                i <= N,
                forall|k: int| 0 <= k < N ==> call_requires(f, (&#[trigger] self@[k],)),
                forall|k: int| 0 <= k < i ==> call_ensures(f, (&self@[k],), #[trigger] new_data@[k]),
            decreases N - i,
        {
            assert(call_requires(f, (&self@[i as int],)));
            new_data[i] = f(&self.data[i]);
            i = i + 1;
        }
        Vector { data: new_data }
    }

    /// The vector of what `f` makes of each pair of elements at one position.
    pub fn zip_map<F, U>(&self, other: &Self, f: F) -> (r: Vector<U, N>) where
        F: Fn(&T, &T) -> U,
        U: AllowedNumericTypes,

        requires
            forall|i: int|
                0 <= i < N ==> call_requires(f, (&#[trigger] self@[i], &#[trigger] other@[i])),
        ensures
            forall|i: int|
                0 <= i < N ==> call_ensures(f, (&self@[i], &other@[i]), #[trigger] r@[i]),
    {
        let mut new_data = [U::zero();N];
        let mut i: usize = 0;
        while i < N
            invariant
                i <= N,
                forall|k: int|
                    0 <= k < N ==> call_requires(f, (&#[trigger] self@[k], &#[trigger] other@[k])),
                forall|k: int|
                    0 <= k < i ==> call_ensures(f, (&self@[k], &other@[k]), #[trigger] new_data@[k]),
            decreases N - i,
        {
            assert(call_requires(f, (&self@[i as int], &other@[i as int])));
            new_data[i] = f(&self.data[i], &other.data[i]);
            i = i + 1;
        }
        Vector { data: new_data }
    }

    /// The elements added up from the left, starting at zero.
    pub fn sum(&self) -> (r: T)
        requires
            crate::algebra::sum_req(self@),
        ensures
            r == crate::algebra::sum_of(self@),
    {
        let mut acc = T::zero();
        let mut i: usize = 0;
        proof {
            assert(self@.take(0) =~= Seq::<T>::empty());
        }
        while i < N
            invariant
                i <= N,
                crate::algebra::sum_req(self@),
                acc == crate::algebra::sum_of(self@.take(i as int)),
            decreases N - i,
        {
            proof {
                T::lemma_laws();
                crate::algebra::lemma_sum_req_prefix(self@, i + 1);
                assert(self@.take(i + 1).drop_last() =~= self@.take(i as int));
                assert(self@.take(i + 1).last() == self@[i as int]);
            }
            acc = acc + self.data[i];
            i = i + 1;
        }
        proof {
            assert(self@.take(N as int) =~= self@);
        }
        acc
    }

    /// The sum divided by the number of elements.
    pub fn mean(&self) -> (r: T)
        requires
            crate::algebra::sum_req(self@),
            T::from_usize_spec(N) is Some,
            crate::algebra::sum_of(self@).div_req(T::from_usize_spec(N)->Some_0),
        ensures
            r == crate::algebra::sum_of(self@).div_spec(T::from_usize_spec(N)->Some_0),
    {
        proof {
            T::lemma_laws();
        }
        let count = T::from_usize(N).unwrap();
        self.sum() / count
    }

    /// The greatest element, taken at its first position, or zero where
    /// there is no element.
    pub fn max(&self) -> (r: T)
        requires
            crate::extremes::pairwise_comparable(self@),
        ensures
            r == crate::extremes::max_of(self@),
            N > 0 ==> crate::extremes::is_first_max(self@, crate::extremes::first_max_index(self@)),
    {
        if N == 0 {
            return T::zero();
        }
        proof {
            crate::extremes::lemma_first_max_index_is_first_max(self@);
        }
        self.data[crate::extremes::first_max_position(self.data.as_slice())]
    }

    /// The least element, taken at its first position, or zero where there
    /// is no element.
    pub fn min(&self) -> (r: T)
        requires
            crate::extremes::pairwise_comparable(self@),
        ensures
            r == crate::extremes::min_of(self@),
            N > 0 ==> crate::extremes::is_first_min(self@, crate::extremes::first_min_index(self@)),
    {
        if N == 0 {
            return T::zero();
        }
        proof {
            crate::extremes::lemma_first_min_index_is_first_min(self@);
        }
        self.data[crate::extremes::first_min_position(self.data.as_slice())]
    }

    /// The first position of a greatest element, or zero where there is no
    /// element.
    pub fn argmax(&self) -> (r: usize)
        requires
            crate::extremes::pairwise_comparable(self@),
        ensures
            r == crate::extremes::first_max_index(self@),
            N > 0 ==> crate::extremes::is_first_max(self@, r as int),
    {
        proof {
            if N > 0 {
                crate::extremes::lemma_first_max_index_is_first_max(self@);
            }
        }
        crate::extremes::first_max_position(self.data.as_slice())
    }
}

impl<T: AllowedNumericTypes, const N: usize> Clone for Vector<T, N> {
    fn clone(&self) -> (r: Self)
        ensures
            r == *self,
    {
        Vector { data: self.data }
    }
}

impl<T: AllowedNumericTypes, const N: usize> Default for Vector<T, N> {
    fn default() -> (r: Self)
        ensures
            r@ == Seq::new(N as nat, |i: int| T::zero_spec()),
    {
        Self::new()
    }
}

impl<T: AllowedNumericTypes, const N: usize> FromSpecImpl<[T; N]> for Vector<T, N> {
    open spec fn obeys_from_spec() -> bool {
        true
    }

    open spec fn from_spec(data: [T; N]) -> Self {
        Self::of(data@)
    }
}

impl<T: AllowedNumericTypes, const N: usize> From<[T; N]> for Vector<T, N> {
    fn from(data: [T; N]) -> (r: Self)
        ensures
            r@ == data@,
    {
        let r = Vector { data };
        proof {
            Self::lemma_of_view(r);
        }
        r
    }
}

impl<T: AllowedNumericTypes, const N: usize> vstd::std_specs::core::IndexSpecImpl<usize> for Vector<T, N> {
    open spec fn index_req(&self, index: &usize) -> bool {
        *index < N
    }
}

impl<T: AllowedNumericTypes, const N: usize> Index<usize> for Vector<T, N> {
    type Output = T;

    fn index(&self, index: usize) -> (r: &T)
        ensures
            *r == self@[index as int],
    {
        &self.data[index]
    }
}

impl<T: AllowedNumericTypes, const N: usize> AddSpecImpl for Vector<T, N> {
    open spec fn obeys_add_spec() -> bool {
        true
    }

    open spec fn add_req(self, rhs: Self) -> bool {
        crate::algebra::zip_add_req(self@, rhs@)
    }

    open spec fn add_spec(self, rhs: Self) -> Self {
        Self::of(crate::algebra::zip_add(self@, rhs@))
    }
}

impl<T: AllowedNumericTypes, const N: usize> Add for Vector<T, N> {
    type Output = Self;

    /// The elementwise sum.
    fn add(self, rhs: Self) -> (r: Self)
        ensures
            r@ == crate::algebra::zip_add(self@, rhs@),
            r@.len() == N,
    {
        let mut result = [T::zero();N];
        let mut i: usize = 0;
        while i < N
            invariant
                i <= N,
                crate::algebra::zip_add_req(self@, rhs@),
                forall|k: int| 0 <= k < i ==> result@[k] == self@[k].add_spec(rhs@[k]),
            decreases N - i,
        {
            proof {
                T::lemma_laws();
            }
            result[i] = self.data[i] + rhs.data[i];
            i = i + 1;
        }
        let r = Vector { data: result };
        proof {
            assert(r@ =~= crate::algebra::zip_add(self@, rhs@));
            Self::lemma_of_view(r);
        }
        r
    }
}

impl<T: AllowedNumericTypes, const N: usize> SubSpecImpl for Vector<T, N> {
    open spec fn obeys_sub_spec() -> bool {
        true
    }

    open spec fn sub_req(self, rhs: Self) -> bool {
        crate::algebra::zip_sub_req(self@, rhs@)
    }

    open spec fn sub_spec(self, rhs: Self) -> Self {
        Self::of(crate::algebra::zip_sub(self@, rhs@))
    }
}

impl<T: AllowedNumericTypes, const N: usize> Sub for Vector<T, N> {
    type Output = Self;

    /// The elementwise difference.
    fn sub(self, rhs: Self) -> (r: Self)
        ensures
            r@ == crate::algebra::zip_sub(self@, rhs@),
            r@.len() == N,
    {
        let mut result = [T::zero();N];
        let mut i: usize = 0;
        while i < N
            invariant
                i <= N,
                crate::algebra::zip_sub_req(self@, rhs@),
                forall|k: int| 0 <= k < i ==> result@[k] == self@[k].sub_spec(rhs@[k]),
            decreases N - i,
        {
            proof {
                T::lemma_laws();
            }
            result[i] = self.data[i] - rhs.data[i];
            i = i + 1;
        }
        let r = Vector { data: result };
        proof {
            assert(r@ =~= crate::algebra::zip_sub(self@, rhs@));
            Self::lemma_of_view(r);
        }
        r
    }
}

impl<T: AllowedNumericTypes, const N: usize> MulSpecImpl for Vector<T, N> {
    open spec fn obeys_mul_spec() -> bool {
        true
    }

    open spec fn mul_req(self, rhs: Self) -> bool {
        crate::algebra::zip_mul_req(self@, rhs@)
    }

    open spec fn mul_spec(self, rhs: Self) -> Self {
        Self::of(crate::algebra::zip_mul(self@, rhs@))
    }
}

impl<T: AllowedNumericTypes, const N: usize> Mul for Vector<T, N> {
    type Output = Self;

    /// The elementwise product.
    fn mul(self, rhs: Self) -> (r: Self)
        ensures
            r@ == crate::algebra::zip_mul(self@, rhs@),
            r@.len() == N,
    {
        let mut result = [T::zero();N];
        let mut i: usize = 0;
        while i < N
            invariant
                i <= N,
                crate::algebra::zip_mul_req(self@, rhs@),
                forall|k: int| 0 <= k < i ==> result@[k] == self@[k].mul_spec(rhs@[k]),
            decreases N - i,
        {
            proof {
                T::lemma_laws();
            }
            result[i] = self.data[i] * rhs.data[i];
            i = i + 1;
        }
        let r = Vector { data: result };
        proof {
            assert(r@ =~= crate::algebra::zip_mul(self@, rhs@));
            Self::lemma_of_view(r);
        }
        r
    }
}

impl<T: AllowedNumericTypes, const N: usize> DivSpecImpl for Vector<T, N> {
    open spec fn obeys_div_spec() -> bool {
        true
    }

    open spec fn div_req(self, rhs: Self) -> bool {
        crate::algebra::zip_div_req(self@, rhs@)
    }

    open spec fn div_spec(self, rhs: Self) -> Result<Self, TensorError> {
        if crate::algebra::has_zero(rhs@) {
            Err(TensorError::DivisionByZero)
        } else {
            Ok(Self::of(crate::algebra::zip_div(self@, rhs@)))
        }
    }
}

impl<T: AllowedNumericTypes, const N: usize> Div for Vector<T, N> {
    type Output = Result<Self, TensorError>;

    /// The elementwise quotient, unless a divisor is zero.
    fn div(self, rhs: Self) -> (r: Result<Self, TensorError>)
        ensures
            crate::algebra::has_zero(rhs@) ==> r == Err::<Self, TensorError>(
                TensorError::DivisionByZero,
            ),
            !crate::algebra::has_zero(rhs@) ==> r is Ok && r->Ok_0@ == crate::algebra::zip_div(
                self@,
                rhs@,
            ) && r->Ok_0@.len() == N,
            r is Err <==> crate::algebra::has_zero(rhs@),
    {
        let mut result = [T::zero();N];
        let mut i: usize = 0;
        while i < N
            invariant
                i <= N,
                crate::algebra::zip_div_req(self@, rhs@),
                crate::algebra::no_zero_before(rhs@, i as int),
                forall|k: int| 0 <= k < i ==> result@[k] == self@[k].div_spec(rhs@[k]),
            decreases N - i,
        {
            if rhs.data[i].is_zero() {
                assert(rhs@[i as int].is_zero_spec());
                return Err(TensorError::DivisionByZero);
            }
            proof {
                T::lemma_laws();
                assert(crate::algebra::no_zero_before(rhs@, i + 1));
            }
            result[i] = self.data[i] / rhs.data[i];
            i = i + 1;
        }
        let r = Vector { data: result };
        proof {
            assert(r@ =~= crate::algebra::zip_div(self@, rhs@));
            Self::lemma_of_view(r);
        }
        Ok(r)
    }
}

} // verus!
