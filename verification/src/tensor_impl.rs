//! Tensors of three axes: construction, shape, checked access to a depth
//! slice, and multiplication by a scalar.

use crate::error::TensorError;
use crate::tensor::{AllowedNumericTypes, Matrix, Tensor};
use core::ops::Index;
use vstd::prelude::*;

verus! {

/// Every element of every depth slice can be multiplied by `s`.
pub open spec fn slices_each_mul_req<T: AllowedNumericTypes>(t: Seq<Seq<Seq<T>>>, s: T) -> bool {
    forall|d: int| 0 <= d < t.len() ==> crate::algebra::rows_each_mul_req(#[trigger] t[d], s)
}

/// Every element of every depth slice times `s`.
pub open spec fn slices_each_mul<T: AllowedNumericTypes>(t: Seq<Seq<Seq<T>>>, s: T) -> Seq<
    Seq<Seq<T>>,
> {
    Seq::new(t.len(), |d: int| crate::algebra::rows_each_mul(t[d], s))
}

impl<T: AllowedNumericTypes, const N: usize> Tensor<T, N> {
    /// The tensor of `depths` slices of `rows` rows of zeros.
    pub fn new(depths: usize, rows: usize) -> (r: Self)
        ensures
            r@ == Seq::new(
                depths as nat,
                |d: int|
                    Seq::new(rows as nat, |i: int| Seq::new(N as nat, |j: int| T::zero_spec())),
            ),
            r.row_count() == rows,
            r.is_uniform(),
    {
        let mut data: Vec<Matrix<T, N>> = Vec::with_capacity(depths);
        let mut d: usize = 0;
        while d < depths
            invariant
                d <= depths,
                data@.len() == d,
                forall|k: int|
                    0 <= k < d ==> (#[trigger] data@[k])@ == Seq::new(
                        rows as nat,
                        |i: int| Seq::new(N as nat, |j: int| T::zero_spec()),
                    ),
            decreases depths - d,
        {
            data.push(Matrix::new(rows));
            d = d + 1;
        }
        let r = Tensor { data, depths, rows };
        assert(r@ =~= Seq::new(
            depths as nat,
            |d: int| Seq::new(rows as nat, |i: int| Seq::new(N as nat, |j: int| T::zero_spec())),
        ));
        r
    }

    /// The number of depth slices, of rows and of columns.
    pub fn shape(&self) -> (r: (usize, usize, usize))
        ensures
            r.0 == self@.len(),
            r.1 == self.row_count(),
            r.2 == N,
    {
        proof {
            use_type_invariant(self);
        }
        (self.depths, self.rows, N)
    }

    /// The slice at `depth`, or `OutOfBounds` where there is none.
    pub fn get(&self, depth: usize) -> (r: Result<&Matrix<T, N>, TensorError>)
        ensures
            depth < self@.len() ==> r is Ok && r->Ok_0@ == self@[depth as int],
            depth >= self@.len() ==> r is Err && r->Err_0.is_out_of_bounds(
                depth as nat,
                self@.len(),
            ),
    {
        proof {
            use_type_invariant(self);
        }
        if depth >= self.depths {
            return Err(TensorError::out_of_bounds(depth, self.depths));
        }
        Ok(&self.data[depth])
    }

    /// The slice at `depth` for writing, or `OutOfBounds` where there is
    /// none. Whether the tensor stays uniform is up to what is written.
    pub fn get_mut(&mut self, depth: usize) -> (r: Result<&mut Matrix<T, N>, TensorError>)
        ensures
            depth < old(self)@.len() ==> r is Ok && r->Ok_0@ == old(self)@[depth as int]
                && final(self)@ == old(self)@.update(depth as int, final(r->Ok_0)@),
            depth >= old(self)@.len() ==> r is Err && r->Err_0.is_out_of_bounds(
                depth as nat,
                old(self)@.len(),
            ) && *final(self) == *old(self),
            final(self).row_count() == old(self).row_count(),
    {
        proof {
            use_type_invariant(&*self);
        }
        if depth >= self.depths {
            return Err(TensorError::out_of_bounds(depth, self.depths));
        }
        Ok(&mut self.data[depth])
    }

    /// The slice at `index`, for writing.
    pub fn index_mut(&mut self, index: usize) -> (r: &mut Matrix<T, N>)
        requires
            index < old(self)@.len(),
        ensures
            r@ == old(self)@[index as int],
            final(self)@ == old(self)@.update(index as int, final(r)@),
            final(self).row_count() == old(self).row_count(),
    {
        proof {
            use_type_invariant(&*self);
        }
        &mut self.data[index]
    }

    /// Every element times `scalar`; the shape stays.
    pub fn scalar_mul(&self, scalar: T) -> (r: Self)
        requires
            slices_each_mul_req(self@, scalar),
        ensures
            r@ == slices_each_mul(self@, scalar),
            r.row_count() == self.row_count(),
            self.is_uniform() ==> r.is_uniform(),
    {
        proof {
            use_type_invariant(self);
        }
        let mut result_data: Vec<Matrix<T, N>> = Vec::with_capacity(self.depths);
        let mut i: usize = 0;
        while i < self.depths
            invariant
                i <= self.depths,
                self.depths == self.data@.len(),
                slices_each_mul_req(self@, scalar),
                result_data@.len() == i,
                forall|k: int|
                    0 <= k < i ==> (#[trigger] result_data@[k])@ == crate::algebra::rows_each_mul(
                        self@[k],
                        scalar,
                    ),
            decreases self.depths - i,
        {
            proof {
                assert(crate::algebra::rows_each_mul_req(self@[i as int], scalar));
            }
            result_data.push(self.data[i].scalar_mul(scalar));
            i = i + 1;
        }
        let r = Tensor { data: result_data, depths: self.depths, rows: self.rows };
        proof {
            assert(r@ =~= slices_each_mul(self@, scalar));
            if self.is_uniform() {
                assert forall|d: int| 0 <= d < r@.len() implies (#[trigger] r@[d]).len()
                    == r.row_count() by {
                    assert(self@[d].len() == self.row_count());
                }
            }
        }
        r
    }
}

impl<T: AllowedNumericTypes, const N: usize> Clone for Tensor<T, N> {
    fn clone(&self) -> (r: Self)
        ensures
            r@ == self@,
            r.row_count() == self.row_count(),
    {
        let mut data: Vec<Matrix<T, N>> = Vec::with_capacity(self.data.len());
        let mut i: usize = 0;
        while i < self.data.len()
            invariant
                i <= self.data@.len(),
                data@.len() == i,
                forall|k: int| 0 <= k < i ==> (#[trigger] data@[k])@ == self.data@[k]@,
            decreases self.data@.len() - i,
        {
            data.push(self.data[i].clone());
            i = i + 1;
        }
        proof {
            use_type_invariant(self);
        }
        let r = Tensor { data, depths: self.depths, rows: self.rows };
        assert(r@ =~= self@);
        r
    }
}

impl<T: AllowedNumericTypes, const N: usize> vstd::std_specs::core::IndexSpecImpl<usize> for Tensor<T, N> {
    open spec fn index_req(&self, index: &usize) -> bool {
        *index < self@.len()
    }
}

impl<T: AllowedNumericTypes, const N: usize> Index<usize> for Tensor<T, N> {
    type Output = Matrix<T, N>;

    fn index(&self, index: usize) -> (r: &Matrix<T, N>)
        ensures
            r@ == self@[index as int],
    {
        &self.data[index]
    }
}

} // verus!
