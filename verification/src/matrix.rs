//! Matrices with a fixed number of columns: construction, checked and
//! unchecked access, elementwise arithmetic, reductions, transpose,
//! determinant and row swap.

use crate::error::TensorError;
use crate::tensor::{AllowedNumericTypes, Matrix, Vector};
use core::ops::{Add, Index};
use vstd::prelude::*;
use vstd::std_specs::ops::{AddSpecImpl, DivSpec};
use vstd::string::StringExecFns;

verus! {

impl<T: AllowedNumericTypes, const N: usize> Matrix<T, N> {
    /// Every row of a matrix has `N` elements.
    pub proof fn lemma_row_len(&self, i: int)
        requires
            0 <= i < self@.len(),
        ensures
            self@[i].len() == N,
    {
    }

    /// The matrix of `rows` rows of zeros.
    pub fn new(rows: usize) -> (r: Self)
        ensures
            r@ == Seq::new(rows as nat, |i: int| Seq::new(N as nat, |j: int| T::zero_spec())),
    {
        let mut data: Vec<Vector<T, N>> = Vec::with_capacity(rows);
        let mut i: usize = 0;
        while i < rows
            invariant
                i <= rows,
                data@.len() == i,
                forall|k: int|
                    0 <= k < i ==> (#[trigger] data@[k])@ == Seq::new(
                        N as nat,
                        |j: int| T::zero_spec(),
                    ),
            decreases rows - i,
        {
            data.push(Vector::new());
            i = i + 1;
        }
        let r = Matrix { data, rows };
        assert(r@ =~= Seq::new(rows as nat, |i: int| Seq::new(N as nat, |j: int| T::zero_spec())));
        r
    }

    /// The matrix whose rows are `vectors`, in order.
    pub fn from_vectors(vectors: Vec<Vector<T, N>>) -> (r: Self)
        ensures
            r@ == Seq::new(vectors@.len(), |i: int| vectors@[i]@),
    {
        let rows = vectors.len();
        Matrix { data: vectors, rows }
    }

    /// The number of rows and the number of columns.
    pub fn shape(&self) -> (r: (usize, usize))
        ensures
            r.0 == self@.len(),
            r.1 == N,
    {
        proof {
            use_type_invariant(self);
        }
        (self.rows, N)
    }

    /// The row at `row`, or `OutOfBounds` where there is none.
    pub fn get(&self, row: usize) -> (r: Result<&Vector<T, N>, TensorError>)
        ensures
            row < self@.len() ==> r is Ok && r->Ok_0@ == self@[row as int],
            row >= self@.len() ==> r is Err && r->Err_0.is_out_of_bounds(
                row as nat,
                self@.len(),
            ),
    {
        proof {
            use_type_invariant(self);
        }
        if row >= self.rows {
            return Err(TensorError::out_of_bounds(row, self.rows));
        }
        Ok(&self.data[row])
    }

    /// The row at `row` for writing, or `OutOfBounds` where there is none.
    pub fn get_mut(&mut self, row: usize) -> (r: Result<&mut Vector<T, N>, TensorError>)
        ensures
            row < old(self)@.len() ==> r is Ok && r->Ok_0@ == old(self)@[row as int]
                && final(self)@ == old(self)@.update(row as int, final(r->Ok_0)@),
            row >= old(self)@.len() ==> r is Err && r->Err_0.is_out_of_bounds(
                row as nat,
                old(self)@.len(),
            ) && *final(self) == *old(self),
    {
        proof {
            use_type_invariant(&*self);
        }
        if row >= self.rows {
            return Err(TensorError::out_of_bounds(row, self.rows));
        }
        Ok(&mut self.data[row])
    }

    /// The elements of row `i`.
    pub fn row(&self, i: usize) -> (r: &[T])
        requires
            i < self@.len(),
        ensures
            r@ == self@[i as int],
    {
        self.data[i].as_slice()
    }

    /// The elements of column `j`, from the first row to the last.
    pub fn col(&self, j: usize) -> (r: Vec<&T>)
        requires
            j < N,
        ensures
            r@.len() == self@.len(),
            forall|i: int| 0 <= i < self@.len() ==> *(#[trigger] r@[i]) == self@[i][j as int],
    {
        let mut out: Vec<&T> = Vec::with_capacity(self.data.len());
        let mut i: usize = 0;
        while i < self.data.len()
            invariant
                i <= self.data@.len(),
                j < N,
                out@.len() == i,
                forall|k: int| 0 <= k < i ==> *(#[trigger] out@[k]) == self@[k][j as int],
            decreases self.data@.len() - i,
        {
            out.push(&self.data[i][j]);
            i = i + 1;
        }
        out
    }

    /// The row at `index`, for writing.
    pub fn index_mut(&mut self, index: usize) -> (r: &mut Vector<T, N>)
        requires
            index < old(self)@.len(),
        ensures
            r@ == old(self)@[index as int],
            final(self)@ == old(self)@.update(index as int, final(r)@),
    {
        proof {
            use_type_invariant(&*self);
        }
        &mut self.data[index]
    }

    /// Exchanges the rows at `row1` and `row2`, or reports the first of the
    /// two that is out of bounds and changes nothing.
    pub fn swap_rows(&mut self, row1: usize, row2: usize) -> (r: Result<(), TensorError>)
        ensures
            row1 < old(self)@.len() && row2 < old(self)@.len() ==> r is Ok && final(self)@
                == old(self)@.update(row1 as int, old(self)@[row2 as int]).update(
                row2 as int,
                old(self)@[row1 as int],
            ),
            row1 >= old(self)@.len() ==> r is Err && r->Err_0.is_out_of_bounds(
                row1 as nat,
                old(self)@.len(),
            ),
            row1 < old(self)@.len() && row2 >= old(self)@.len() ==> r is Err
                && r->Err_0.is_out_of_bounds(row2 as nat, old(self)@.len()),
            r is Err ==> *final(self) == *old(self),
    {
        proof {
            use_type_invariant(&*self);
        }
        if row1 >= self.rows {
            return Err(TensorError::out_of_bounds(row1, self.rows));
        }
        if row2 >= self.rows {
            return Err(TensorError::out_of_bounds(row2, self.rows));
        }
        let first = self.data[row1].clone();
        let second = self.data[row2].clone();
        self.data[row1] = second;
        self.data[row2] = first;
        assert(self@ =~= old(self)@.update(row1 as int, old(self)@[row2 as int]).update(
            row2 as int,
            old(self)@[row1 as int],
        ));
        Ok(())
    }

    /// The element at (`row`, `col`), or `OutOfBounds` for the first of the
    /// two that is out of range.
    pub fn get_at(&self, row: usize, col: usize) -> (r: Result<&T, TensorError>)
        ensures
            row < self@.len() && col < N ==> r is Ok && *r->Ok_0 == self@[row as int][col as int],
            row >= self@.len() ==> r is Err && r->Err_0.is_out_of_bounds(
                row as nat,
                self@.len(),
            ),
            row < self@.len() && col >= N ==> r is Err && r->Err_0.is_out_of_bounds(
                col as nat,
                N as nat,
            ),
    {
        proof {
            use_type_invariant(self);
        }
        if row >= self.rows {
            return Err(TensorError::out_of_bounds(row, self.rows));
        }
        if col >= N {
            return Err(TensorError::out_of_bounds(col, N));
        }
        Ok(&self.data[row][col])
    }

    /// The element at (`row`, `col`) for writing, or `OutOfBounds` for the
    /// first of the two that is out of range.
    pub fn get_at_mut(&mut self, row: usize, col: usize) -> (r: Result<&mut T, TensorError>)
        ensures
            row < old(self)@.len() && col < N ==> r is Ok && *r->Ok_0 == old(
                self,
            )@[row as int][col as int] && final(self)@ == old(self)@.update(
                row as int,
                old(self)@[row as int].update(col as int, *final(r->Ok_0)),
            ),
            row >= old(self)@.len() ==> r is Err && r->Err_0.is_out_of_bounds(
                row as nat,
                old(self)@.len(),
            ),
            row < old(self)@.len() && col >= N ==> r is Err && r->Err_0.is_out_of_bounds(
                col as nat,
                N as nat,
            ),
            r is Err ==> *final(self) == *old(self),
    {
        proof {
            use_type_invariant(&*self);
        }
        if row >= self.rows {
            return Err(TensorError::out_of_bounds(row, self.rows));
        }
        if col >= N {
            return Err(TensorError::out_of_bounds(col, N));
        }
        Ok(self.data[row].index_mut(col))
    }
}

impl<T: AllowedNumericTypes, const N: usize> Matrix<T, N> {
    /// The sum of all elements: the sums of the rows, added up.
    pub fn sum(&self) -> (r: T)
        requires
            crate::algebra::total_req(self@),
        ensures
            r == crate::algebra::total_of(self@),
    {
        let ghost sums = crate::algebra::row_sums(self@);
        let mut acc = T::zero();
        let mut i: usize = 0;
        proof {
            assert(sums.take(0) =~= Seq::<T>::empty());
        }
        while i < self.data.len()
            invariant
                i <= self.data@.len(),
                sums == crate::algebra::row_sums(self@),
                crate::algebra::total_req(self@),
                acc == crate::algebra::sum_of(sums.take(i as int)),
            decreases self.data@.len() - i,
        {
            proof {
                T::lemma_laws();
                crate::algebra::lemma_sum_req_prefix(sums, i + 1);
                assert(sums.take(i + 1).drop_last() =~= sums.take(i as int));
                assert(sums.take(i + 1).last() == sums[i as int]);
                assert(crate::algebra::sum_req(self@[i as int]));
            }
            acc = acc + self.data[i].sum();
            i = i + 1;
        }
        proof {
            assert(sums.take(sums.len() as int) =~= sums);
        }
        acc
    }

    /// The sum of all elements divided by their number.
    pub fn mean(&self) -> (r: T)
        requires
            crate::algebra::total_req(self@),
            self@.len() * N <= usize::MAX,
            T::from_usize_spec((self@.len() * N) as usize) is Some,
            crate::algebra::total_of(self@).div_req(
                T::from_usize_spec((self@.len() * N) as usize)->Some_0,
            ),
        ensures
            r == crate::algebra::total_of(self@).div_spec(
                T::from_usize_spec((self@.len() * N) as usize)->Some_0,
            ),
    {
        proof {
            use_type_invariant(self);
            T::lemma_laws();
        }
        let total_elements = self.rows * N;
        let count = T::from_usize(total_elements).unwrap();
        self.sum() / count
    }

    /// The greatest element of every row, in the order of the rows.
    fn row_maxima(&self) -> (r: Vec<T>)
        requires
            crate::extremes::rows_comparable(self@),
        ensures
            r@ == crate::extremes::row_maxima(self@),
    {
        let mut out: Vec<T> = Vec::with_capacity(self.data.len());
        let mut i: usize = 0;
        while i < self.data.len()
            invariant
                i <= self.data@.len(),
                crate::extremes::rows_comparable(self@),
                out@.len() == i,
                forall|k: int| 0 <= k < i ==> out@[k] == crate::extremes::max_of(self@[k]),
            decreases self.data@.len() - i,
        {
            proof {
                assert(crate::extremes::pairwise_comparable(self@[i as int]));
            }
            out.push(self.data[i].max());
            i = i + 1;
        }
        assert(out@ =~= crate::extremes::row_maxima(self@));
        out
    }

    /// The greatest element: the first greatest among the greatest elements
    /// of the rows, or zero where there is no row. With at least one row and
    /// one column it is the element at `argmax`.
    pub fn max(&self) -> (r: T)
        requires
            crate::extremes::rows_comparable(self@),
            crate::extremes::pairwise_comparable(crate::extremes::row_maxima(self@)),
        ensures
            r == crate::extremes::max_of(crate::extremes::row_maxima(self@)),
            self@.len() > 0 && N > 0 ==> r == self@[crate::extremes::argmax_of(
                self@,
            ).0][crate::extremes::argmax_of(self@).1],
    {
        let maxima = self.row_maxima();
        if maxima.len() == 0 {
            return T::zero();
        }
        let row = crate::extremes::first_max_position(maxima.as_slice());
        proof {
            self.lemma_row_len(row as int);
        }
        maxima[row]
    }

    /// The least element: the first least among the least elements of the
    /// rows, or zero where there is no row.
    pub fn min(&self) -> (r: T)
        requires
            crate::extremes::rows_comparable(self@),
            crate::extremes::pairwise_comparable(crate::extremes::row_minima(self@)),
        ensures
            r == crate::extremes::min_of(crate::extremes::row_minima(self@)),
    {
        let mut minima: Vec<T> = Vec::with_capacity(self.data.len());
        let mut i: usize = 0;
        while i < self.data.len()
            invariant
                i <= self.data@.len(),
                crate::extremes::rows_comparable(self@),
                minima@.len() == i,
                forall|k: int| 0 <= k < i ==> minima@[k] == crate::extremes::min_of(self@[k]),
            decreases self.data@.len() - i,
        {
            proof {
                assert(crate::extremes::pairwise_comparable(self@[i as int]));
            }
            minima.push(self.data[i].min());
            i = i + 1;
        }
        assert(minima@ =~= crate::extremes::row_minima(self@));
        if minima.len() == 0 {
            return T::zero();
        }
        minima[crate::extremes::first_min_position(minima.as_slice())]
    }

    /// The row and the column of the first greatest element, going through
    /// the rows in order and through each row from the front; `(0, 0)` where
    /// there is no row.
    pub fn argmax(&self) -> (r: (usize, usize))
        requires
            crate::extremes::rows_comparable(self@),
            crate::extremes::pairwise_comparable(crate::extremes::row_maxima(self@)),
        ensures
            (r.0 as int, r.1 as int) == crate::extremes::argmax_of(self@),
    {
        let maxima = self.row_maxima();
        if maxima.len() == 0 {
            return (0, 0);
        }
        let row = crate::extremes::first_max_position(maxima.as_slice());
        proof {
            assert(crate::extremes::pairwise_comparable(self@[row as int]));
        }
        (row, self.data[row].argmax())
    }

    /// Every element times `scalar`.
    pub fn scalar_mul(&self, scalar: T) -> (r: Self)
        requires
            crate::algebra::rows_each_mul_req(self@, scalar),
        ensures
            r@ == crate::algebra::rows_each_mul(self@, scalar),
    {
        proof {
            use_type_invariant(self);
        }
        let mut result_data: Vec<Vector<T, N>> = Vec::with_capacity(self.rows);
        let mut i: usize = 0;
        while i < self.rows
            invariant
                i <= self.rows,
                self.rows == self.data@.len(),
                crate::algebra::rows_each_mul_req(self@, scalar),
                result_data@.len() == i,
                forall|k: int|
                    0 <= k < i ==> (#[trigger] result_data@[k])@ == crate::algebra::each_mul(
                        self@[k],
                        scalar,
                    ),
            decreases self.rows - i,
        {
            proof {
                assert(crate::algebra::each_mul_req(self@[i as int], scalar));
            }
            result_data.push(self.data[i].scalar_mul(scalar));
            i = i + 1;
        }
        let r = Matrix { data: result_data, rows: self.rows };
        assert(r@ =~= crate::algebra::rows_each_mul(self@, scalar));
        r
    }

    /// The elementwise product with `rhs`, or `DimensionMismatch` where the
    /// two have different numbers of rows.
    pub fn hadamard_product(&self, rhs: &Self) -> (r: Result<Self, TensorError>)
        requires
            self@.len() == rhs@.len() ==> crate::algebra::rows_mul_req(self@, rhs@),
        ensures
            self@.len() == rhs@.len() ==> r is Ok && r->Ok_0@ == crate::algebra::rows_mul(
                self@,
                rhs@,
            ),
            self@.len() != rhs@.len() ==> r is Err && r->Err_0.is_dimension_mismatch(
                crate::format::shape_text(self@.len(), N as nat),
                crate::format::shape_text(rhs@.len(), N as nat),
                "Hadamard product"@,
            ),
    {
        proof {
            use_type_invariant(self);
            use_type_invariant(rhs);
        }
        if self.rows != rhs.rows {
            return Err(
                TensorError::dimension_mismatch(
                    crate::format::shape_string(self.rows, N),
                    crate::format::shape_string(rhs.rows, N),
                    "Hadamard product",
                ),
            );
        }
        let mut result_data: Vec<Vector<T, N>> = Vec::with_capacity(self.rows);
        let mut i: usize = 0;
        while i < self.rows
            invariant
                i <= self.rows,
                self.rows == self.data@.len(),
                rhs.rows == rhs.data@.len(),
                self.rows == rhs.rows,
                crate::algebra::rows_mul_req(self@, rhs@),
                result_data@.len() == i,
                forall|k: int|
                    0 <= k < i ==> (#[trigger] result_data@[k])@ == crate::algebra::zip_mul(
                        self@[k],
                        rhs@[k],
                    ),
            decreases self.rows - i,
        {
            proof {
                assert(crate::algebra::zip_mul_req(self@[i as int], rhs@[i as int]));
            }
            result_data.push(self.data[i].clone() * rhs.data[i].clone());
            i = i + 1;
        }
        let r = Matrix { data: result_data, rows: self.rows };
        assert(r@ =~= crate::algebra::rows_mul(self@, rhs@));
        Ok(r)
    }

    /// The dot product of every row with `vec`, in the order of the rows.
    pub fn mat_vec_mul(&self, vec: &Vector<T, N>) -> (r: Result<Vec<T>, TensorError>)
        requires
            crate::algebra::rows_dot_req(self@, vec@),
        ensures
            r is Ok,
            r->Ok_0@ == crate::algebra::rows_dot(self@, vec@),
    {
        proof {
            use_type_invariant(self);
        }
        let mut result: Vec<T> = Vec::with_capacity(self.rows);
        let mut i: usize = 0;
        while i < self.rows
            invariant
                i <= self.rows,
                self.rows == self.data@.len(),
                crate::algebra::rows_dot_req(self@, vec@),
                result@.len() == i,
                forall|k: int| 0 <= k < i ==> result@[k] == crate::algebra::dot_of(self@[k], vec@),
            decreases self.rows - i,
        {
            proof {
                assert(crate::algebra::dot_req(self@[i as int], vec@));
            }
            result.push(self.data[i].dot(vec));
            i = i + 1;
        }
        assert(result@ =~= crate::algebra::rows_dot(self@, vec@));
        Ok(result)
    }

    /// The matrix with rows and columns exchanged, which has `N` rows and `M`
    /// columns, or `DimensionMismatch` where `M` is not the number of rows
    /// of `self`.
    pub fn transpose<const M: usize>(&self) -> (r: Result<Matrix<T, M>, TensorError>)
        ensures
            self@.len() == M ==> r is Ok && r->Ok_0@ == crate::algebra::transposed(
                self@,
                N as nat,
            ),
            self@.len() != M ==> r is Err && r->Err_0.is_dimension_mismatch(
                "Any x "@ + crate::format::decimal(M as nat),
                crate::format::shape_text(self@.len(), N as nat),
                "Transpose"@,
            ),
    {
        proof {
            use_type_invariant(self);
        }
        if self.rows != M {
            return Err(
                TensorError::dimension_mismatch(
                    String::from_str("Any x ").concat(crate::format::decimal_string(M).as_str()),
                    crate::format::shape_string(self.rows, N),
                    "Transpose",
                ),
            );
        }
        let mut new_data: Vec<Vector<T, M>> = Vec::with_capacity(N);
        let mut i: usize = 0;
        while i < N
            invariant
                i <= N,
                self.rows == self.data@.len(),
                self.rows == M,
                new_data@.len() == i,
                forall|k: int|
                    0 <= k < i ==> (#[trigger] new_data@[k])@ == Seq::new(
                        M as nat,
                        |j: int| self@[j][k],
                    ),
            decreases N - i,
        {
            let mut new_row_data = [T::zero();M];
            let mut j: usize = 0;
            while j < self.rows
                invariant
                    i < N,
                    j <= self.rows,
                    self.rows == self.data@.len(),
                    self.rows == M,
                    forall|c: int| 0 <= c < j ==> new_row_data@[c] == self@[c][i as int],
                decreases self.rows - j,
            {
                new_row_data[j] = self.data[j][i];
                j = j + 1;
            }
            let v = Vector::from(new_row_data);
            assert(v@ =~= Seq::new(M as nat, |j: int| self@[j][i as int]));
            new_data.push(v);
            i = i + 1;
        }
        let r = Matrix::from_vectors(new_data);
        assert(r@ =~= crate::algebra::transposed(self@, N as nat));
        Ok(r)
    }
}

impl<T: AllowedNumericTypes, const N: usize> AddSpecImpl for Matrix<T, N> {
    /// The result carries text, which `add_spec` cannot name: what `+`
    /// returns is stated on `add` itself.
    open spec fn obeys_add_spec() -> bool {
        false
    }

    open spec fn add_req(self, rhs: Self) -> bool {
        self@.len() == rhs@.len() ==> crate::algebra::rows_add_req(self@, rhs@)
    }

    open spec fn add_spec(self, rhs: Self) -> Result<Self, TensorError> {
        arbitrary()
    }
}

impl<T: AllowedNumericTypes, const N: usize> Add for Matrix<T, N> {
    type Output = Result<Self, TensorError>;

    /// The elementwise sum, or `DimensionMismatch` where the two have
    /// different numbers of rows.
    fn add(self, rhs: Self) -> (r: Result<Self, TensorError>)
        ensures
            self@.len() == rhs@.len() ==> r is Ok && r->Ok_0@ == crate::algebra::rows_add(
                self@,
                rhs@,
            ),
            self@.len() != rhs@.len() ==> r is Err && r->Err_0.is_dimension_mismatch(
                crate::format::shape_text(self@.len(), N as nat),
                crate::format::shape_text(rhs@.len(), N as nat),
                "Matrix addition"@,
            ),
    {
        proof {
            use_type_invariant(&self);
            use_type_invariant(&rhs);
        }
        if self.rows != rhs.rows {
            return Err(
                TensorError::dimension_mismatch(
                    crate::format::shape_string(self.rows, N),
                    crate::format::shape_string(rhs.rows, N),
                    "Matrix addition",
                ),
            );
        }
        let mut result_data: Vec<Vector<T, N>> = Vec::with_capacity(self.rows);
        let mut i: usize = 0;
        while i < self.rows
            invariant
                i <= self.rows,
                self.rows == self.data@.len(),
                rhs.rows == rhs.data@.len(),
                self.rows == rhs.rows,
                crate::algebra::rows_add_req(self@, rhs@),
                result_data@.len() == i,
                forall|k: int|
                    0 <= k < i ==> (#[trigger] result_data@[k])@ == crate::algebra::zip_add(
                        self@[k],
                        rhs@[k],
                    ),
            decreases self.rows - i,
        {
            proof {
                assert(crate::algebra::zip_add_req(self@[i as int], rhs@[i as int]));
            }
            result_data.push(self.data[i].clone() + rhs.data[i].clone());
            i = i + 1;
        }
        let rows = self.rows;
        let r = Matrix { data: result_data, rows };
        assert(r@ =~= crate::algebra::rows_add(self@, rhs@));
        Ok(r)
    }
}

impl<T: AllowedNumericTypes, const N: usize> Clone for Matrix<T, N> {
    fn clone(&self) -> (r: Self)
        ensures
            r@ == self@,
    {
        let mut data: Vec<Vector<T, N>> = Vec::with_capacity(self.data.len());
        let mut i: usize = 0;
        while i < self.data.len()
            invariant
                i <= self.data@.len(),
                data@.len() == i,
                forall|k: int| 0 <= k < i ==> data@[k] == self.data@[k],
            decreases self.data@.len() - i,
        {
            data.push(self.data[i].clone());
            i = i + 1;
        }
        proof {
            use_type_invariant(self);
        }
        let r = Matrix { data, rows: self.rows };
        assert(r@ =~= self@);
        r
    }
}

impl<T: AllowedNumericTypes, const N: usize> vstd::std_specs::core::IndexSpecImpl<usize> for Matrix<T, N> {
    open spec fn index_req(&self, index: &usize) -> bool {
        *index < self@.len()
    }
}

impl<T: AllowedNumericTypes, const N: usize> Index<usize> for Matrix<T, N> {
    type Output = Vector<T, N>;

    fn index(&self, index: usize) -> (r: &Vector<T, N>)
        ensures
            r@ == self@[index as int],
    {
        &self.data[index]
    }
}

impl<T: AllowedNumericTypes, const N: usize> vstd::std_specs::core::IndexSpecImpl<(usize, usize)> for Matrix<T, N> {
    open spec fn index_req(&self, index: &(usize, usize)) -> bool {
        index.0 < self@.len() && index.1 < N
    }
}

impl<T: AllowedNumericTypes, const N: usize> Index<(usize, usize)> for Matrix<T, N> {
    type Output = T;

    fn index(&self, index: (usize, usize)) -> (r: &T)
        ensures
            *r == self@[index.0 as int][index.1 as int],
    {
        &self.data[index.0][index.1]
    }
}

} // verus!
