//! The determinant of a square matrix, by elimination with partial
//! pivoting, and what each of its steps means on the rows of a matrix.

use crate::error::TensorError;
use crate::tensor::{AllowedNumericTypes, Matrix, Vector};
use core::ops::Neg;
use vstd::prelude::*;
use vstd::std_specs::ops::{DivSpec, MulSpec, NegSpec, SubSpec};
use vstd::string::StringExecFns;

verus! {

/// The absolute values in column `k`, from row `k` down.
pub open spec fn pivot_column<T: AllowedNumericTypes>(m: Seq<Seq<T>>, k: int) -> Seq<T> {
    Seq::new((m.len() - k) as nat, |i: int| m[k + i][k].abs_spec())
}

/// The absolute values that the search for a pivot takes can be taken. With
/// one row left there is no search.
pub open spec fn pivot_req<T: AllowedNumericTypes>(m: Seq<Seq<T>>, k: int) -> bool {
    k + 1 < m.len() ==> forall|i: int| k <= i < m.len() ==> (#[trigger] m[i])[k].abs_req()
}

/// The row chosen as pivot in step `k`: among the rows from `k` down, the
/// first whose entry in column `k` is greatest in absolute value.
pub open spec fn pivot_row<T: AllowedNumericTypes>(m: Seq<Seq<T>>, k: int) -> int {
    k + crate::extremes::first_max_index(pivot_column(m, k))
}

/// Where the absolute values in column `k` from row `k` down can be
/// compared, the pivot row holds the first greatest of them.
pub proof fn lemma_pivot_row_is_greatest<T: AllowedNumericTypes>(m: Seq<Seq<T>>, k: int)
    requires
        0 <= k < m.len(),
        crate::extremes::pairwise_comparable(pivot_column(m, k)),
    ensures
        k <= pivot_row(m, k) < m.len(),
        crate::extremes::is_first_max(pivot_column(m, k), pivot_row(m, k) - k),
{
    crate::extremes::lemma_first_max_index_is_first_max(pivot_column(m, k));
}

/// `m` with rows `a` and `b` exchanged.
pub open spec fn swapped<T>(m: Seq<Seq<T>>, a: int, b: int) -> Seq<Seq<T>> {
    m.update(a, m[b]).update(b, m[a])
}

/// The multiple of row `k` that step `k` takes from row `i`.
pub open spec fn factor<T: AllowedNumericTypes>(m: Seq<Seq<T>>, k: int, i: int) -> T {
    m[i][k].div_spec(m[k][k])
}

/// The entry at (`i`, `j`) after step `k`, for a row below `k` and a column
/// to the right of `k`.
pub open spec fn reduced_entry<T: AllowedNumericTypes>(
    m: Seq<Seq<T>>,
    k: int,
    i: int,
    j: int,
) -> T {
    m[i][j].sub_spec(factor(m, k, i).mul_spec(m[k][j]))
}

/// The entry at (`i`, `j`) can be reduced in step `k`.
pub open spec fn entry_req<T: AllowedNumericTypes>(m: Seq<Seq<T>>, k: int, i: int, j: int) -> bool {
    factor(m, k, i).mul_req(m[k][j]) && m[i][j].sub_req(factor(m, k, i).mul_spec(m[k][j]))
}

/// Row `i` after step `k`: the columns up to `k` stay, the others are reduced.
pub open spec fn reduced_row<T: AllowedNumericTypes>(m: Seq<Seq<T>>, k: int, i: int) -> Seq<T> {
    Seq::new(
        m[i].len(),
        |j: int|
            if j <= k {
                m[i][j]
            } else {
                reduced_entry(m, k, i, j)
            },
    )
}

/// Row `i` can be reduced in step `k`.
pub open spec fn row_req<T: AllowedNumericTypes>(m: Seq<Seq<T>>, k: int, i: int) -> bool {
    m[i][k].div_req(m[k][k]) && forall|j: int| k < j < m.len() ==> #[trigger] entry_req(m, k, i, j)
}

/// `m` after step `k`: the rows up to `k` stay, the others are reduced.
pub open spec fn eliminated<T: AllowedNumericTypes>(m: Seq<Seq<T>>, k: int) -> Seq<Seq<T>> {
    Seq::new(
        m.len(),
        |i: int|
            if i <= k {
                m[i]
            } else {
                reduced_row(m, k, i)
            },
    )
}

/// Every row below `k` can be reduced in step `k`.
pub open spec fn eliminate_req<T: AllowedNumericTypes>(m: Seq<Seq<T>>, k: int) -> bool {
    forall|i: int| k < i < m.len() ==> #[trigger] row_req(m, k, i)
}

/// The factor by which an exchange of rows changes the determinant.
pub open spec fn minus_one<T: AllowedNumericTypes + Neg<Output = T>>() -> T {
    T::one_spec().neg_spec()
}

/// The running product after the exchange of step `k`, if there is one.
pub open spec fn after_exchange<T: AllowedNumericTypes + Neg<Output = T>>(
    m: Seq<Seq<T>>,
    k: int,
    det: T,
) -> T {
    if pivot_row(m, k) != k {
        det.mul_spec(minus_one::<T>())
    } else {
        det
    }
}

/// What elimination returns when it stands before step `k` of `n` with the
/// rows `m` and the running product `det`: zero as soon as a pivot is zero, and
/// else the product of all pivots, negated once for each exchange of rows.
pub open spec fn det_from<T: AllowedNumericTypes + Neg<Output = T>>(
    m: Seq<Seq<T>>,
    n: int,
    k: int,
    det: T,
) -> T
    decreases n - k,
{
    if k < 0 || k >= n {
        det
    } else {
        let m1 = swapped(m, k, pivot_row(m, k));
        let d1 = after_exchange(m, k, det);
        if m1[k][k].is_zero_spec() {
            T::zero_spec()
        } else {
            det_from(eliminated(m1, k), n, k + 1, d1.mul_spec(m1[k][k]))
        }
    }
}

/// Every operation that elimination makes from step `k` of `n` on can be
/// made.
pub open spec fn det_req<T: AllowedNumericTypes + Neg<Output = T>>(
    m: Seq<Seq<T>>,
    n: int,
    k: int,
    det: T,
) -> bool
    decreases n - k,
{
    if k < 0 || k >= n {
        true
    } else {
        let m1 = swapped(m, k, pivot_row(m, k));
        let d1 = after_exchange(m, k, det);
        &&& pivot_req(m, k)
        &&& pivot_row(m, k) != k ==> T::one_spec().neg_req() && det.mul_req(minus_one::<T>())
        &&& !m1[k][k].is_zero_spec() ==> {
            &&& d1.mul_req(m1[k][k])
            &&& eliminate_req(m1, k)
            &&& det_req(eliminated(m1, k), n, k + 1, d1.mul_spec(m1[k][k]))
        }
    }
}

/// The determinant of the square matrix with rows `m`, as elimination with
/// partial pivoting computes it.
pub open spec fn determinant_of<T: AllowedNumericTypes + Neg<Output = T>>(m: Seq<Seq<T>>) -> T {
    det_from(m, m.len() as int, 0, T::one_spec())
}

/// Every operation of the elimination on `m` can be made.
pub open spec fn determinant_req<T: AllowedNumericTypes + Neg<Output = T>>(
    m: Seq<Seq<T>>,
) -> bool {
    det_req(m, m.len() as int, 0, T::one_spec())
}

/// The text that names the shape of a matrix which is not square.
pub open spec fn not_square_text(rows: nat, cols: nat) -> Seq<char> {
    crate::format::shape_text(rows, cols) + " matrix"@
}

impl<T: AllowedNumericTypes, const N: usize> Matrix<T, N> {
    /// The row of the pivot for step `k`.
    fn find_pivot(&self, k: usize) -> (p: usize)
        requires
            self@.len() == N,
            k < N,
            pivot_req(self@, k as int),
        ensures
            p == pivot_row(self@, k as int),
            k <= p < N,
    {
        let rows = self.data.len();
        let ghost column = pivot_column(self@, k as int);
        let mut max_row = k;
        let mut i = k + 1;
        proof {
            use_type_invariant(self);
            T::lemma_laws();
            assert(column.take(1).len() == 1);
        }
        while i < rows
            invariant
                rows == N,
                self@.len() == N,
                self.data@.len() == N,
                k < i <= rows,
                k <= max_row < i,
                column == pivot_column(self@, k as int),
                pivot_req(self@, k as int),
                max_row - k == crate::extremes::first_max_index(column.take(i - k)),
                crate::order::obeys_order::<T>(),
            decreases rows - i,
        {
            proof {
                let ghost prefix = column.take(i - k + 1);
                assert(prefix.drop_last() =~= column.take(i - k));
                assert(prefix.last() == self@[i as int][k as int].abs_spec());
                assert(prefix[max_row - k] == self@[max_row as int][k as int].abs_spec());
                assert(self@[i as int][k as int].abs_req());
                assert(self@[max_row as int][k as int].abs_req());
            }
            let candidate = self.data[i][k].abs();
            let held = self.data[max_row][k].abs();
            if candidate > held {
                max_row = i;
            }
            i = i + 1;
        }
        proof {
            assert(column.take(rows - k) =~= column);
        }
        max_row
    }

    /// Takes from every row below `k` the multiple of row `k` that clears
    /// its entry in column `k`; that entry itself is left as it is.
    fn eliminate_below(&mut self, k: usize)
        requires
            old(self)@.len() == N,
            k < N,
            eliminate_req(old(self)@, k as int),
        ensures
            final(self)@ == eliminated(old(self)@, k as int),
    {
        proof {
            use_type_invariant(&*self);
            T::lemma_laws();
        }
        let rows = self.data.len();
        let pivot = self.data[k][k];
        let ghost m = self@;
        let mut i = k + 1;
        while i < rows
            invariant
                rows == N,
                m.len() == N,
                self@.len() == N,
                self.data@.len() == N,
                self.well_formed(),
                k < i <= rows,
                pivot == m[k as int][k as int],
                eliminate_req(m, k as int),
                forall|r: int| 0 <= r <= k ==> self@[r] == m[r],
                forall|r: int| k < r < i ==> self@[r] == reduced_row(m, k as int, r),
                forall|r: int| i <= r < rows ==> self@[r] == m[r],
                T::obeys_sub_spec(),
                T::obeys_mul_spec(),
                T::obeys_div_spec(),
            decreases rows - i,
        {
            proof {
                assert(row_req(m, k as int, i as int));
                assert(self@[i as int] == m[i as int]);
                assert(self@[k as int] == m[k as int]);
            }
            let factor = self.data[i][k] / pivot;
            let mut row = self.data[i].data;
            let mut j = k + 1;
            while j < N
                invariant
                    rows == N,
                    m.len() == N,
                    self@.len() == N,
                    self.data@.len() == N,
                    self.well_formed(),
                    k < i < rows,
                    k < j <= N,
                    factor == crate::determinant::factor(m, k as int, i as int),
                    row_req(m, k as int, i as int),
                    self@[i as int] == m[i as int],
                    self@[k as int] == m[k as int],
                    forall|c: int| 0 <= c <= k ==> row@[c] == m[i as int][c],
                    forall|c: int| k < c < j ==> row@[c] == reduced_entry(m, k as int, i as int, c),
                    forall|c: int| j <= c < N ==> row@[c] == m[i as int][c],
                    T::obeys_sub_spec(),
                    T::obeys_mul_spec(),
                decreases N - j,
            {
                proof {
                    assert(entry_req(m, k as int, i as int, j as int));
                }
                let val = self.data[k][j];
                row[j] = row[j] - factor * val;
                j = j + 1;
            }
            let ghost before = self@;
            self.data[i] = Vector { data: row };
            proof {
                assert(self@[i as int] =~= reduced_row(m, k as int, i as int));
                assert forall|r: int| 0 <= r < rows && r != i implies self@[r] == before[r] by {}
            }
            i = i + 1;
        }
        proof {
            assert(self@ =~= eliminated(m, k as int));
        }
    }

    /// The determinant, or `DimensionMismatch` where the matrix is not square.
    ///
    /// Elimination with partial pivoting: in each step the row whose entry
    /// in the pivot column is greatest in absolute value becomes the pivot
    /// row, and an exchange of rows negates the result. A pivot that is zero
    /// ends the computation with zero.
    pub fn determinant(&self) -> (r: Result<T, TensorError>) where T: Neg<Output = T>
        requires
            T::obeys_neg_spec(),
            self@.len() == N ==> determinant_req(self@),
        ensures
            self@.len() == N ==> r == Ok::<T, TensorError>(determinant_of(self@)),
            self@.len() != N ==> r is Err && r->Err_0.is_dimension_mismatch(
                "Square Matrix"@,
                not_square_text(self@.len(), N as nat),
                "Determinant"@,
            ),
    {
        let (rows, cols) = self.shape();
        if rows != cols {
            let found = crate::format::shape_string(rows, cols).concat(" matrix");
            return Err(
                TensorError::dimension_mismatch(
                    String::from_str("Square Matrix"),
                    found,
                    "Determinant",
                ),
            );
        }
        let mut lu = self.clone();
        let mut det = T::one();
        let mut k: usize = 0;
        while k < rows
            invariant
                rows == N,
                k <= rows,
                lu@.len() == N,
                T::obeys_neg_spec(),
                self@.len() == N,
                det_req(lu@, N as int, k as int, det),
                det_from(lu@, N as int, k as int, det) == determinant_of(self@),
            decreases rows - k,
        {
            proof {
                T::lemma_laws();
            }
            let ghost m = lu@;
            let ghost d = det;
            let max_row = lu.find_pivot(k);
            if max_row != k {
                let _ = lu.swap_rows(k, max_row);
                det = det * T::one().neg();
            }
            proof {
                assert(lu@ =~= swapped(m, k as int, max_row as int));
                assert(det == after_exchange(m, k as int, d));
            }
            let pivot = lu[k][k];
            if pivot.is_zero() {
                return Ok(T::zero());
            }
            det = det * pivot;
            lu.eliminate_below(k);
            k = k + 1;
        }
        Ok(det)
    }
}

} // verus!
