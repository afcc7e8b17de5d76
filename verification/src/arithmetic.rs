//! Matrix multiplication with compensated summation, and the `*` operator
//! between matrices for every pairing of owned and borrowed operands.

use crate::error::TensorError;
use crate::tensor::{AllowedNumericTypes, Matrix, Vector};
use core::ops::Mul;
use vstd::prelude::*;
use vstd::std_specs::ops::{AddSpec, MulSpec, MulSpecImpl, SubSpec};

verus! {

/// Column `j` of the rows `m`, from the first row to the last.
pub open spec fn column<T>(m: Seq<Seq<T>>, j: int) -> Seq<T> {
    Seq::new(m.len(), |k: int| m[k][j])
}

/// One step of compensated summation. The state is the running sum and the
/// running compensation: the compensation is taken from the term, the rest
/// is added to the sum, and the new compensation is what that addition lost.
pub open spec fn kahan_step<T: AllowedNumericTypes>(state: (T, T), term: T) -> (T, T) {
    let y = term.sub_spec(state.1);
    let t = state.0.add_spec(y);
    (t, t.sub_spec(state.0).sub_spec(y))
}

/// The four operations of one step can be made.
pub open spec fn kahan_step_req<T: AllowedNumericTypes>(state: (T, T), term: T) -> bool {
    let y = term.sub_spec(state.1);
    let t = state.0.add_spec(y);
    &&& term.sub_req(state.1)
    &&& state.0.add_req(y)
    &&& t.sub_req(state.0)
    &&& t.sub_spec(state.0).sub_req(y)
}

/// The running sum and compensation after all of `terms`, from zero.
pub open spec fn kahan_state<T: AllowedNumericTypes>(terms: Seq<T>) -> (T, T)
    decreases terms.len(),
{
    if terms.len() == 0 {
        (T::zero_spec(), T::zero_spec())
    } else {
        kahan_step(kahan_state(terms.drop_last()), terms.last())
    }
}

/// Every step of the compensated summation of `terms` can be made.
pub open spec fn kahan_req<T: AllowedNumericTypes>(terms: Seq<T>) -> bool
    decreases terms.len(),
{
    terms.len() == 0 || (kahan_req(terms.drop_last()) && kahan_step_req(
        kahan_state(terms.drop_last()),
        terms.last(),
    ))
}

/// The compensated sum of `terms`.
pub open spec fn kahan_sum<T: AllowedNumericTypes>(terms: Seq<T>) -> T {
    kahan_state(terms).0
}

/// The cell that a row `a` and a column `b` give can be computed.
pub open spec fn cell_req<T: AllowedNumericTypes>(a: Seq<T>, b: Seq<T>) -> bool {
    crate::algebra::zip_mul_req(a, b) && kahan_req(crate::algebra::zip_mul(a, b))
}

/// The cell that a row `a` and a column `b` give: the compensated sum of
/// their products.
pub open spec fn cell_of<T: AllowedNumericTypes>(a: Seq<T>, b: Seq<T>) -> T {
    kahan_sum(crate::algebra::zip_mul(a, b))
}

/// Every cell of the product of `lhs` and `rhs`, which has `m` columns, can
/// be computed.
pub open spec fn mat_mul_req<T: AllowedNumericTypes>(
    lhs: Seq<Seq<T>>,
    rhs: Seq<Seq<T>>,
    m: nat,
) -> bool {
    forall|i: int, j: int|
        0 <= i < lhs.len() && 0 <= j < m ==> cell_req(#[trigger] lhs[i], #[trigger] column(rhs, j))
}

/// The product of `lhs` and `rhs`, which has `m` columns.
pub open spec fn mat_mul_of<T: AllowedNumericTypes>(
    lhs: Seq<Seq<T>>,
    rhs: Seq<Seq<T>>,
    m: nat,
) -> Seq<Seq<T>> {
    Seq::new(lhs.len(), |i: int| Seq::new(m, |j: int| cell_of(lhs[i], column(rhs, j))))
}

/// Multiplies a matrix of `N` columns by a matrix of `N` rows and `M`
/// columns, or reports `DimensionMismatch` where `rhs` has another number of
/// rows. Each cell is the compensated sum of the products of a row of `lhs`
/// and a column of `rhs`.
pub fn mat_mul_impl<T: AllowedNumericTypes, const N: usize, const M: usize>(
    lhs: &Matrix<T, N>,
    rhs: &Matrix<T, M>,
) -> (r: Result<Matrix<T, M>, TensorError>)
    requires
        rhs@.len() == N ==> mat_mul_req(lhs@, rhs@, M as nat),
    ensures
        rhs@.len() == N ==> r is Ok && r->Ok_0@ == mat_mul_of(lhs@, rhs@, M as nat),
        rhs@.len() != N ==> r is Err && r->Err_0.is_dimension_mismatch(
            crate::format::shape_text(N as nat, M as nat),
            crate::format::shape_text(rhs@.len(), M as nat),
            "Matrix multiplication"@,
        ),
{
    if rhs.shape().0 != N {
        return Err(
            TensorError::dimension_mismatch(
                crate::format::shape_string(N, M),
                crate::format::shape_string(rhs.shape().0, M),
                "Matrix multiplication",
            ),
        );
    }
    let (lhs_rows, _) = lhs.shape();
    let mut data: Vec<Vector<T, M>> = Vec::with_capacity(lhs_rows);
    let mut i: usize = 0;
    while i < lhs_rows
        invariant
            i <= lhs_rows,
            lhs_rows == lhs@.len(),
            rhs@.len() == N,
            mat_mul_req(lhs@, rhs@, M as nat),
            data@.len() == i,
            forall|r: int|
                0 <= r < i ==> (#[trigger] data@[r])@ == Seq::new(
                    M as nat,
                    |j: int| cell_of(lhs@[r], column(rhs@, j)),
                ),
        decreases lhs_rows - i,
    {
        let mut row = [T::zero();M];
        let mut j: usize = 0;
        while j < M
            invariant
                i < lhs_rows,
                j <= M,
                lhs_rows == lhs@.len(),
                rhs@.len() == N,
                mat_mul_req(lhs@, rhs@, M as nat),
                forall|c: int| 0 <= c < j ==> row@[c] == cell_of(lhs@[i as int], column(rhs@, c)),
            decreases M - j,
        {
            let ghost a = lhs@[i as int];
            let ghost b = column(rhs@, j as int);
            let ghost terms = crate::algebra::zip_mul(a, b);
            proof {
                T::lemma_laws();
                lhs.lemma_row_len(i as int);
                assert(cell_req(lhs@[i as int], column(rhs@, j as int)));
                assert(terms.take(0) =~= Seq::<T>::empty());
                assert(terms.len() == N);
            }
            let mut sum = T::zero();
            let mut c = T::zero();
            let mut k: usize = 0;
            while k < N
                invariant
                    i < lhs_rows,
                    j < M,
                    k <= N,
                    lhs_rows == lhs@.len(),
                    rhs@.len() == N,
                    a == lhs@[i as int],
                    a.len() == N,
                    b == column(rhs@, j as int),
                    terms == crate::algebra::zip_mul(a, b),
                    terms.len() == N,
                    crate::algebra::zip_mul_req(a, b),
                    kahan_req(terms),
                    kahan_req(terms.take(k as int)),
                    (sum, c) == kahan_state(terms.take(k as int)),
                    T::obeys_add_spec(),
                    T::obeys_sub_spec(),
                    T::obeys_mul_spec(),
                decreases N - k,
            {
                proof {
                    rhs.lemma_row_len(k as int);
                    assert(a[k as int].mul_req(b[k as int]));
                    lemma_kahan_req_prefix(terms, k + 1);
                    assert(terms.take(k + 1).drop_last() =~= terms.take(k as int));
                    assert(terms.take(k + 1).last() == terms[k as int]);
                }
                let product = lhs[i][k] * rhs[k][j];
                let y = product - c;
                let t = sum + y;
                c = (t - sum) - y;
                sum = t;
                k = k + 1;
            }
            proof {
                assert(terms.take(N as int) =~= terms);
            }
            row[j] = sum;
            j = j + 1;
        }
        let v = Vector { data: row };
        proof {
            assert(v@ =~= Seq::new(M as nat, |j: int| cell_of(lhs@[i as int], column(rhs@, j))));
        }
        data.push(v);
        i = i + 1;
    }
    let result = Matrix { data, rows: lhs_rows };
    proof {
        assert(result@ =~= mat_mul_of(lhs@, rhs@, M as nat));
    }
    Ok(result)
}

/// Where the compensated summation of `terms` can be made, that of each
/// prefix can be made.
pub proof fn lemma_kahan_req_prefix<T: AllowedNumericTypes>(terms: Seq<T>, n: int)
    requires
        kahan_req(terms),
        0 <= n <= terms.len(),
    ensures
        kahan_req(terms.take(n)),
    decreases terms.len(),
{
    if n == terms.len() {
        assert(terms.take(n) =~= terms);
    } else {
        lemma_kahan_req_prefix(terms.drop_last(), n);
        assert(terms.drop_last().take(n) =~= terms.take(n));
    }
}

impl<'b, T: AllowedNumericTypes, const N: usize, const M: usize> MulSpecImpl<&'b Matrix<T, M>> for &Matrix<T, N> {
    /// The result carries text, which `mul_spec` cannot name: what `*`
    /// returns is stated on `mul` itself.
    open spec fn obeys_mul_spec() -> bool {
        false
    }

    open spec fn mul_req(self, rhs: &'b Matrix<T, M>) -> bool {
        rhs@.len() == N ==> mat_mul_req(self@, rhs@, M as nat)
    }

    open spec fn mul_spec(self, rhs: &'b Matrix<T, M>) -> Result<Matrix<T, M>, TensorError> {
        arbitrary()
    }
}

impl<'b, T: AllowedNumericTypes, const N: usize, const M: usize> Mul<&'b Matrix<T, M>> for &Matrix<T, N> {
    type Output = Result<Matrix<T, M>, TensorError>;

    /// The matrix product, as `mat_mul_impl` gives it.
    fn mul(self, rhs: &'b Matrix<T, M>) -> (r: Result<Matrix<T, M>, TensorError>)
        ensures
            rhs@.len() == N ==> r is Ok && r->Ok_0@ == mat_mul_of(self@, rhs@, M as nat),
            rhs@.len() != N ==> r is Err && r->Err_0.is_dimension_mismatch(
                crate::format::shape_text(N as nat, M as nat),
                crate::format::shape_text(rhs@.len(), M as nat),
                "Matrix multiplication"@,
            ),
    {
        mat_mul_impl(self, rhs)
    }
}

impl<T: AllowedNumericTypes, const N: usize, const M: usize> MulSpecImpl<Matrix<T, M>> for &Matrix<T, N> {
    /// The result carries text, which `mul_spec` cannot name: what `*`
    /// returns is stated on `mul` itself.
    open spec fn obeys_mul_spec() -> bool {
        false
    }

    open spec fn mul_req(self, rhs: Matrix<T, M>) -> bool {
        rhs@.len() == N ==> mat_mul_req(self@, rhs@, M as nat)
    }

    open spec fn mul_spec(self, rhs: Matrix<T, M>) -> Result<Matrix<T, M>, TensorError> {
        arbitrary()
    }
}

impl<T: AllowedNumericTypes, const N: usize, const M: usize> Mul<Matrix<T, M>> for &Matrix<T, N> {
    type Output = Result<Matrix<T, M>, TensorError>;

    /// The matrix product, as `mat_mul_impl` gives it.
    fn mul(self, rhs: Matrix<T, M>) -> (r: Result<Matrix<T, M>, TensorError>)
        ensures
            rhs@.len() == N ==> r is Ok && r->Ok_0@ == mat_mul_of(self@, rhs@, M as nat),
            rhs@.len() != N ==> r is Err && r->Err_0.is_dimension_mismatch(
                crate::format::shape_text(N as nat, M as nat),
                crate::format::shape_text(rhs@.len(), M as nat),
                "Matrix multiplication"@,
            ),
    {
        mat_mul_impl(self, &rhs)
    }
}

impl<'b, T: AllowedNumericTypes, const N: usize, const M: usize> MulSpecImpl<&'b Matrix<T, M>> for Matrix<T, N> {
    /// The result carries text, which `mul_spec` cannot name: what `*`
    /// returns is stated on `mul` itself.
    open spec fn obeys_mul_spec() -> bool {
        false
    }

    open spec fn mul_req(self, rhs: &'b Matrix<T, M>) -> bool {
        rhs@.len() == N ==> mat_mul_req(self@, rhs@, M as nat)
    }

    open spec fn mul_spec(self, rhs: &'b Matrix<T, M>) -> Result<Matrix<T, M>, TensorError> {
        arbitrary()
    }
}

impl<'b, T: AllowedNumericTypes, const N: usize, const M: usize> Mul<&'b Matrix<T, M>> for Matrix<T, N> {
    type Output = Result<Matrix<T, M>, TensorError>;

    /// The matrix product, as `mat_mul_impl` gives it.
    fn mul(self, rhs: &'b Matrix<T, M>) -> (r: Result<Matrix<T, M>, TensorError>)
        ensures
            rhs@.len() == N ==> r is Ok && r->Ok_0@ == mat_mul_of(self@, rhs@, M as nat),
            rhs@.len() != N ==> r is Err && r->Err_0.is_dimension_mismatch(
                crate::format::shape_text(N as nat, M as nat),
                crate::format::shape_text(rhs@.len(), M as nat),
                "Matrix multiplication"@,
            ),
    {
        mat_mul_impl(&self, rhs)
    }
}

impl<T: AllowedNumericTypes, const N: usize, const M: usize> MulSpecImpl<Matrix<T, M>> for Matrix<T, N> {
    /// The result carries text, which `mul_spec` cannot name: what `*`
    /// returns is stated on `mul` itself.
    open spec fn obeys_mul_spec() -> bool {
        false
    }

    open spec fn mul_req(self, rhs: Matrix<T, M>) -> bool {
        rhs@.len() == N ==> mat_mul_req(self@, rhs@, M as nat)
    }

    open spec fn mul_spec(self, rhs: Matrix<T, M>) -> Result<Matrix<T, M>, TensorError> {
        arbitrary()
    }
}

impl<T: AllowedNumericTypes, const N: usize, const M: usize> Mul<Matrix<T, M>> for Matrix<T, N> {
    type Output = Result<Matrix<T, M>, TensorError>;

    /// The matrix product, as `mat_mul_impl` gives it.
    fn mul(self, rhs: Matrix<T, M>) -> (r: Result<Matrix<T, M>, TensorError>)
        ensures
            rhs@.len() == N ==> r is Ok && r->Ok_0@ == mat_mul_of(self@, rhs@, M as nat),
            rhs@.len() != N ==> r is Err && r->Err_0.is_dimension_mismatch(
                crate::format::shape_text(N as nat, M as nat),
                crate::format::shape_text(rhs@.len(), M as nat),
                "Matrix multiplication"@,
            ),
    {
        mat_mul_impl(&self, &rhs)
    }
}

/// Sums on `T` lose nothing: taking zero away changes nothing, what was
/// added can be taken away again, and a value less itself is zero.
pub open spec fn exact_sums<T: AllowedNumericTypes>() -> bool {
    &&& forall|a: T|
        #![trigger a.sub_req(T::zero_spec())]
        #![trigger a.sub_spec(T::zero_spec())]
        a.sub_req(T::zero_spec()) && a.sub_spec(T::zero_spec()) == a
    &&& forall|a: T, b: T|
        #![trigger a.add_spec(b)]
        a.add_req(b) ==> a.add_spec(b).sub_req(a) && a.add_spec(b).sub_spec(a) == b
    &&& forall|a: T|
        #![trigger a.sub_req(a)]
        #![trigger a.sub_spec(a)]
        a.sub_req(a) && a.sub_spec(a) == T::zero_spec()
}

/// Where sums lose nothing, compensated summation is plain summation: it
/// can be made where the terms can be added up from the left, it gives
/// their sum, and its compensation stays zero.
pub proof fn lemma_kahan_is_plain_sum<T: AllowedNumericTypes>(terms: Seq<T>)
    requires
        exact_sums::<T>(),
    ensures
        kahan_req(terms) == crate::algebra::sum_req(terms),
        crate::algebra::sum_req(terms) ==> kahan_state(terms) == (
            crate::algebra::sum_of(terms),
            T::zero_spec(),
        ),
    decreases terms.len(),
{
    if terms.len() > 0 {
        let front = terms.drop_last();
        let term = terms.last();
        lemma_kahan_is_plain_sum(front);
        if crate::algebra::sum_req(front) {
            let sum = crate::algebra::sum_of(front);
            assert(kahan_state(front) == (sum, T::zero_spec()));
            assert(term.sub_req(T::zero_spec()) && term.sub_spec(T::zero_spec()) == term);
            if sum.add_req(term) {
                let t = sum.add_spec(term);
                assert(t.sub_req(sum) && t.sub_spec(sum) == term);
                assert(term.sub_req(term) && term.sub_spec(term) == T::zero_spec());
            }
        }
    }
}

/// The dot product of every row of `lhs` with every column of `rhs`, which
/// has `m` columns, can be computed.
pub open spec fn plain_mat_mul_req<T: AllowedNumericTypes>(
    lhs: Seq<Seq<T>>,
    rhs: Seq<Seq<T>>,
    m: nat,
) -> bool {
    forall|i: int, j: int|
        0 <= i < lhs.len() && 0 <= j < m ==> crate::algebra::dot_req(
            #[trigger] lhs[i],
            #[trigger] column(rhs, j),
        )
}

/// The product of `lhs` and `rhs` by plain summation: each cell is the dot
/// product of a row of `lhs` and a column of `rhs`.
pub open spec fn plain_mat_mul_of<T: AllowedNumericTypes>(
    lhs: Seq<Seq<T>>,
    rhs: Seq<Seq<T>>,
    m: nat,
) -> Seq<Seq<T>> {
    Seq::new(
        lhs.len(),
        |i: int| Seq::new(m, |j: int| crate::algebra::dot_of(lhs[i], column(rhs, j))),
    )
}

/// Over a type whose sums lose nothing, as the integers, matrix
/// multiplication agrees with plain summation: it can be computed on the
/// same operands and gives the same cells.
pub proof fn lemma_mat_mul_is_plain<T: AllowedNumericTypes, const N: usize, const M: usize>(
    lhs: Matrix<T, N>,
    rhs: Matrix<T, M>,
)
    requires
        exact_sums::<T>(),
    ensures
        mat_mul_req(lhs@, rhs@, M as nat) == plain_mat_mul_req(lhs@, rhs@, M as nat),
        plain_mat_mul_req(lhs@, rhs@, M as nat) ==> mat_mul_of(lhs@, rhs@, M as nat)
            == plain_mat_mul_of(lhs@, rhs@, M as nat),
{
    assert forall|i: int, j: int| 0 <= i < lhs@.len() && 0 <= j < M implies (cell_req(
        #[trigger] lhs@[i],
        #[trigger] column(rhs@, j),
    ) == crate::algebra::dot_req(lhs@[i], column(rhs@, j))) && (crate::algebra::dot_req(
        lhs@[i],
        column(rhs@, j),
    ) ==> cell_of(lhs@[i], column(rhs@, j)) == crate::algebra::dot_of(
        lhs@[i],
        column(rhs@, j),
    )) by {
        lemma_kahan_is_plain_sum(crate::algebra::zip_mul(lhs@[i], column(rhs@, j)));
    }
    if plain_mat_mul_req(lhs@, rhs@, M as nat) {
        let kahan = mat_mul_of(lhs@, rhs@, M as nat);
        let plain = plain_mat_mul_of(lhs@, rhs@, M as nat);
        assert forall|i: int| 0 <= i < lhs@.len() implies #[trigger] kahan[i] == plain[i] by {
            assert forall|j: int| 0 <= j < M implies #[trigger] kahan[i][j] == plain[i][j] by {
                assert(crate::algebra::dot_req(lhs@[i], column(rhs@, j)));
            }
            assert(kahan[i] =~= plain[i]);
        }
        assert(kahan =~= plain);
    }
}

} // verus!
