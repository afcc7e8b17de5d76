//! What the elementwise and the folded operations mean on sequences of
//! elements. The contracts of the containers are stated over these.

use crate::tensor::{AllowedNumericTypes, Matrix};
use vstd::prelude::*;
use vstd::std_specs::ops::{AddSpec, DivSpec, MulSpec, SubSpec};

verus! {

/// Every pair of elements at one position can be added.
pub open spec fn zip_add_req<T: AllowedNumericTypes>(a: Seq<T>, b: Seq<T>) -> bool {
    forall|i: int| 0 <= i < a.len() ==> #[trigger] a[i].add_req(b[i])
}

/// The sums of the elements at each position.
pub open spec fn zip_add<T: AllowedNumericTypes>(a: Seq<T>, b: Seq<T>) -> Seq<T> {
    Seq::new(a.len(), |i: int| a[i].add_spec(b[i]))
}

/// Every pair of elements at one position can be subtracted.
pub open spec fn zip_sub_req<T: AllowedNumericTypes>(a: Seq<T>, b: Seq<T>) -> bool {
    forall|i: int| 0 <= i < a.len() ==> #[trigger] a[i].sub_req(b[i])
}

/// The differences of the elements at each position.
pub open spec fn zip_sub<T: AllowedNumericTypes>(a: Seq<T>, b: Seq<T>) -> Seq<T> {
    Seq::new(a.len(), |i: int| a[i].sub_spec(b[i]))
}

/// Every pair of elements at one position can be multiplied.
pub open spec fn zip_mul_req<T: AllowedNumericTypes>(a: Seq<T>, b: Seq<T>) -> bool {
    forall|i: int| 0 <= i < a.len() ==> #[trigger] a[i].mul_req(b[i])
}

/// The products of the elements at each position.
pub open spec fn zip_mul<T: AllowedNumericTypes>(a: Seq<T>, b: Seq<T>) -> Seq<T> {
    Seq::new(a.len(), |i: int| a[i].mul_spec(b[i]))
}

/// Some element of `b` is zero.
pub open spec fn has_zero<T: AllowedNumericTypes>(b: Seq<T>) -> bool {
    exists|j: int| 0 <= j < b.len() && (#[trigger] b[j]).is_zero_spec()
}

/// None of the first `n` elements of `b` is zero.
pub open spec fn no_zero_before<T: AllowedNumericTypes>(b: Seq<T>, n: int) -> bool {
    forall|j: int| 0 <= j < n ==> !(#[trigger] b[j]).is_zero_spec()
}

/// Every division that is reached, going from the front and stopping at
/// the first zero divisor, can be made.
pub open spec fn zip_div_req<T: AllowedNumericTypes>(a: Seq<T>, b: Seq<T>) -> bool {
    forall|i: int|
        0 <= i < a.len() && no_zero_before(b, i + 1) ==> #[trigger] a[i].div_req(b[i])
}

/// The quotients of the elements at each position.
pub open spec fn zip_div<T: AllowedNumericTypes>(a: Seq<T>, b: Seq<T>) -> Seq<T> {
    Seq::new(a.len(), |i: int| a[i].div_spec(b[i]))
}

/// `s` can be added to every element.
pub open spec fn each_add_req<T: AllowedNumericTypes>(a: Seq<T>, s: T) -> bool {
    forall|i: int| 0 <= i < a.len() ==> (#[trigger] a[i]).add_req(s)
}

/// Every element plus `s`.
pub open spec fn each_add<T: AllowedNumericTypes>(a: Seq<T>, s: T) -> Seq<T> {
    Seq::new(a.len(), |i: int| a[i].add_spec(s))
}

/// Every element can be multiplied by `s`.
pub open spec fn each_mul_req<T: AllowedNumericTypes>(a: Seq<T>, s: T) -> bool {
    forall|i: int| 0 <= i < a.len() ==> (#[trigger] a[i]).mul_req(s)
}

/// Every element times `s`.
pub open spec fn each_mul<T: AllowedNumericTypes>(a: Seq<T>, s: T) -> Seq<T> {
    Seq::new(a.len(), |i: int| a[i].mul_spec(s))
}

/// Every element can be divided by `s`.
pub open spec fn each_div_req<T: AllowedNumericTypes>(a: Seq<T>, s: T) -> bool {
    forall|i: int| 0 <= i < a.len() ==> (#[trigger] a[i]).div_req(s)
}

/// Every element divided by `s`.
pub open spec fn each_div<T: AllowedNumericTypes>(a: Seq<T>, s: T) -> Seq<T> {
    Seq::new(a.len(), |i: int| a[i].div_spec(s))
}

/// The elements added up from the left, starting at zero.
pub open spec fn sum_of<T: AllowedNumericTypes>(s: Seq<T>) -> T
    decreases s.len(),
{
    if s.len() == 0 {
        T::zero_spec()
    } else {
        sum_of(s.drop_last()).add_spec(s.last())
    }
}

/// Every addition that `sum_of` makes can be made.
pub open spec fn sum_req<T: AllowedNumericTypes>(s: Seq<T>) -> bool
    decreases s.len(),
{
    s.len() == 0 || (sum_req(s.drop_last()) && sum_of(s.drop_last()).add_req(s.last()))
}

/// The dot product can be computed: each product, then each partial sum.
pub open spec fn dot_req<T: AllowedNumericTypes>(a: Seq<T>, b: Seq<T>) -> bool {
    zip_mul_req(a, b) && sum_req(zip_mul(a, b))
}

/// The dot product: the products at each position, added up from the left.
pub open spec fn dot_of<T: AllowedNumericTypes>(a: Seq<T>, b: Seq<T>) -> T {
    sum_of(zip_mul(a, b))
}

/// Where the elements of `s` can be added up, those of each prefix can.
pub proof fn lemma_sum_req_prefix<T: AllowedNumericTypes>(s: Seq<T>, n: int)
    requires
        sum_req(s),
        0 <= n <= s.len(),
    ensures
        sum_req(s.take(n)),
    decreases s.len(),
{
    if n == s.len() {
        assert(s.take(n) =~= s);
    } else {
        lemma_sum_req_prefix(s.drop_last(), n);
        assert(s.drop_last().take(n) =~= s.take(n));
    }
}

/// The rows of `a` and `b` can be added pairwise.
pub open spec fn rows_add_req<T: AllowedNumericTypes>(a: Seq<Seq<T>>, b: Seq<Seq<T>>) -> bool {
    forall|i: int| 0 <= i < a.len() ==> zip_add_req(#[trigger] a[i], b[i])
}

/// The elementwise sums of the rows of `a` and `b`.
pub open spec fn rows_add<T: AllowedNumericTypes>(a: Seq<Seq<T>>, b: Seq<Seq<T>>) -> Seq<Seq<T>> {
    Seq::new(a.len(), |i: int| zip_add(a[i], b[i]))
}

/// The rows of `a` and `b` can be multiplied pairwise.
pub open spec fn rows_mul_req<T: AllowedNumericTypes>(a: Seq<Seq<T>>, b: Seq<Seq<T>>) -> bool {
    forall|i: int| 0 <= i < a.len() ==> zip_mul_req(#[trigger] a[i], b[i])
}

/// The elementwise products of the rows of `a` and `b`.
pub open spec fn rows_mul<T: AllowedNumericTypes>(a: Seq<Seq<T>>, b: Seq<Seq<T>>) -> Seq<Seq<T>> {
    Seq::new(a.len(), |i: int| zip_mul(a[i], b[i]))
}

/// Every element of every row can be multiplied by `s`.
pub open spec fn rows_each_mul_req<T: AllowedNumericTypes>(a: Seq<Seq<T>>, s: T) -> bool {
    forall|i: int| 0 <= i < a.len() ==> each_mul_req(#[trigger] a[i], s)
}

/// Every element of every row times `s`.
pub open spec fn rows_each_mul<T: AllowedNumericTypes>(a: Seq<Seq<T>>, s: T) -> Seq<Seq<T>> {
    Seq::new(a.len(), |i: int| each_mul(a[i], s))
}

/// The dot product of every row with `v` can be computed.
pub open spec fn rows_dot_req<T: AllowedNumericTypes>(a: Seq<Seq<T>>, v: Seq<T>) -> bool {
    forall|i: int| 0 <= i < a.len() ==> dot_req(#[trigger] a[i], v)
}

/// The dot product of every row with `v`.
pub open spec fn rows_dot<T: AllowedNumericTypes>(a: Seq<Seq<T>>, v: Seq<T>) -> Seq<T> {
    Seq::new(a.len(), |i: int| dot_of(a[i], v))
}

/// The sum of every row.
pub open spec fn row_sums<T: AllowedNumericTypes>(a: Seq<Seq<T>>) -> Seq<T> {
    Seq::new(a.len(), |i: int| sum_of(a[i]))
}

/// Every row can be added up, and so can the sums of the rows.
pub open spec fn total_req<T: AllowedNumericTypes>(a: Seq<Seq<T>>) -> bool {
    (forall|i: int| 0 <= i < a.len() ==> sum_req(#[trigger] a[i])) && sum_req(row_sums(a))
}

/// The sum of all elements: the sums of the rows, added up from the left.
pub open spec fn total_of<T: AllowedNumericTypes>(a: Seq<Seq<T>>) -> T {
    sum_of(row_sums(a))
}

/// The rows `m`, which have `cols` columns, with rows and columns
/// exchanged.
pub open spec fn transposed<T>(m: Seq<Seq<T>>, cols: nat) -> Seq<Seq<T>> {
    Seq::new(cols, |i: int| Seq::new(m.len(), |j: int| m[j][i]))
}

/// Addition on `T` can be made in both orders of its operands or in none,
/// and gives the same for both.
pub open spec fn add_commutes<T: AllowedNumericTypes>() -> bool {
    forall|a: T, b: T|
        #![trigger a.add_req(b)]
        a.add_req(b) ==> b.add_req(a) && a.add_spec(b) == b.add_spec(a)
}

/// Addition on `T` gives the same for both groupings of three operands,
/// wherever the four additions can be made.
pub open spec fn add_associates<T: AllowedNumericTypes>() -> bool {
    forall|a: T, b: T, c: T|
        #![trigger a.add_spec(b).add_spec(c)]
        #![trigger a.add_spec(b.add_spec(c))]
        a.add_req(b) && a.add_spec(b).add_req(c) && b.add_req(c) && a.add_req(b.add_spec(c))
            ==> a.add_spec(b).add_spec(c) == a.add_spec(b.add_spec(c))
}

/// Matrix addition commutes: for two matrices of one shape over a type
/// whose addition commutes, where `a + b` can be computed, `b + a` can, and
/// the two have the same elements.
pub proof fn lemma_matrix_add_commutes<T: AllowedNumericTypes, const N: usize>(
    a: Matrix<T, N>,
    b: Matrix<T, N>,
)
    requires
        add_commutes::<T>(),
        a@.len() == b@.len(),
        rows_add_req(a@, b@),
    ensures
        rows_add_req(b@, a@),
        rows_add(a@, b@) == rows_add(b@, a@),
{
    assert forall|i: int| 0 <= i < a@.len() implies zip_add_req(#[trigger] b@[i], a@[i])
        && zip_add(a@[i], b@[i]) == zip_add(b@[i], a@[i]) by {
        a.lemma_row_len(i);
        b.lemma_row_len(i);
        assert(zip_add_req(a@[i], b@[i]));
        assert forall|j: int| 0 <= j < N implies #[trigger] b@[i][j].add_req(a@[i][j]) by {
            assert(a@[i][j].add_req(b@[i][j]));
        }
        assert forall|j: int| 0 <= j < N implies #[trigger] zip_add(a@[i], b@[i])[j] == zip_add(
            b@[i],
            a@[i],
        )[j] by {
            assert(a@[i][j].add_req(b@[i][j]));
        }
        assert(zip_add(a@[i], b@[i]) =~= zip_add(b@[i], a@[i]));
    }
    assert(rows_add(a@, b@) =~= rows_add(b@, a@));
}

/// Matrix addition associates: for three matrices of one shape over a type
/// whose addition associates, `(a + b) + c` and `a + (b + c)` have the same
/// elements, where both can be computed.
pub proof fn lemma_matrix_add_associates<T: AllowedNumericTypes, const N: usize>(
    a: Matrix<T, N>,
    b: Matrix<T, N>,
    c: Matrix<T, N>,
)
    requires
        add_associates::<T>(),
        a@.len() == b@.len(),
        b@.len() == c@.len(),
        rows_add_req(a@, b@),
        rows_add_req(rows_add(a@, b@), c@),
        rows_add_req(b@, c@),
        rows_add_req(a@, rows_add(b@, c@)),
    ensures
        rows_add(rows_add(a@, b@), c@) == rows_add(a@, rows_add(b@, c@)),
{
    let ab = rows_add(a@, b@);
    let bc = rows_add(b@, c@);
    assert forall|i: int| 0 <= i < a@.len() implies zip_add(ab[i], c@[i]) == zip_add(
        a@[i],
        bc[i],
    ) by {
        a.lemma_row_len(i);
        b.lemma_row_len(i);
        c.lemma_row_len(i);
        assert(zip_add_req(a@[i], b@[i]));
        assert(zip_add_req(ab[i], c@[i]));
        assert(zip_add_req(b@[i], c@[i]));
        assert(zip_add_req(a@[i], bc[i]));
        assert forall|j: int| 0 <= j < N implies zip_add(ab[i], c@[i])[j] == zip_add(
            a@[i],
            bc[i],
        )[j] by {
            let x = a@[i][j];
            let y = b@[i][j];
            let z = c@[i][j];
            assert(x.add_req(y));
            assert(ab[i][j] == x.add_spec(y));
            assert(ab[i][j].add_req(c@[i][j]));
            assert(y.add_req(z));
            assert(bc[i][j] == y.add_spec(z));
            assert(a@[i][j].add_req(bc[i][j]));
            assert(x.add_spec(y).add_spec(z) == x.add_spec(y.add_spec(z)));
        }
        assert(zip_add(ab[i], c@[i]) =~= zip_add(a@[i], bc[i]));
    }
    assert(rows_add(ab, c@) =~= rows_add(a@, bc));
}

/// Transposing twice gives the matrix back.
pub proof fn lemma_transpose_twice<T: AllowedNumericTypes, const N: usize>(m: Matrix<T, N>)
    ensures
        transposed(transposed(m@, N as nat), m@.len()) == m@,
{
    let there = transposed(m@, N as nat);
    let back = transposed(there, m@.len());
    assert forall|i: int| 0 <= i < m@.len() implies back[i] == m@[i] by {
        m.lemma_row_len(i);
        assert(back[i] =~= m@[i]);
    }
    assert(back =~= m@);
}

} // verus!
