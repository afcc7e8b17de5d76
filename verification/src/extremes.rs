//! Greatest and least elements: what it means to be the first of them, the
//! scan that finds it, and the same for the rows of a matrix.

use crate::tensor::{AllowedNumericTypes, Matrix};
use vstd::prelude::*;

verus! {

/// Any two elements of `s` can be compared.
pub open spec fn pairwise_comparable<T: AllowedNumericTypes>(s: Seq<T>) -> bool {
    forall|i: int, j: int|
        0 <= i < s.len() && 0 <= j < s.len() ==> crate::order::comparable(
            #[trigger] s[i],
            #[trigger] s[j],
        )
}

/// `k` is the first position of a greatest element of `s`.
pub open spec fn is_first_max<T: AllowedNumericTypes>(s: Seq<T>, k: int) -> bool {
    &&& 0 <= k < s.len()
    &&& forall|j: int| 0 <= j < s.len() ==> crate::order::at_most(#[trigger] s[j], s[k])
    &&& forall|j: int| 0 <= j < k ==> crate::order::less(#[trigger] s[j], s[k])
}

/// `k` is the first position of a least element of `s`.
pub open spec fn is_first_min<T: AllowedNumericTypes>(s: Seq<T>, k: int) -> bool {
    &&& 0 <= k < s.len()
    &&& forall|j: int| 0 <= j < s.len() ==> crate::order::at_most(s[k], #[trigger] s[j])
    &&& forall|j: int| 0 <= j < k ==> crate::order::less(s[k], #[trigger] s[j])
}

/// A sequence has at most one first position of a greatest element.
pub proof fn lemma_first_max_unique<T: AllowedNumericTypes>(s: Seq<T>, k1: int, k2: int)
    requires
        is_first_max(s, k1),
        is_first_max(s, k2),
    ensures
        k1 == k2,
{
    T::lemma_laws();
    if k1 < k2 {
        assert(crate::order::less(s[k1], s[k2]));
        assert(crate::order::at_most(s[k2], s[k1]));
        assert(crate::order::at_most(s[k2], s[k1]) && crate::order::less(s[k1], s[k2]));
        assert(crate::order::less(s[k2], s[k2]));
        assert(crate::order::greater(s[k2], s[k2]));
    } else if k2 < k1 {
        assert(crate::order::less(s[k2], s[k1]));
        assert(crate::order::at_most(s[k1], s[k2]) && crate::order::less(s[k2], s[k1]));
        assert(crate::order::less(s[k1], s[k1]));
        assert(crate::order::greater(s[k1], s[k1]));
    }
}

/// A sequence has at most one first position of a least element.
pub proof fn lemma_first_min_unique<T: AllowedNumericTypes>(s: Seq<T>, k1: int, k2: int)
    requires
        is_first_min(s, k1),
        is_first_min(s, k2),
    ensures
        k1 == k2,
{
    T::lemma_laws();
    if k1 < k2 {
        assert(crate::order::less(s[k2], s[k1]));
        assert(crate::order::less(s[k2], s[k1]) && crate::order::at_most(s[k1], s[k2]));
        assert(crate::order::less(s[k2], s[k2]));
        assert(crate::order::greater(s[k2], s[k2]));
    } else if k2 < k1 {
        assert(crate::order::less(s[k1], s[k2]));
        assert(crate::order::less(s[k1], s[k2]) && crate::order::at_most(s[k2], s[k1]));
        assert(crate::order::less(s[k1], s[k1]));
        assert(crate::order::greater(s[k1], s[k1]));
    }
}

/// The position that a scan from the front ends on, when it moves on only
/// to an element that is greater than the one it holds. Zero for no elements.
pub open spec fn first_max_index<T: AllowedNumericTypes>(s: Seq<T>) -> int
    decreases s.len(),
{
    if s.len() <= 1 {
        0
    } else {
        let best = first_max_index(s.drop_last());
        if crate::order::greater(s.last(), s[best]) {
            s.len() - 1
        } else {
            best
        }
    }
}

/// The position that a scan from the front ends on, when it moves on only
/// to an element that is less than the one it holds. Zero for no elements.
pub open spec fn first_min_index<T: AllowedNumericTypes>(s: Seq<T>) -> int
    decreases s.len(),
{
    if s.len() <= 1 {
        0
    } else {
        let best = first_min_index(s.drop_last());
        if crate::order::less(s.last(), s[best]) {
            s.len() - 1
        } else {
            best
        }
    }
}

/// The scan for a greatest element ends inside the sequence.
pub proof fn lemma_first_max_index_in_range<T: AllowedNumericTypes>(s: Seq<T>)
    requires
        s.len() > 0,
    ensures
        0 <= first_max_index(s) < s.len(),
    decreases s.len(),
{
    if s.len() > 1 {
        lemma_first_max_index_in_range(s.drop_last());
    }
}

/// The scan for a least element ends inside the sequence.
pub proof fn lemma_first_min_index_in_range<T: AllowedNumericTypes>(s: Seq<T>)
    requires
        s.len() > 0,
    ensures
        0 <= first_min_index(s) < s.len(),
    decreases s.len(),
{
    if s.len() > 1 {
        lemma_first_min_index_in_range(s.drop_last());
    }
}

/// Where any two elements can be compared, the scan ends on the first
/// position of a greatest element.
pub proof fn lemma_first_max_index_is_first_max<T: AllowedNumericTypes>(s: Seq<T>)
    requires
        s.len() > 0,
        pairwise_comparable(s),
    ensures
        is_first_max(s, first_max_index(s)),
    decreases s.len(),
{
    T::lemma_laws();
    if s.len() == 1 {
        assert(crate::order::comparable(s[0], s[0]));
    } else {
        let t = s.drop_last();
        assert forall|i: int, j: int| 0 <= i < t.len() && 0 <= j < t.len() implies crate::order::comparable(
            #[trigger] t[i],
            #[trigger] t[j],
        ) by {
            assert(t[i] == s[i] && t[j] == s[j]);
        }
        lemma_first_max_index_is_first_max(t);
        lemma_first_max_index_in_range(t);
        let best = first_max_index(t);
        let last = s.len() - 1;
        assert(s[best] == t[best]);
        assert(crate::order::comparable(s[last], s[best]));
        assert(crate::order::comparable(s[last], s[last]));
        if crate::order::greater(s.last(), s[best]) {
            assert(crate::order::less(s[best], s[last]));
            assert forall|j: int| 0 <= j < last implies crate::order::less(
                #[trigger] s[j],
                s[last],
            ) by {
                assert(s[j] == t[j]);
                assert(crate::order::at_most(t[j], t[best]));
                assert(crate::order::at_most(s[j], s[best]) && crate::order::less(
                    s[best],
                    s[last],
                ));
            }
        } else {
            crate::order::lemma_comparable_cases(s[last], s[best]);
            assert(crate::order::at_most(s[last], s[best]));
            assert forall|j: int| 0 <= j < s.len() implies crate::order::at_most(
                #[trigger] s[j],
                s[best],
            ) by {
                if j < last {
                    assert(s[j] == t[j]);
                }
            }
            assert forall|j: int| 0 <= j < best implies crate::order::less(
                #[trigger] s[j],
                s[best],
            ) by {
                assert(s[j] == t[j]);
            }
        }
    }
}

/// Where any two elements can be compared, the scan ends on the first
/// position of a least element.
pub proof fn lemma_first_min_index_is_first_min<T: AllowedNumericTypes>(s: Seq<T>)
    requires
        s.len() > 0,
        pairwise_comparable(s),
    ensures
        is_first_min(s, first_min_index(s)),
    decreases s.len(),
{
    T::lemma_laws();
    if s.len() == 1 {
        assert(crate::order::comparable(s[0], s[0]));
    } else {
        let t = s.drop_last();
        assert forall|i: int, j: int| 0 <= i < t.len() && 0 <= j < t.len() implies crate::order::comparable(
            #[trigger] t[i],
            #[trigger] t[j],
        ) by {
            assert(t[i] == s[i] && t[j] == s[j]);
        }
        lemma_first_min_index_is_first_min(t);
        lemma_first_min_index_in_range(t);
        let best = first_min_index(t);
        let last = s.len() - 1;
        assert(s[best] == t[best]);
        assert(crate::order::comparable(s[last], s[best]));
        assert(crate::order::comparable(s[best], s[last]));
        assert(crate::order::comparable(s[last], s[last]));
        if crate::order::less(s.last(), s[best]) {
            assert forall|j: int| 0 <= j < last implies crate::order::less(
                s[last],
                #[trigger] s[j],
            ) by {
                assert(s[j] == t[j]);
                assert(crate::order::at_most(t[best], t[j]));
                assert(crate::order::less(s[last], s[best]) && crate::order::at_most(
                    s[best],
                    s[j],
                ));
            }
        } else {
            assert(crate::order::greater(s[best], s[last]) <==> crate::order::less(
                s[last],
                s[best],
            ));
            crate::order::lemma_comparable_cases(s[best], s[last]);
            assert(crate::order::at_most(s[best], s[last]));
            assert forall|j: int| 0 <= j < s.len() implies crate::order::at_most(
                s[best],
                #[trigger] s[j],
            ) by {
                if j < last {
                    assert(s[j] == t[j]);
                }
            }
            assert forall|j: int| 0 <= j < best implies crate::order::less(
                s[best],
                #[trigger] s[j],
            ) by {
                assert(s[j] == t[j]);
            }
        }
    }
}

/// The greatest element of `s`, taken at its first position, or zero where
/// `s` has no element.
pub open spec fn max_of<T: AllowedNumericTypes>(s: Seq<T>) -> T {
    if s.len() == 0 {
        T::zero_spec()
    } else {
        s[first_max_index(s)]
    }
}

/// The least element of `s`, taken at its first position, or zero where `s`
/// has no element.
pub open spec fn min_of<T: AllowedNumericTypes>(s: Seq<T>) -> T {
    if s.len() == 0 {
        T::zero_spec()
    } else {
        s[first_min_index(s)]
    }
}

/// Scans `values` from the front for the first position of a greatest
/// element; zero where there is no element.
pub(crate) fn first_max_position<T: AllowedNumericTypes>(values: &[T]) -> (best: usize)
    ensures
        best == first_max_index(values@),
        values@.len() > 0 ==> best < values@.len(),
{
    if values.len() == 0 {
        return 0;
    }
    let mut best: usize = 0;
    let mut i: usize = 1;
    proof {
        T::lemma_laws();
        assert(values@.take(1).len() == 1);
    }
    while i < values.len()
        invariant
            1 <= i <= values@.len(),
            best < i,
            best == first_max_index(values@.take(i as int)),
            crate::order::obeys_order::<T>(),
        decreases values@.len() - i,
    {
        proof {
            assert(values@.take(i + 1).drop_last() =~= values@.take(i as int));
            assert(values@.take(i + 1).last() == values@[i as int]);
        }
        if values[i] > values[best] {
            best = i;
        }
        i = i + 1;
    }
    proof {
        assert(values@.take(values@.len() as int) =~= values@);
    }
    best
}

/// Scans `values` from the front for the first position of a least
/// element; zero where there is no element.
pub(crate) fn first_min_position<T: AllowedNumericTypes>(values: &[T]) -> (best: usize)
    ensures
        best == first_min_index(values@),
        values@.len() > 0 ==> best < values@.len(),
{
    if values.len() == 0 {
        return 0;
    }
    let mut best: usize = 0;
    let mut i: usize = 1;
    proof {
        T::lemma_laws();
        assert(values@.take(1).len() == 1);
    }
    while i < values.len()
        invariant
            1 <= i <= values@.len(),
            best < i,
            best == first_min_index(values@.take(i as int)),
            crate::order::obeys_order::<T>(),
        decreases values@.len() - i,
    {
        proof {
            assert(values@.take(i + 1).drop_last() =~= values@.take(i as int));
            assert(values@.take(i + 1).last() == values@[i as int]);
        }
        if values[i] < values[best] {
            best = i;
        }
        i = i + 1;
    }
    proof {
        assert(values@.take(values@.len() as int) =~= values@);
    }
    best
}

/// The greatest element of every row.
pub open spec fn row_maxima<T: AllowedNumericTypes>(a: Seq<Seq<T>>) -> Seq<T> {
    Seq::new(a.len(), |i: int| max_of(a[i]))
}

/// The least element of every row.
pub open spec fn row_minima<T: AllowedNumericTypes>(a: Seq<Seq<T>>) -> Seq<T> {
    Seq::new(a.len(), |i: int| min_of(a[i]))
}

/// The elements of every row can be compared with each other.
pub open spec fn rows_comparable<T: AllowedNumericTypes>(a: Seq<Seq<T>>) -> bool {
    forall|i: int| 0 <= i < a.len() ==> pairwise_comparable(#[trigger] a[i])
}

/// The row and the column of the first greatest element, going through the
/// rows in order and through each row from the front.
pub open spec fn argmax_of<T: AllowedNumericTypes>(a: Seq<Seq<T>>) -> (int, int) {
    if a.len() == 0 {
        (0, 0)
    } else {
        let row = first_max_index(row_maxima(a));
        (row, first_max_index(a[row]))
    }
}

/// The position `argmax_of` is that of a greatest element, and the first
/// such position when the rows are gone through in order and each row from
/// the front: no element is greater than the one there, and every element
/// before it is less.
pub proof fn lemma_argmax_is_first_greatest<T: AllowedNumericTypes, const N: usize>(
    m: Matrix<T, N>,
)
    requires
        m@.len() > 0,
        N > 0,
        rows_comparable(m@),
        pairwise_comparable(row_maxima(m@)),
    ensures
        0 <= argmax_of(m@).0 < m@.len(),
        0 <= argmax_of(m@).1 < N,
        forall|a: int, b: int|
            0 <= a < m@.len() && 0 <= b < N ==> crate::order::at_most(
                #[trigger] m@[a][b],
                m@[argmax_of(m@).0][argmax_of(m@).1],
            ),
        forall|a: int, b: int|
            0 <= a < m@.len() && 0 <= b < N && (a < argmax_of(m@).0 || (a == argmax_of(m@).0 && b
                < argmax_of(m@).1)) ==> crate::order::less(
                #[trigger] m@[a][b],
                m@[argmax_of(m@).0][argmax_of(m@).1],
            ),
{
    T::lemma_laws();
    let maxima = row_maxima(m@);
    let row = first_max_index(maxima);
    lemma_first_max_index_is_first_max(maxima);
    m.lemma_row_len(row);
    let col = first_max_index(m@[row]);
    assert(pairwise_comparable(m@[row]));
    lemma_first_max_index_is_first_max(m@[row]);
    let top = m@[row][col];
    assert(maxima[row] == top);
    assert forall|a: int, b: int| 0 <= a < m@.len() && 0 <= b < N implies crate::order::at_most(
        #[trigger] m@[a][b],
        top,
    ) && ((a < row || (a == row && b < col)) ==> crate::order::less(m@[a][b], top)) by {
        m.lemma_row_len(a);
        assert(pairwise_comparable(m@[a]));
        lemma_first_max_index_is_first_max(m@[a]);
        let here = m@[a][first_max_index(m@[a])];
        assert(maxima[a] == here);
        assert(crate::order::at_most(m@[a][b], here));
        assert(crate::order::at_most(maxima[a], maxima[row]));
        assert(crate::order::at_most(m@[a][b], here) && crate::order::at_most(here, top));
        if a < row {
            assert(crate::order::less(maxima[a], maxima[row]));
            assert(crate::order::at_most(m@[a][b], here) && crate::order::less(here, top));
        }
    }
}

/// The least of the least elements of the rows is a least element of the
/// matrix: it stands in the matrix, and no element is less.
pub proof fn lemma_min_of_minima_is_least<T: AllowedNumericTypes, const N: usize>(m: Matrix<T, N>)
    requires
        m@.len() > 0,
        N > 0,
        rows_comparable(m@),
        pairwise_comparable(row_minima(m@)),
    ensures
        exists|a: int, b: int|
            0 <= a < m@.len() && 0 <= b < N && #[trigger] m@[a][b] == min_of(row_minima(m@)),
        forall|a: int, b: int|
            0 <= a < m@.len() && 0 <= b < N ==> crate::order::at_most(
                min_of(row_minima(m@)),
                #[trigger] m@[a][b],
            ),
{
    T::lemma_laws();
    let minima = row_minima(m@);
    let row = first_min_index(minima);
    lemma_first_min_index_is_first_min(minima);
    m.lemma_row_len(row);
    assert(pairwise_comparable(m@[row]));
    lemma_first_min_index_is_first_min(m@[row]);
    let col = first_min_index(m@[row]);
    let bottom = m@[row][col];
    assert(minima[row] == bottom);
    assert(min_of(minima) == bottom);
    assert forall|a: int, b: int| 0 <= a < m@.len() && 0 <= b < N implies crate::order::at_most(
        bottom,
        #[trigger] m@[a][b],
    ) by {
        m.lemma_row_len(a);
        assert(pairwise_comparable(m@[a]));
        lemma_first_min_index_is_first_min(m@[a]);
        let here = m@[a][first_min_index(m@[a])];
        assert(minima[a] == here);
        assert(crate::order::at_most(minima[row], minima[a]));
        assert(crate::order::at_most(bottom, here) && crate::order::at_most(here, m@[a][b]));
    }
}

} // verus!
