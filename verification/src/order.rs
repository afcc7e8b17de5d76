//! The comparison of two values, as specifications speak of it.

use core::cmp::Ordering;
use vstd::prelude::*;
use vstd::std_specs::cmp::PartialOrdSpec;

verus! {

/// `<` and `>` on `T` return what `partial_cmp_spec` says.
pub open spec fn obeys_order<T: PartialOrd>() -> bool {
    T::obeys_partial_cmp_spec()
}

/// `a` and `b` can be compared.
pub open spec fn comparable<T: PartialOrd>(a: T, b: T) -> bool {
    a.partial_cmp_spec(&b) is Some
}

/// `a < b`.
pub open spec fn less<T: PartialOrd>(a: T, b: T) -> bool {
    a.partial_cmp_spec(&b) == Some(Ordering::Less)
}

/// `a > b`.
pub open spec fn greater<T: PartialOrd>(a: T, b: T) -> bool {
    a.partial_cmp_spec(&b) == Some(Ordering::Greater)
}

/// `a <= b`.
pub open spec fn at_most<T: PartialOrd>(a: T, b: T) -> bool {
    a.partial_cmp_spec(&b) == Some(Ordering::Less) || a.partial_cmp_spec(&b) == Some(
        Ordering::Equal,
    )
}

/// Of two values that can be compared, the first is at most the second or
/// greater than it.
pub proof fn lemma_comparable_cases<T: PartialOrd>(a: T, b: T)
    requires
        comparable(a, b),
    ensures
        at_most(a, b) || greater(a, b),
        !(at_most(a, b) && greater(a, b)),
        !(less(a, b) && greater(a, b)),
        less(a, b) ==> at_most(a, b),
{
    match a.partial_cmp_spec(&b) {
        Some(Ordering::Less) => {},
        Some(Ordering::Equal) => {},
        Some(Ordering::Greater) => {},
        None => {},
    }
}

} // verus!
