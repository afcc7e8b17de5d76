//! The integer element types, and what their arithmetic means on the
//! integers.

use crate::tensor::{AllowedNumericTypes, Matrix};
use vstd::prelude::*;
use vstd::std_specs::ops::{AddSpec, MulSpec, SubSpec};

verus! {

impl AllowedNumericTypes for i32 {
    open spec fn zero_spec() -> i32 {
        0i32
    }

    open spec fn one_spec() -> i32 {
        1i32
    }

    open spec fn is_zero_spec(self) -> bool {
        self == 0
    }

    open spec fn abs_req(self) -> bool {
        self != i32::MIN
    }

    open spec fn abs_spec(self) -> i32 {
        if self < 0 {
            (-self) as i32
        } else {
            self
        }
    }

    open spec fn from_usize_spec(n: usize) -> Option<i32> {
        if n <= i32::MAX {
            Some(n as i32)
        } else {
            None
        }
    }

    fn zero() -> (r: i32) {
        0
    }

    fn one() -> (r: i32) {
        1
    }

    fn is_zero(&self) -> (r: bool) {
        *self == 0
    }

    fn abs(self) -> (r: i32) {
        if self < 0 {
            -self
        } else {
            self
        }
    }

    fn from_usize(n: usize) -> (r: Option<i32>) {
        if n <= 0x7fff_ffff {
            Some(n as i32)
        } else {
            None
        }
    }

    proof fn lemma_laws() {
    }
}

impl AllowedNumericTypes for i64 {
    open spec fn zero_spec() -> i64 {
        0i64
    }

    open spec fn one_spec() -> i64 {
        1i64
    }

    open spec fn is_zero_spec(self) -> bool {
        self == 0
    }

    open spec fn abs_req(self) -> bool {
        self != i64::MIN
    }

    open spec fn abs_spec(self) -> i64 {
        if self < 0 {
            (-self) as i64
        } else {
            self
        }
    }

    open spec fn from_usize_spec(n: usize) -> Option<i64> {
        if n <= i64::MAX {
            Some(n as i64)
        } else {
            None
        }
    }

    fn zero() -> (r: i64) {
        0
    }

    fn one() -> (r: i64) {
        1
    }

    fn is_zero(&self) -> (r: bool) {
        *self == 0
    }

    fn abs(self) -> (r: i64) {
        if self < 0 {
            -self
        } else {
            self
        }
    }

    fn from_usize(n: usize) -> (r: Option<i64>) {
        if n as u64 <= 0x7fff_ffff_ffff_ffff {
            Some(n as i64)
        } else {
            None
        }
    }

    proof fn lemma_laws() {
    }
}

impl AllowedNumericTypes for u32 {
    open spec fn zero_spec() -> u32 {
        0u32
    }

    open spec fn one_spec() -> u32 {
        1u32
    }

    open spec fn is_zero_spec(self) -> bool {
        self == 0
    }

    open spec fn abs_req(self) -> bool {
        true
    }

    open spec fn abs_spec(self) -> u32 {
        self
    }

    open spec fn from_usize_spec(n: usize) -> Option<u32> {
        if n <= u32::MAX {
            Some(n as u32)
        } else {
            None
        }
    }

    fn zero() -> (r: u32) {
        0
    }

    fn one() -> (r: u32) {
        1
    }

    fn is_zero(&self) -> (r: bool) {
        *self == 0
    }

    fn abs(self) -> (r: u32) {
        self
    }

    fn from_usize(n: usize) -> (r: Option<u32>) {
        if n <= 0xffff_ffff {
            Some(n as u32)
        } else {
            None
        }
    }

    proof fn lemma_laws() {
    }
}

impl AllowedNumericTypes for u64 {
    open spec fn zero_spec() -> u64 {
        0u64
    }

    open spec fn one_spec() -> u64 {
        1u64
    }

    open spec fn is_zero_spec(self) -> bool {
        self == 0
    }

    open spec fn abs_req(self) -> bool {
        true
    }

    open spec fn abs_spec(self) -> u64 {
        self
    }

    open spec fn from_usize_spec(n: usize) -> Option<u64> {
        Some(n as u64)
    }

    fn zero() -> (r: u64) {
        0
    }

    fn one() -> (r: u64) {
        1
    }

    fn is_zero(&self) -> (r: bool) {
        *self == 0
    }

    fn abs(self) -> (r: u64) {
        self
    }

    fn from_usize(n: usize) -> (r: Option<u64>) {
        Some(n as u64)
    }

    proof fn lemma_laws() {
    }
}

/// An element type whose values are the integers of a range, and whose
/// `+`, `-` and `*` are those of the integers wherever the result is in that
/// range.
pub trait IntegerElement: AllowedNumericTypes {
    /// The integer that `self` stands for.
    spec fn value(self) -> int;

    /// Whether the type has a value for `v`.
    spec fn fits(v: int) -> bool;

    /// Zero stands for 0, different values stand for different integers, and
    /// each operator can be applied exactly where the integer result fits,
    /// which it then returns.
    proof fn lemma_integer()
        ensures
            Self::zero_spec().value() == 0,
            forall|a: Self| Self::fits(#[trigger] a.value()),
            forall|a: Self, b: Self|
                #![trigger a.value(), b.value()]
                a.value() == b.value() ==> a == b,
            forall|a: Self, b: Self|
                #![trigger a.add_req(b)]
                a.add_req(b) <==> Self::fits(a.value() + b.value()),
            forall|a: Self, b: Self|
                #![trigger a.add_spec(b)]
                a.add_req(b) ==> a.add_spec(b).value() == a.value() + b.value(),
            forall|a: Self, b: Self|
                #![trigger a.sub_req(b)]
                a.sub_req(b) <==> Self::fits(a.value() - b.value()),
            forall|a: Self, b: Self|
                #![trigger a.sub_spec(b)]
                a.sub_req(b) ==> a.sub_spec(b).value() == a.value() - b.value(),
            forall|a: Self, b: Self|
                #![trigger a.mul_req(b)]
                a.mul_req(b) <==> Self::fits(a.value() * b.value()),
            forall|a: Self, b: Self|
                #![trigger a.mul_spec(b)]
                a.mul_req(b) ==> a.mul_spec(b).value() == a.value() * b.value(),
    ;
}

impl IntegerElement for i32 {
    open spec fn value(self) -> int {
        self as int
    }

    open spec fn fits(v: int) -> bool {
        i32::MIN <= v <= i32::MAX
    }

    proof fn lemma_integer() {
    }
}

impl IntegerElement for i64 {
    open spec fn value(self) -> int {
        self as int
    }

    open spec fn fits(v: int) -> bool {
        i64::MIN <= v <= i64::MAX
    }

    proof fn lemma_integer() {
    }
}

impl IntegerElement for u32 {
    open spec fn value(self) -> int {
        self as int
    }

    open spec fn fits(v: int) -> bool {
        u32::MIN <= v <= u32::MAX
    }

    proof fn lemma_integer() {
    }
}

impl IntegerElement for u64 {
    open spec fn value(self) -> int {
        self as int
    }

    open spec fn fits(v: int) -> bool {
        u64::MIN <= v <= u64::MAX
    }

    proof fn lemma_integer() {
    }
}

/// The integers that the elements of `s` stand for.
pub open spec fn values<T: IntegerElement>(s: Seq<T>) -> Seq<int> {
    Seq::new(s.len(), |i: int| s[i].value())
}

/// The sum of the integers `s`.
pub open spec fn int_sum(s: Seq<int>) -> int
    decreases s.len(),
{
    if s.len() == 0 {
        0
    } else {
        int_sum(s.drop_last()) + s.last()
    }
}

/// The dot product of the integers `a` and `b`.
pub open spec fn int_dot(a: Seq<int>, b: Seq<int>) -> int {
    int_sum(Seq::new(a.len(), |i: int| a[i] * b[i]))
}

/// On an integer element type, addition commutes and associates, and sums
/// lose nothing.
pub proof fn lemma_integer_sums<T: IntegerElement>()
    ensures
        crate::algebra::add_commutes::<T>(),
        crate::algebra::add_associates::<T>(),
        crate::arithmetic::exact_sums::<T>(),
{
    T::lemma_integer();
    assert forall|a: T, b: T| #![trigger a.add_req(b)] a.add_req(b) implies b.add_req(a)
        && a.add_spec(b) == b.add_spec(a) by {
        assert(b.add_req(a));
        assert(a.add_spec(b).value() == b.add_spec(a).value());
    }
    assert forall|a: T, b: T, c: T|
        a.add_req(b) && a.add_spec(b).add_req(c) && b.add_req(c) && a.add_req(
            b.add_spec(c),
        ) implies #[trigger] a.add_spec(b).add_spec(c) == a.add_spec(b.add_spec(c)) by {
        assert(a.add_spec(b).add_spec(c).value() == a.add_spec(b.add_spec(c)).value());
    }
    assert forall|a: T|
        #![trigger a.sub_req(T::zero_spec())]
        a.sub_req(T::zero_spec()) && a.sub_spec(T::zero_spec()) == a by {
        assert(T::fits(a.value()));
        assert(a.sub_spec(T::zero_spec()).value() == a.value());
    }
    assert forall|a: T, b: T| #![trigger a.add_spec(b)] a.add_req(b) implies a.add_spec(b).sub_req(
        a,
    ) && a.add_spec(b).sub_spec(a) == b by {
        assert(T::fits(b.value()));
        assert(a.add_spec(b).value() - a.value() == b.value());
        assert(a.add_spec(b).sub_spec(a).value() == b.value());
    }
    assert forall|a: T| #![trigger a.sub_req(a)] a.sub_req(a) && a.sub_spec(a) == T::zero_spec() by {
        assert(T::fits(T::zero_spec().value()));
        assert(a.sub_spec(a).value() == T::zero_spec().value());
    }
}

/// Where the elements of `s` can be added up, their sum stands for the sum
/// of the integers that they stand for.
pub proof fn lemma_sum_value<T: IntegerElement>(s: Seq<T>)
    requires
        crate::algebra::sum_req(s),
    ensures
        crate::algebra::sum_of(s).value() == int_sum(values(s)),
    decreases s.len(),
{
    T::lemma_integer();
    if s.len() > 0 {
        lemma_sum_value(s.drop_last());
        assert(values(s).drop_last() =~= values(s.drop_last()));
        assert(values(s).last() == s.last().value());
    }
}

/// Where the dot product of `a` and `b` can be computed, it stands for the
/// dot product of the integers that their elements stand for.
pub proof fn lemma_dot_value<T: IntegerElement>(a: Seq<T>, b: Seq<T>)
    requires
        a.len() == b.len(),
        crate::algebra::dot_req(a, b),
    ensures
        crate::algebra::dot_of(a, b).value() == int_dot(values(a), values(b)),
{
    T::lemma_integer();
    let terms = crate::algebra::zip_mul(a, b);
    lemma_sum_value(terms);
    assert forall|i: int| 0 <= i < a.len() implies terms[i].value() == a[i].value()
        * b[i].value() by {
        assert(a[i].mul_req(b[i]));
    }
    assert(values(terms) =~= Seq::new(
        values(a).len(),
        |i: int| values(a)[i] * values(b)[i],
    ));
}

/// Over an integer element type, every cell of a matrix product that can be
/// computed stands for the dot product, on the integers, of a row of `lhs`
/// and a column of `rhs`.
pub proof fn lemma_mat_mul_value<T: IntegerElement, const N: usize, const M: usize>(
    lhs: Matrix<T, N>,
    rhs: Matrix<T, M>,
    i: int,
    j: int,
)
    requires
        rhs@.len() == N,
        crate::arithmetic::mat_mul_req(lhs@, rhs@, M as nat),
        0 <= i < lhs@.len(),
        0 <= j < M,
    ensures
        crate::arithmetic::mat_mul_of(lhs@, rhs@, M as nat)[i][j].value() == int_dot(
            values(lhs@[i]),
            values(crate::arithmetic::column(rhs@, j)),
        ),
{
    lemma_integer_sums::<T>();
    crate::arithmetic::lemma_mat_mul_is_plain(lhs, rhs);
    lhs.lemma_row_len(i);
    let row = lhs@[i];
    let col = crate::arithmetic::column(rhs@, j);
    assert(crate::arithmetic::cell_req(row, col));
    crate::arithmetic::lemma_kahan_is_plain_sum(crate::algebra::zip_mul(row, col));
    lemma_dot_value(row, col);
}

} // verus!
