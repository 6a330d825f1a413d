//! The points that the solver and the registry work on.
//!
//! The library never looks inside a point and does no arithmetic of its own
//! on one: it decides which operation is applied to what, and in which
//! order. Its contracts speak of an operation through what a call of it may
//! return: `call_ensures(P::minus, (a, b), d)` reads "`d` is what `a - b`
//! gave".

use vstd::prelude::*;

verus! {

/// A point of the plane, with the arithmetic that finding and sorting roots
/// takes. Nothing is promised of an implementation, and none may refuse an
/// argument.
pub trait Point: Copy {
    /// `self - other`.
    fn minus(self, other: Self) -> Self;

    /// `self + other`.
    fn plus(self, other: Self) -> Self;

    /// `self / other`.
    fn over(self, other: Self) -> Self;

    /// `self` multiplied by a count.
    fn times(self, n: usize) -> Self;

    /// `self` divided by a count.
    fn shared(self, n: usize) -> Self;

    /// Whether a step of this size is short enough to end the iteration. A
    /// step whose size is not a number is not.
    fn is_settled(self) -> bool;

    /// Whether a difference of this size puts two roots into one cluster.
    fn is_near(self) -> bool;
}

/// Every operation of `P` returns one thing for one input.
pub open spec fn single_valued_point<P: Point>() -> bool {
    &&& forall|a: P, b: P, x: P, y: P|
        #![trigger call_ensures(P::minus, (a, b), x), call_ensures(P::minus, (a, b), y)]
        call_ensures(P::minus, (a, b), x) && call_ensures(P::minus, (a, b), y) ==> x == y
    &&& forall|a: P, b: P, x: P, y: P|
        #![trigger call_ensures(P::plus, (a, b), x), call_ensures(P::plus, (a, b), y)]
        call_ensures(P::plus, (a, b), x) && call_ensures(P::plus, (a, b), y) ==> x == y
    &&& forall|a: P, b: P, x: P, y: P|
        #![trigger call_ensures(P::over, (a, b), x), call_ensures(P::over, (a, b), y)]
        call_ensures(P::over, (a, b), x) && call_ensures(P::over, (a, b), y) ==> x == y
    &&& forall|a: P, n: usize, x: P, y: P|
        #![trigger call_ensures(P::times, (a, n), x), call_ensures(P::times, (a, n), y)]
        call_ensures(P::times, (a, n), x) && call_ensures(P::times, (a, n), y) ==> x == y
    &&& forall|a: P, n: usize, x: P, y: P|
        #![trigger call_ensures(P::shared, (a, n), x), call_ensures(P::shared, (a, n), y)]
        call_ensures(P::shared, (a, n), x) && call_ensures(P::shared, (a, n), y) ==> x == y
    &&& forall|a: P, x: bool, y: bool|
        #![trigger call_ensures(P::is_settled, (a,), x), call_ensures(P::is_settled, (a,), y)]
        call_ensures(P::is_settled, (a,), x) && call_ensures(P::is_settled, (a,), y) ==> x == y
    &&& forall|a: P, x: bool, y: bool|
        #![trigger call_ensures(P::is_near, (a,), x), call_ensures(P::is_near, (a,), y)]
        call_ensures(P::is_near, (a,), x) && call_ensures(P::is_near, (a,), y) ==> x == y
}

/// Calls an operation on one argument and keeps what it was called with.
pub(crate) fn call1<A, R, T: Fn(A) -> R>(op: T, a: A) -> (r: R)
    requires
        call_requires(op, (a,)),
    ensures
        call_ensures(op, (a,), r),
{
    op(a)
}

/// Calls an operation on two arguments and keeps what it was called with.
pub(crate) fn call2<A, B, R, T: Fn(A, B) -> R>(op: T, a: A, b: B) -> (r: R)
    requires
        call_requires(op, (a, b)),
    ensures
        call_ensures(op, (a, b), r),
{
    op(a, b)
}

} // verus!
