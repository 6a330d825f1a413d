//! Newton's iteration under a fixed budget, and the trait that ties a plane
//! to the raster.

use crate::point::{call1, call2, single_valued_point, Point};
use vstd::prelude::*;

verus! {

/// The iteration budget: a start that has not settled after this many steps
/// has no root.
pub const MAX_IT: usize = 1000;

/// A plane whose points can be laid over a raster: a rectangle of it, given
/// by its two corners `min` and `max`, is divided into `width` columns and
/// `height` rows. An index is `[row, column]`.
///
/// Nothing is promised of an implementation: the renderer states what it
/// hands to `from_index` and works with whatever point comes back.
pub trait AsIndex: Sized {
    /// The index of the cell that `self` falls into. At the upper edge of
    /// the rectangle this is one past the last cell.
    fn as_index(&self, min: Self, max: Self, width: usize, height: usize) -> [usize; 2];

    /// The point at the lower corner of the cell `idx`.
    fn from_index(idx: [usize; 2], min: Self, max: Self, width: usize, height: usize) -> Self
        requires
            width > 0,
            height > 0,
    ;
}

/// One step of the iteration from `z`: the function and its derivative are
/// evaluated at `z`, the next point is `z - f(z) / df(z)`, and the step
/// `z_next - z` is judged settled or not.
pub open spec fn stepped<P: Point, F: Fn(P) -> P, DF: Fn(P) -> P>(f: &F, df: &DF, z: P, z_next: P, done: bool) -> bool {
    exists|fz: P, dfz: P, quotient: P, step: P|
        {
            &&& #[trigger] call_ensures(f, (z,), fz)
            &&& #[trigger] call_ensures(df, (z,), dfz)
            &&& #[trigger] call_ensures(P::over, (fz, dfz), quotient)
            &&& call_ensures(P::minus, (z, quotient), z_next)
            &&& #[trigger] call_ensures(P::minus, (z_next, z), step)
            &&& call_ensures(P::is_settled, (step,), done)
        }
}

/// What the iteration started at `z` with `budget` steps left may end in:
/// the first point whose step has settled, or nothing once the budget is
/// spent. The point before an unsettled last step is never the answer.
pub open spec fn solved<P: Point, F: Fn(P) -> P, DF: Fn(P) -> P>(f: &F, df: &DF, z: P, budget: nat, root: Option<P>) -> bool
    decreases budget,
{
    if budget == 0 {
        root is None
    } else {
        exists|z_next: P, done: bool|
            {
                &&& #[trigger] stepped(f, df, z, z_next, done)
                &&& if done {
                    root == Some(z_next)
                } else {
                    solved(f, df, z_next, (budget - 1) as nat, root)
                }
            }
    }
}

/// The function and its derivative accept every point.
pub open spec fn total<P: Point, F: Fn(P) -> P, DF: Fn(P) -> P>(f: &F, df: &DF) -> bool {
    &&& forall|z: P| #[trigger] call_requires(f, (z,))
    &&& forall|z: P| #[trigger] call_requires(df, (z,))
}

/// The function and its derivative each return one thing for one point.
pub open spec fn single_valued<P: Point, F: Fn(P) -> P, DF: Fn(P) -> P>(f: &F, df: &DF) -> bool {
    &&& forall|z: P, x: P, y: P|
        #![trigger call_ensures(f, (z,), x), call_ensures(f, (z,), y)]
        call_ensures(f, (z,), x) && call_ensures(f, (z,), y) ==> x == y
    &&& forall|z: P, x: P, y: P|
        #![trigger call_ensures(df, (z,), x), call_ensures(df, (z,), y)]
        call_ensures(df, (z,), x) && call_ensures(df, (z,), y) ==> x == y
}

/// Newton's method for `f` with derivative `df`, from `z0`: at most `MAX_IT`
/// steps `z <- z - f(z) / df(z)`, stopping at the first whose step is
/// settled. Returns the point reached by that step, or `None` where no step
/// within the budget settled.
pub fn newton<P: Point, F: Fn(P) -> P, DF: Fn(P) -> P>(f: &F, df: &DF, z0: P) -> (root: Option<P>)
    requires
        total(f, df),
    ensures
        solved(f, df, z0, MAX_IT as nat, root),
{
    let mut z = z0;
    let mut i: usize = 0;
    while i < MAX_IT
        invariant
            i <= MAX_IT,
            total(f, df),
            forall|r: Option<P>| #[trigger]
                solved(f, df, z, (MAX_IT - i) as nat, r) ==> solved(f, df, z0, MAX_IT as nat, r),
        decreases MAX_IT - i,
    {
        let quotient = call2(P::over, f(z), df(z));
        let z_new = call2(P::minus, z, quotient);
        let update = call2(P::minus, z_new, z);
        let done = call1(P::is_settled, update);
        proof {
            assert(stepped(f, df, z, z_new, done));
        }
        if done {
            proof {
                assert(solved(f, df, z, (MAX_IT - i) as nat, Some(z_new)));
            }
            return Some(z_new);
        }
        proof {
            assert forall|r: Option<P>| #[trigger]
                solved(f, df, z_new, (MAX_IT - (i + 1)) as nat, r) implies solved(
                f,
                df,
                z0,
                MAX_IT as nat,
                r,
            ) by {
                assert(solved(f, df, z, (MAX_IT - i) as nat, r));
            }
        }
        z = z_new;
        i += 1;
    }
    proof {
        assert(solved(f, df, z, (MAX_IT - i) as nat, None::<P>));
    }
    None
}

/// The first step of a run decides: with a budget left, the solver has taken
/// a step from the start, has answered with the point it reached if that
/// step settled, and has otherwise gone on from there with one step less.
pub proof fn first_step<P: Point, F: Fn(P) -> P, DF: Fn(P) -> P>(f: &F, df: &DF, z: P, budget: nat, root: Option<P>) -> (step: (
    P,
    bool,
))
    requires
        budget > 0,
        solved(f, df, z, budget, root),
    ensures
        stepped(f, df, z, step.0, step.1),
        step.1 ==> root == Some(step.0),
        !step.1 ==> solved(f, df, step.0, (budget - 1) as nat, root),
{
    choose|z_next: P, done: bool|
        {
            &&& #[trigger] stepped(f, df, z, z_next, done)
            &&& if done {
                root == Some(z_next)
            } else {
                solved(f, df, z_next, (budget - 1) as nat, root)
            }
        }
}

/// With single-valued operations a point has one next point, and its step
/// has settled or has not.
pub proof fn stepped_is_single_valued<P: Point, F: Fn(P) -> P, DF: Fn(P) -> P>(
    f: &F,
    df: &DF,
    z: P,
    next1: P,
    done1: bool,
    next2: P,
    done2: bool,
)
    requires
        single_valued_point::<P>(),
        single_valued(f, df),
        stepped(f, df, z, next1, done1),
        stepped(f, df, z, next2, done2),
    ensures
        next1 == next2,
        done1 == done2,
{
    let (a1, b1, q1, s1) = choose|fz: P, dfz: P, quotient: P, step: P|
        {
            &&& #[trigger] call_ensures(f, (z,), fz)
            &&& #[trigger] call_ensures(df, (z,), dfz)
            &&& #[trigger] call_ensures(P::over, (fz, dfz), quotient)
            &&& call_ensures(P::minus, (z, quotient), next1)
            &&& #[trigger] call_ensures(P::minus, (next1, z), step)
            &&& call_ensures(P::is_settled, (step,), done1)
        };
    let (a2, b2, q2, s2) = choose|fz: P, dfz: P, quotient: P, step: P|
        {
            &&& #[trigger] call_ensures(f, (z,), fz)
            &&& #[trigger] call_ensures(df, (z,), dfz)
            &&& #[trigger] call_ensures(P::over, (fz, dfz), quotient)
            &&& call_ensures(P::minus, (z, quotient), next2)
            &&& #[trigger] call_ensures(P::minus, (next2, z), step)
            &&& call_ensures(P::is_settled, (step,), done2)
        };
    assert(a1 == a2);
    assert(b1 == b2);
    assert(q1 == q2);
    assert(next1 == next2);
    assert(s1 == s2);
}

/// A run is repeatable: with single-valued operations, the start and the
/// budget decide what the solver returns.
pub proof fn solved_is_single_valued<P: Point, F: Fn(P) -> P, DF: Fn(P) -> P>(
    f: &F,
    df: &DF,
    z: P,
    budget: nat,
    root1: Option<P>,
    root2: Option<P>,
)
    requires
        single_valued_point::<P>(),
        single_valued(f, df),
        solved(f, df, z, budget, root1),
        solved(f, df, z, budget, root2),
    ensures
        root1 == root2,
    decreases budget,
{
    if budget > 0 {
        let s1 = first_step(f, df, z, budget, root1);
        let s2 = first_step(f, df, z, budget, root2);
        stepped_is_single_valued(f, df, z, s1.0, s1.1, s2.0, s2.1);
        if !s1.1 {
            solved_is_single_valued(f, df, s1.0, (budget - 1) as nat, root1, root2);
        }
    }
}

/// A start whose first step settles is answered after that one step: with
/// single-valued operations and any budget but zero, the solver returns the
/// point that the step reached.
pub proof fn settles_at_once<P: Point, F: Fn(P) -> P, DF: Fn(P) -> P>(
    f: &F,
    df: &DF,
    z: P,
    z_next: P,
    budget: nat,
    root: Option<P>,
)
    requires
        single_valued_point::<P>(),
        single_valued(f, df),
        stepped(f, df, z, z_next, true),
        budget > 0,
        solved(f, df, z, budget, root),
    ensures
        root == Some(z_next),
{
    assert(solved(f, df, z, budget, Some(z_next)));
    solved_is_single_valued(f, df, z, budget, root, Some(z_next));
}

/// Where no step is ever judged settled, the solver finds no root: it never
/// reports a point whose step it has not seen settle.
pub proof fn never_settled_is_none<P: Point, F: Fn(P) -> P, DF: Fn(P) -> P>(f: &F, df: &DF, z: P, budget: nat, root: Option<P>)
    requires
        forall|step: P| !#[trigger] call_ensures(P::is_settled, (step,), true),
        solved(f, df, z, budget, root),
    ensures
        root is None,
    decreases budget,
{
    if budget > 0 {
        let s = first_step(f, df, z, budget, root);
        assert(!s.1);
        never_settled_is_none(f, df, s.0, (budget - 1) as nat, root);
    }
}

} // verus!
