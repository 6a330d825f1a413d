//! The registry of root clusters.
//!
//! Roots arrive one at a time. Each is compared with the representatives of
//! the clusters found so far, in the order in which those were opened, and
//! joins the first one that is near enough; a root near none opens a cluster
//! of its own. A cluster's position in the registry is its id, and it keeps
//! that id for as long as the registry lives.

use crate::point::{call1, call2, single_valued_point, Point};
use vstd::prelude::*;

verus! {

/// The registry: one `(representative, member count)` pair per cluster, in
/// the order in which the clusters were opened.
#[derive(Debug, Clone)]
pub struct Cluster<P> {
    entries: Vec<(P, usize)>,
}

/// The verdict on a root `z` and a representative: their difference `z -
/// rep` was taken and found near or not.
pub open spec fn judged<P: Point>(z: P, rep: P, verdict: bool) -> bool {
    exists|d: P|
        #[trigger] call_ensures(P::minus, (z, rep), d) && call_ensures(P::is_near, (d,), verdict)
}

/// The running mean: `moved` is `(rep * n + z) / (n + 1)`, the
/// representative of a cluster of `n` members around `rep` once `z` has
/// joined.
pub open spec fn averaged<P: Point>(rep: P, n: usize, z: P, moved: P) -> bool {
    exists|weighted: P, sum: P|
        {
            &&& #[trigger] call_ensures(P::times, (rep, n), weighted)
            &&& #[trigger] call_ensures(P::plus, (weighted, z), sum)
            &&& call_ensures(P::shared, (sum, (n + 1) as usize), moved)
        }
}

/// What one `push` of `z` does to a registry. The clusters before `id` were
/// scanned and judged not near; then either cluster `id` was judged near,
/// took `z` into its mean and counted it, or no cluster was left and `z`
/// opened a new one at the end. Every other entry stays as and where it was.
pub open spec fn pushed<P: Point>(
    before: Seq<(P, usize)>,
    z: P,
    after: Seq<(P, usize)>,
    id: int,
) -> bool {
    &&& 0 <= id <= before.len()
    &&& forall|j: int| 0 <= j < id ==> judged(z, (#[trigger] before[j]).0, false)
    &&& if id < before.len() {
        &&& judged(z, before[id].0, true)
        &&& averaged(before[id].0, before[id].1, z, after[id].0)
        &&& after == before.update(id, (after[id].0, (before[id].1 + 1) as usize))
    } else {
        after == before.push((z, 1usize))
    }
}

/// What one `push_maybe` does: a missing root leaves the registry alone and
/// is answered with `-1`; a root is pushed and answered with its cluster id.
pub open spec fn classified<P: Point>(
    before: Seq<(P, usize)>,
    z: Option<P>,
    after: Seq<(P, usize)>,
    id: int,
) -> bool {
    match z {
        Some(p) => pushed(before, p, after, id),
        None => id == -1 && after == before,
    }
}

/// A registry in which every count can still grow.
pub open spec fn has_room<P>(entries: Seq<(P, usize)>) -> bool {
    forall|j: int| 0 <= j < entries.len() ==> (#[trigger] entries[j]).1 < usize::MAX
}

impl<P: Point> Cluster<P> {
    /// The clusters, oldest first: each with its representative and the
    /// number of roots it has taken in.
    pub closed spec fn view(&self) -> Seq<(P, usize)> {
        self.entries@
    }

    /// An empty registry.
    pub fn new() -> (c: Self)
        ensures
            c@ == Seq::<(P, usize)>::empty(),
    {
        Cluster { entries: Vec::new() }
    }

    /// The number of clusters.
    pub fn len(&self) -> (n: usize)
        ensures
            n == self@.len(),
    {
        self.entries.len()
    }

    /// The representative and the member count of cluster `id`, if there is
    /// such a cluster.
    pub fn get(&self, id: usize) -> (entry: Option<(P, usize)>)
        ensures
            entry == if id < self@.len() {
                Some(self@[id as int])
            } else {
                None
            },
    {
        if id < self.entries.len() {
            Some(self.entries[id])
        } else {
            None
        }
    }

    /// Sorts `z` into the registry and returns its cluster id. The first
    /// near cluster wins, also where a later one is nearer.
    pub fn push(&mut self, z: P) -> (id: usize)
        requires
            has_room(old(self)@),
        ensures
            pushed(old(self)@, z, final(self)@, id as int),
    {
        let mut i: usize = 0;
        while i < self.entries.len()
            invariant
                self.entries@ == old(self).entries@,
                i <= self.entries.len(),
                has_room(self.entries@),
                forall|j: int| 0 <= j < i ==> judged(z, (#[trigger] self.entries@[j]).0, false),
            decreases self.entries.len() - i,
        {
            let (rep, count) = self.entries[i];
            let d = call2(P::minus, z, rep);
            let verdict = call1(P::is_near, d);
            assert(judged(z, rep, verdict));
            if verdict {
                let weighted = call2(P::times, rep, count);
                let sum = call2(P::plus, weighted, z);
                let moved = call2(P::shared, sum, count + 1);
                assert(averaged(rep, count, z, moved));
                self.entries.set(i, (moved, count + 1));
                return i;
            }
            i += 1;
        }
        self.entries.push((z, 1));
        i
    }

    /// `push` for a root that may be missing: `-1` stands for "no root".
    pub fn push_maybe(&mut self, z: Option<P>) -> (id: isize)
        requires
            old(self)@.len() <= isize::MAX,
            z is Some ==> has_room(old(self)@),
        ensures
            classified(old(self)@, z, final(self)@, id as int),
    {
        match z {
            Some(p) => self.push(p) as isize,
            None => -1,
        }
    }
}

/// The registry only grows, and a cluster keeps its id: a push leaves every
/// entry but the one it joined where and as it was, adds one member to the
/// one it joined, and appends at most one entry.
pub proof fn pushed_keeps_ids<P: Point>(
    before: Seq<(P, usize)>,
    z: P,
    after: Seq<(P, usize)>,
    id: int,
)
    requires
        has_room(before),
        pushed(before, z, after, id),
    ensures
        before.len() <= after.len() <= before.len() + 1,
        0 <= id < after.len(),
        after.len() == before.len() + 1 <==> id == before.len(),
        forall|i: int| 0 <= i < before.len() && i != id ==> after[i] == before[i],
        id < before.len() ==> after[id].1 == before[id].1 + 1,
        id == before.len() ==> after[id] == (z, 1usize),
{
}

/// With single-valued operations there is one verdict on a root and a
/// representative.
pub proof fn judged_is_single_valued<P: Point>(z: P, rep: P, v1: bool, v2: bool)
    requires
        single_valued_point::<P>(),
        judged(z, rep, v1),
        judged(z, rep, v2),
    ensures
        v1 == v2,
{
    let d1 = choose|d: P|
        #[trigger] call_ensures(P::minus, (z, rep), d) && call_ensures(P::is_near, (d,), v1);
    let d2 = choose|d: P|
        #[trigger] call_ensures(P::minus, (z, rep), d) && call_ensures(P::is_near, (d,), v2);
    assert(d1 == d2);
}

/// With single-valued operations a cluster and a new member have one mean.
pub proof fn averaged_is_single_valued<P: Point>(rep: P, n: usize, z: P, m1: P, m2: P)
    requires
        single_valued_point::<P>(),
        averaged(rep, n, z, m1),
        averaged(rep, n, z, m2),
    ensures
        m1 == m2,
{
    let (w1, s1) = choose|weighted: P, sum: P|
        {
            &&& #[trigger] call_ensures(P::times, (rep, n), weighted)
            &&& #[trigger] call_ensures(P::plus, (weighted, z), sum)
            &&& call_ensures(P::shared, (sum, (n + 1) as usize), m1)
        };
    let (w2, s2) = choose|weighted: P, sum: P|
        {
            &&& #[trigger] call_ensures(P::times, (rep, n), weighted)
            &&& #[trigger] call_ensures(P::plus, (weighted, z), sum)
            &&& call_ensures(P::shared, (sum, (n + 1) as usize), m2)
        };
    assert(w1 == w2);
    assert(s1 == s2);
}

/// With single-valued operations, the registry and the root decide the id
/// and the registry afterwards.
pub proof fn pushed_is_single_valued<P: Point>(
    before: Seq<(P, usize)>,
    z: P,
    after1: Seq<(P, usize)>,
    id1: int,
    after2: Seq<(P, usize)>,
    id2: int,
)
    requires
        single_valued_point::<P>(),
        pushed(before, z, after1, id1),
        pushed(before, z, after2, id2),
    ensures
        id1 == id2,
        after1 == after2,
{
    if id1 < id2 {
        judged_is_single_valued(z, before[id1].0, true, false);
    }
    if id2 < id1 {
        judged_is_single_valued(z, before[id2].0, true, false);
    }
    if id1 < before.len() {
        averaged_is_single_valued(before[id1].0, before[id1].1, z, after1[id1].0, after2[id1].0);
    }
}

/// The same for a root that may be missing.
pub proof fn classified_is_single_valued<P: Point>(
    before: Seq<(P, usize)>,
    z: Option<P>,
    after1: Seq<(P, usize)>,
    id1: int,
    after2: Seq<(P, usize)>,
    id2: int,
)
    requires
        single_valued_point::<P>(),
        classified(before, z, after1, id1),
        classified(before, z, after2, id2),
    ensures
        id1 == id2,
        after1 == after2,
{
    if let Some(p) = z {
        pushed_is_single_valued(before, p, after1, id1, after2, id2);
    }
}

} // verus!
