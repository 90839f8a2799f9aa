//! Intersection records and the rule that picks the nearest of them.
use vstd::prelude::*;

verus! {

/// Where a ray struck an object, reduced to what selection reads.
///
/// Distances are carried as keys: unsigned integers that stand in the same
/// order as the distances they were made from.
#[derive(Clone, Copy, Debug, PartialEq, Eq, Structural)]
pub struct Hit {
    /// Key of the ray parameter at which the object was struck.
    pub t: u64,
    /// Key of the distance of the struck point from the world origin.
    pub reach: u64,
    /// Index of the struck object in the scene's object list.
    pub object: usize,
}

/// No candidate holds a hit.
pub open spec fn all_miss(candidates: Seq<Option<Hit>>) -> bool {
    forall|j: int| 0 <= j < candidates.len() ==> (#[trigger] candidates[j]) is None
}

/// Candidate `i` is the hit that a scan from the front keeps: none is
/// nearer, and every earlier hit is strictly farther.
pub open spec fn is_nearest(candidates: Seq<Option<Hit>>, i: int) -> bool {
    &&& 0 <= i < candidates.len()
    &&& candidates[i] is Some
    &&& forall|j: int|
        0 <= j < candidates.len() && (#[trigger] candidates[j]) is Some ==> candidates[i]->0.t
            <= candidates[j]->0.t
    &&& forall|j: int|
        0 <= j < i && (#[trigger] candidates[j]) is Some ==> candidates[i]->0.t
            < candidates[j]->0.t
}

/// The nearest hit among the candidates, with the first one winning ties;
/// `None` when every candidate is a miss.
pub open spec fn nearest(candidates: Seq<Option<Hit>>) -> Option<Hit> {
    if exists|i: int| is_nearest(candidates, i) {
        candidates[choose|i: int| is_nearest(candidates, i)]
    } else {
        None
    }
}

/// At most one candidate is the nearest.
pub proof fn lemma_nearest_unique(candidates: Seq<Option<Hit>>, i: int, j: int)
    requires
        is_nearest(candidates, i),
        is_nearest(candidates, j),
    ensures
        i == j,
{
    if i < j {
        assert(candidates[i] is Some);
    } else if j < i {
        assert(candidates[j] is Some);
    }
}

/// Once one candidate is known to be the nearest, `nearest` is that
/// candidate.
pub proof fn lemma_nearest_is(candidates: Seq<Option<Hit>>, i: int)
    requires
        is_nearest(candidates, i),
    ensures
        nearest(candidates) == candidates[i],
{
    let k = choose|k: int| is_nearest(candidates, k);
    lemma_nearest_unique(candidates, i, k);
}

/// Without any hit there is no nearest one.
pub proof fn lemma_nearest_none(candidates: Seq<Option<Hit>>)
    requires
        all_miss(candidates),
    ensures
        nearest(candidates) is None,
{
    if exists|i: int| is_nearest(candidates, i) {
        let k = choose|k: int| is_nearest(candidates, k);
        assert(candidates[k] is Some);
    }
}

/// The occluder that puts a surface in shadow: the nearest hit of the
/// shadow ray, unless the light's reference distance is strictly smaller
/// than the occluder's reach, in which case the occluder lies beyond the
/// light and casts no shadow.
pub open spec fn occluder_of(candidates: Seq<Option<Hit>>, light_reach: u64) -> Option<Hit> {
    match nearest(candidates) {
        None => None,
        Some(k) => if light_reach < k.reach {
            None
        } else {
            Some(k)
        },
    }
}

} // verus!
