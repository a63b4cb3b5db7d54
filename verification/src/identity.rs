//! Node identity: identifiers derived from the position of a node in the
//! render tree, so that two renderings of the same static shape agree on
//! which node is which without exchanging anything.

use vstd::prelude::*;

verus! {

/// One step of a structural path: the index of a node among its siblings,
/// and whether the node at that step is a suspense boundary.
#[derive(Clone, Copy, Debug, PartialEq, Eq, Structural)]
pub struct PathStep {
    pub index: usize,
    pub boundary: bool,
}

/// The identifier of a position in the render tree: the sibling indices from
/// the root down to the node, and the number of suspense boundaries that the
/// path crosses.
#[derive(Clone, Debug, PartialEq, Eq)]
pub struct StableId {
    pub boundary_depth: usize,
    pub indices: Vec<usize>,
}

/// What a `StableId` stands for.
pub struct StableIdView {
    pub boundary_depth: nat,
    pub indices: Seq<usize>,
}

impl View for StableId {
    type V = StableIdView;

    open spec fn view(&self) -> StableIdView {
        StableIdView { boundary_depth: self.boundary_depth as nat, indices: self.indices@ }
    }
}

/// The number of steps of `path` that enter a suspense boundary.
pub open spec fn boundary_depth_of(path: Seq<PathStep>) -> nat
    decreases path.len(),
{
    if path.len() == 0 {
        0
    } else {
        boundary_depth_of(path.drop_last()) + if path.last().boundary {
            1nat
        } else {
            0nat
        }
    }
}

/// The sibling indices of `path`, root first.
pub open spec fn indices_of(path: Seq<PathStep>) -> Seq<usize> {
    Seq::new(path.len(), |i: int| path[i].index)
}

/// The identifier of the position that `path` leads to.
pub open spec fn stable_id_of(path: Seq<PathStep>) -> StableIdView {
    StableIdView { boundary_depth: boundary_depth_of(path), indices: indices_of(path) }
}

/// A path crosses at most as many boundaries as it has steps.
pub proof fn boundary_depth_within_length(path: Seq<PathStep>)
    ensures
        boundary_depth_of(path) <= path.len(),
    decreases path.len(),
{
    if path.len() > 0 {
        boundary_depth_within_length(path.drop_last());
    }
}

/// Computes the identifier of the position that `path` leads to.
///
/// The caller passes the path of a node whose index among its siblings is
/// settled; the result depends on nothing but the path.
pub fn stable_id(path: &Vec<PathStep>) -> (id: StableId)
    ensures
        id@ == stable_id_of(path@),
{
    let mut indices: Vec<usize> = Vec::new();
    let mut depth: usize = 0;
    let mut i: usize = 0;
    while i < path.len()
        invariant
            i <= path.len(),
            indices@ == indices_of(path@.take(i as int)),
            depth == boundary_depth_of(path@.take(i as int)),
            depth <= i,
        decreases path.len() - i,
    {
        let step = path[i];
        proof {
            let before = path@.take(i as int);
            let after = path@.take(i + 1);
            assert(after.drop_last() == before);
            assert(after.last() == step);
            assert(indices_of(after) == indices_of(before).push(step.index));
        }
        indices.push(step.index);
        if step.boundary {
            depth = depth + 1;
        }
        i = i + 1;
    }
    proof {
        assert(path@.take(path.len() as int) == path@);
    }
    StableId { boundary_depth: depth, indices }
}

/// Determinism: the identifier is a function of the path alone, so computing
/// it for the same path twice, on whichever side, gives the same identifier.
pub proof fn stable_id_deterministic(first: Seq<PathStep>, second: Seq<PathStep>)
    requires
        first == second,
    ensures
        stable_id_of(first) == stable_id_of(second),
{
}

/// Two positions with the same identifier are reached by the same sibling
/// indices and lie under the same number of boundaries.
pub proof fn stable_id_separates_positions(first: Seq<PathStep>, second: Seq<PathStep>)
    requires
        stable_id_of(first) == stable_id_of(second),
    ensures
        first.len() == second.len(),
        forall|i: int| 0 <= i < first.len() ==> first[i].index == second[i].index,
        boundary_depth_of(first) == boundary_depth_of(second),
{
    assert(indices_of(first).len() == indices_of(second).len());
    assert forall|i: int| 0 <= i < first.len() implies first[i].index == second[i].index by {
        assert(indices_of(first)[i] == indices_of(second)[i]);
    }
}

} // verus!
