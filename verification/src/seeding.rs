//! Seeding the client's boundary states from the markers that the server
//! emitted, so that the walk expects the phase that the document shows.

use crate::boundary::{
    expectation, seeded, seeded_resolutions, BoundaryState, BoundaryTracker, Phase,
};
use crate::builder::is_boundary;
use crate::machine::descriptions_agree;
use crate::node::{DomNode, NodeKind};
use vstd::prelude::*;

verus! {

/// The states and the number of resolutions after the marker of `node`, if
/// it has one, was seeded.
pub open spec fn seeded_by_marker(
    states: Map<u64, BoundaryState>,
    resolutions: nat,
    node: DomNode,
) -> (Map<u64, BoundaryState>, nat) {
    if node.dom_kind == NodeKind::SuspenseBoundary {
        (
            seeded(states, resolutions, node.boundary_id, node.phase, node.placeholder_node_count),
            seeded_resolutions(states, resolutions, node.boundary_id, node.phase),
        )
    } else {
        (states, resolutions)
    }
}

/// Whether `node` is a boundary that the server emitted as pending. What
/// stands inside such a boundary is a placeholder, and is not looked into.
pub open spec fn is_opaque(node: DomNode) -> bool {
    node.dom_kind == NodeKind::SuspenseBoundary && node.phase == Phase::Pending
}

/// The states and the number of resolutions after the markers of the
/// subtree `node` were seeded in document order.
pub open spec fn seeded_by_node(
    states: Map<u64, BoundaryState>,
    resolutions: nat,
    node: DomNode,
) -> (Map<u64, BoundaryState>, nat)
    decreases node, 0int,
{
    let own = seeded_by_marker(states, resolutions, node);
    if is_opaque(node) {
        own
    } else {
        seeded_by_nodes(own.0, own.1, node.children@)
    }
}

/// The states and the number of resolutions after the markers of `forest`
/// were seeded in document order.
pub open spec fn seeded_by_nodes(
    states: Map<u64, BoundaryState>,
    resolutions: nat,
    forest: Seq<DomNode>,
) -> (Map<u64, BoundaryState>, nat)
    decreases forest, 1int,
{
    if forest.len() == 0 {
        (states, resolutions)
    } else {
        let first = seeded_by_node(states, resolutions, forest[0]);
        seeded_by_nodes(first.0, first.1, forest.subrange(1, forest.len() as int))
    }
}

impl BoundaryTracker {
    /// Seeds every boundary whose marker stands in the subtree `node`, in
    /// document order. A boundary that is known already stays as it is,
    /// and the placeholders of a pending boundary are not looked into.
    pub fn seed_from_node(&mut self, node: &DomNode)
        ensures
            (final(self)@, final(self).resolutions()) == seeded_by_node(
                old(self)@,
                old(self).resolutions(),
                *node,
            ),
        decreases node, 0int,
    {
        if is_boundary(node.dom_kind) {
            self.seed(node.boundary_id, node.phase, node.placeholder_node_count);
            match node.phase {
                Phase::Pending => {},
                Phase::Resolved => {
                    self.seed_from_markers(&node.children);
                },
            }
        } else {
            self.seed_from_markers(&node.children);
        }
    }

    /// Seeds every boundary whose marker stands in the document `live`, in
    /// document order. This is done before the walk starts, so that the
    /// client expects each boundary in the phase that the server emitted.
    pub fn seed_from_markers(&mut self, live: &Vec<DomNode>)
        ensures
            (final(self)@, final(self).resolutions()) == seeded_by_nodes(
                old(self)@,
                old(self).resolutions(),
                live@,
            ),
        decreases live@, 1int,
    {
        let ghost goal = seeded_by_nodes(self@, self.resolutions(), live@);
        let mut i: usize = 0;
        proof {
            assert(live@.skip(0) == live@);
        }
        while i < live.len()
            invariant
                i <= live.len(),
                seeded_by_nodes(self@, self.resolutions(), live@.skip(i as int)) == goal,
            decreases live.len() - i,
        {
            proof {
                let rest = live@.skip(i as int);
                assert(rest[0] == live@[i as int]);
                assert(rest.subrange(1, rest.len() as int) == live@.skip(i + 1));
            }
            self.seed_from_node(&live[i]);
            i = i + 1;
        }
    }
}

/// Seeding makes the client agree with the server: where a boundary was
/// not known before, and its marker counts the placeholders that stand
/// for it, the client's belief after seeding and the marker describe the
/// same content.
pub proof fn seeded_boundary_agrees(
    states: Map<u64, BoundaryState>,
    resolutions: nat,
    node: DomNode,
)
    requires
        node.dom_kind == NodeKind::SuspenseBoundary,
        !states.contains_key(node.boundary_id),
        node.phase == Phase::Pending ==> node.placeholder_node_count == node.children@.len(),
    ensures
        descriptions_agree(
            expectation(seeded_by_marker(states, resolutions, node).0, node.boundary_id),
            node,
        ),
{
}

} // verus!
