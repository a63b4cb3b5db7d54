//! What a walk finds, said of the two trees at once rather than step by
//! step.

use crate::boundary::{expectation, BoundaryState, Phase};
use crate::identity::indices_of;
use crate::machine::{
    actual_inside, child_frame, descriptions_agree, expected_inside, next_pairing, FrameView,
    PairingView,
};
use crate::mismatch::{ActualKind, ExpectedKind, MismatchView};
use crate::node::NodeKind;
use vstd::prelude::*;

verus! {

/// What a walk, or a part of one, finds: the pairs and the mismatches,
/// each in document order.
pub struct Outcome {
    pub pairings: Seq<PairingView>,
    pub diagnostics: Seq<MismatchView>,
}

impl Outcome {
    /// Nothing found.
    pub open spec fn nothing() -> Outcome {
        Outcome {
            pairings: Seq::<PairingView>::empty(),
            diagnostics: Seq::<MismatchView>::empty(),
        }
    }

    /// One pair.
    pub open spec fn pair(pairing: PairingView) -> Outcome {
        Outcome { pairings: seq![pairing], diagnostics: Seq::<MismatchView>::empty() }
    }

    /// One mismatch.
    pub open spec fn mismatch(record: MismatchView) -> Outcome {
        Outcome { pairings: Seq::<PairingView>::empty(), diagnostics: seq![record] }
    }

    /// What is found first and what is found `later`, together.
    pub open spec fn followed_by(self, later: Outcome) -> Outcome {
        Outcome {
            pairings: self.pairings + later.pairings,
            diagnostics: self.diagnostics + later.diagnostics,
        }
    }
}

/// The mismatch of the expected node at the cursor of `frame` with what
/// the document holds there.
pub open spec fn node_mismatch(frame: FrameView, expected: ExpectedKind) -> MismatchView {
    MismatchView {
        position: indices_of(frame.next_path()),
        expected_kind: expected,
        actual_kind: frame.actual(),
        boundary_id: frame.boundary,
    }
}

/// The mismatch of the boundary at the cursors of `frame`, whose two
/// descriptions disagree.
pub open spec fn boundary_mismatch(frame: FrameView, client: BoundaryState) -> MismatchView {
    MismatchView {
        position: indices_of(frame.next_path()),
        expected_kind: expected_inside(frame.next_template().children@, client),
        actual_kind: actual_inside(frame.next_live()),
        boundary_id: Some(frame.next_template().boundary_id),
    }
}

/// The mismatch of the `ahead`-th live node at or after the live cursor of
/// `frame`, for which no expected node is left.
pub open spec fn unexpected_live(frame: FrameView, ahead: int) -> MismatchView {
    MismatchView {
        position: indices_of(frame.path).push((frame.position + ahead) as usize),
        expected_kind: ExpectedKind::EndOfScope,
        actual_kind: ActualKind::Node(frame.live[frame.position + ahead].dom_kind),
        boundary_id: frame.boundary,
    }
}

/// One mismatch for each live node at or after the live cursor of `frame`.
pub open spec fn unexpected_rest(frame: FrameView) -> Seq<MismatchView> {
    Seq::new(frame.live_left(), |ahead: int| unexpected_live(frame, ahead))
}

/// The scope of the children of the pair at the cursors of `frame`, as the
/// walk enters it where it walks the children.
pub open spec fn entered_frame(frame: FrameView) -> FrameView {
    child_frame(
        frame,
        0,
        if frame.next_template().kind == NodeKind::SuspenseBoundary {
            Some(frame.next_template().boundary_id)
        } else {
            frame.boundary
        },
    )
}

/// What the walk finds of the expected node at the cursor of `frame` and
/// of its subtree, where `inside` is what it finds of the children once it
/// walks them.
pub open spec fn node_outcome(
    frame: FrameView,
    inside: Outcome,
    states: Map<u64, BoundaryState>,
) -> Outcome {
    let template = frame.next_template();
    if template.raises {
        Outcome::mismatch(node_mismatch(frame, ExpectedKind::Error))
    } else if frame.position >= frame.live.len() || template.kind != frame.next_live().dom_kind {
        Outcome::mismatch(node_mismatch(frame, ExpectedKind::Node(template.kind)))
    } else if template.kind == NodeKind::SuspenseBoundary {
        let client = expectation(states, template.boundary_id);
        if client.phase == Phase::Resolved && frame.next_live().phase == Phase::Resolved {
            Outcome::pair(next_pairing(frame)).followed_by(inside)
        } else if descriptions_agree(client, frame.next_live()) {
            Outcome::pair(next_pairing(frame))
        } else {
            Outcome::mismatch(boundary_mismatch(frame, client))
        }
    } else {
        Outcome::pair(next_pairing(frame)).followed_by(inside)
    }
}

/// What the walk finds from the cursors of `frame` to the end of the
/// scope: of each expected node and its subtree in turn, and then of
/// every live node that is left over.
pub open spec fn scope_outcome(frame: FrameView, states: Map<u64, BoundaryState>) -> Outcome
    decreases frame.templates, frame.templates.len() - frame.built,
{
    if frame.built >= frame.templates.len() {
        Outcome { pairings: Seq::<PairingView>::empty(), diagnostics: unexpected_rest(frame) }
    } else {
        let inside = scope_outcome(entered_frame(frame), states);
        node_outcome(frame, inside, states).followed_by(
            scope_outcome(frame.pulled().skipped(1), states),
        )
    }
}

/// What the walk finds of the expected node at the cursor of `frame` and
/// of its subtree.
pub open spec fn subtree_outcome(frame: FrameView, states: Map<u64, BoundaryState>) -> Outcome {
    node_outcome(frame, scope_outcome(entered_frame(frame), states), states)
}

} // verus!
