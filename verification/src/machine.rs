//! The walk as a state machine: what the walker is, as contracts see it,
//! and what one step makes of it.

use crate::boundary::{expectation, BoundaryState, Phase};
use crate::builder::child_path;
use crate::cursor::advanced;
use crate::identity::{indices_of, stable_id_of, PathStep, StableIdView};
use crate::mismatch::{ActualKind, ExpectedKind, MismatchView};
use crate::node::{DomNode, NodeKind, Template};
use vstd::prelude::*;

verus! {

/// The state of the walker.
#[derive(Clone, Copy, Debug, PartialEq, Eq, Structural)]
pub enum WalkerState {
    /// The next expected node is compared with the next live node.
    Matching,
    /// Live nodes are being left out as one unit before matching resumes.
    Skipping,
    /// The root scope has ended.
    Done,
}

/// What a `Pairing` stands for.
pub struct PairingView {
    pub stable_id: StableIdView,
    pub kind: NodeKind,
    pub live_position: nat,
}

/// What a `Frame` stands for.
pub struct FrameView {
    /// The templates of the expected siblings.
    pub templates: Seq<Template>,
    /// How many of them were handed to the walk.
    pub built: nat,
    /// The path of the node whose children the siblings are.
    pub path: Seq<PathStep>,
    /// The live siblings.
    pub live: Seq<DomNode>,
    /// The position of the live cursor.
    pub position: nat,
    pub boundary: Option<u64>,
}

impl FrameView {
    /// Both cursors lie within their scopes, or at their ends.
    pub open spec fn wf(self) -> bool {
        &&& self.built <= self.templates.len()
        &&& self.position <= self.live.len()
        &&& self.templates.len() <= usize::MAX
        &&& self.live.len() <= usize::MAX
    }

    /// How many live nodes lie at or after the live cursor.
    pub open spec fn live_left(self) -> nat {
        (self.live.len() - self.position) as nat
    }

    /// The template of the next expected sibling.
    pub open spec fn next_template(self) -> Template {
        self.templates[self.built as int]
    }

    /// The live node at the cursor.
    pub open spec fn next_live(self) -> DomNode {
        self.live[self.position as int]
    }

    /// The path of the next expected sibling.
    pub open spec fn next_path(self) -> Seq<PathStep> {
        child_path(self.path, self.built as usize, self.next_template())
    }

    /// What the document holds at the live cursor.
    pub open spec fn actual(self) -> ActualKind {
        if self.position < self.live.len() {
            ActualKind::Node(self.next_live().dom_kind)
        } else {
            ActualKind::EndOfScope
        }
    }

    /// The frame after the next expected sibling was handed out.
    pub open spec fn pulled(self) -> FrameView {
        FrameView { built: self.built + 1, ..self }
    }

    /// The frame after the live cursor moved forward by `count`.
    pub open spec fn skipped(self, count: nat) -> FrameView {
        FrameView { position: advanced(self.position, count, self.live.len()), ..self }
    }
}

/// The walker, as contracts see it.
pub struct WalkerView {
    pub state: WalkerState,
    /// How many live nodes of the innermost scope the next step leaves out;
    /// zero unless the walker is skipping.
    pub skip: nat,
    /// The scope stack, outermost first.
    pub frames: Seq<FrameView>,
    pub pairings: Seq<PairingView>,
    pub diagnostics: Seq<MismatchView>,
}

impl WalkerView {
    /// The walker is done exactly when no scope is left, every cursor lies
    /// within its scope, and a skip stays within the innermost scope.
    pub open spec fn wf(self) -> bool {
        &&& (self.state == WalkerState::Done <==> self.frames.len() == 0)
        &&& forall|i: int| 0 <= i < self.frames.len() ==> (#[trigger] self.frames[i]).wf()
        &&& if self.state == WalkerState::Skipping {
            1 <= self.skip <= self.frames.last().live_left()
        } else {
            self.skip == 0
        }
    }

    /// The innermost scope.
    pub open spec fn top(self) -> FrameView {
        self.frames.last()
    }

    /// The scopes around the innermost one.
    pub open spec fn below(self) -> Seq<FrameView> {
        self.frames.drop_last()
    }

    /// The walker over a document in which `repaired` stands where the
    /// live cursor of the innermost scope is.
    pub open spec fn repairing(self, repaired: DomNode) -> WalkerView {
        let top = self.top();
        WalkerView {
            frames: self.below().push(
                FrameView { live: top.live.update(top.position as int, repaired), ..top },
            ),
            ..self
        }
    }
}

/// The walker at the start: matching, in the root scope of `templates` and
/// `live`, with nothing filed.
pub open spec fn start_of(templates: Seq<Template>, live: Seq<DomNode>) -> WalkerView {
    WalkerView {
        state: WalkerState::Matching,
        skip: 0,
        frames: seq![
            FrameView {
                templates,
                built: 0,
                path: Seq::<PathStep>::empty(),
                live,
                position: 0,
                boundary: None,
            },
        ],
        pairings: Seq::<PairingView>::empty(),
        diagnostics: Seq::<MismatchView>::empty(),
    }
}

/// Whether the client's belief about a boundary and what the server emitted
/// for it describe the same content: the same phase, and for a pending
/// boundary the same number of placeholder nodes.
pub open spec fn descriptions_agree(client: BoundaryState, live: DomNode) -> bool {
    &&& client.phase == live.phase
    &&& (client.phase == Phase::Pending ==> client.placeholder_node_count
        == live.children@.len())
}

/// What the client expects first inside a boundary with the real subtree
/// `children`: the first node of the real subtree where it believes the
/// boundary resolved, a placeholder where it believes it pending.
pub open spec fn expected_inside(children: Seq<Template>, client: BoundaryState) -> ExpectedKind {
    if client.phase == Phase::Resolved {
        if children.len() == 0 {
            ExpectedKind::EndOfScope
        } else if children[0].raises {
            ExpectedKind::Error
        } else {
            ExpectedKind::Node(children[0].kind)
        }
    } else {
        if client.placeholder_node_count == 0 {
            ExpectedKind::EndOfScope
        } else {
            ExpectedKind::Node(NodeKind::Placeholder)
        }
    }
}

/// What the document holds first inside a boundary.
pub open spec fn actual_inside(live: DomNode) -> ActualKind {
    if live.children@.len() == 0 {
        ActualKind::EndOfScope
    } else {
        ActualKind::Node(live.children@[0].dom_kind)
    }
}

/// A skipping walker leaves out the live nodes it was told to, and resumes
/// matching.
pub open spec fn resume(w: WalkerView) -> WalkerView {
    WalkerView {
        state: WalkerState::Matching,
        skip: 0,
        frames: w.below().push(w.top().skipped(w.skip)),
        ..w
    }
}

/// The expected scope has ended. Where the live scope has ended too, the
/// scope is left; where a live node remains, it is reported as unexpected
/// and will be left out.
pub open spec fn close_scope(w: WalkerView) -> WalkerView {
    let top = w.top();
    if top.position == top.live.len() {
        WalkerView {
            state: if w.below().len() == 0 {
                WalkerState::Done
            } else {
                WalkerState::Matching
            },
            frames: w.below(),
            ..w
        }
    } else {
        WalkerView {
            state: WalkerState::Skipping,
            skip: 1,
            diagnostics: w.diagnostics.push(
                MismatchView {
                    position: indices_of(top.path).push(top.position as usize),
                    expected_kind: ExpectedKind::EndOfScope,
                    actual_kind: top.actual(),
                    boundary_id: top.boundary,
                },
            ),
            ..w
        }
    }
}

/// The next expected node does not hydrate: it is reported with what was
/// `expected`, and the live node at the cursor, if there is one, will be
/// left out.
pub open spec fn reported(w: WalkerView, expected: ExpectedKind) -> WalkerView {
    let top = w.top();
    let present = top.position < top.live.len();
    WalkerView {
        state: if present {
            WalkerState::Skipping
        } else {
            WalkerState::Matching
        },
        skip: if present {
            1
        } else {
            0
        },
        frames: w.below().push(top.pulled()),
        diagnostics: w.diagnostics.push(
            MismatchView {
                position: indices_of(top.next_path()),
                expected_kind: expected,
                actual_kind: top.actual(),
                boundary_id: top.boundary,
            },
        ),
        ..w
    }
}

/// The pairing of the next expected node with the live node at the cursor.
pub open spec fn next_pairing(top: FrameView) -> PairingView {
    PairingView {
        stable_id: stable_id_of(top.next_path()),
        kind: top.next_template().kind,
        live_position: top.position,
    }
}

/// The scope of the children of the pair at the cursors of `top`, with
/// `built` of the expected children taken as handed out already.
pub open spec fn child_frame(top: FrameView, built: nat, boundary: Option<u64>) -> FrameView {
    FrameView {
        templates: top.next_template().children@,
        built,
        path: top.next_path(),
        live: top.next_live().children@,
        position: 0,
        boundary,
    }
}

/// The next expected node and the live node at the cursor are of one kind
/// and no boundary: they are paired, both cursors move on, and where either
/// has children, their scope is entered.
pub open spec fn paired(w: WalkerView) -> WalkerView {
    let top = w.top();
    let moved = top.pulled().skipped(1);
    let entered = top.next_template().children@.len() > 0 || top.next_live().children@.len() > 0;
    WalkerView {
        frames: if entered {
            w.below().push(moved).push(child_frame(top, 0, top.boundary))
        } else {
            w.below().push(moved)
        },
        pairings: w.pairings.push(next_pairing(top)),
        ..w
    }
}

/// The next expected node and the live node at the cursor are both
/// boundaries. Where the two descriptions agree, the boundary is paired:
/// a resolved one has its real subtree walked, a pending one has its
/// placeholders left out as one unit. Where they disagree, the boundary is
/// reported once and all that the server emitted for it is left out.
pub open spec fn enter_boundary(w: WalkerView, states: Map<u64, BoundaryState>) -> WalkerView {
    let top = w.top();
    let template = top.next_template();
    let live = top.next_live();
    let client = expectation(states, template.boundary_id);
    let moved = top.pulled().skipped(1);
    let inside = Some(template.boundary_id);
    let all = template.children@.len();
    if client.phase == Phase::Resolved && live.phase == Phase::Resolved {
        WalkerView {
            frames: w.below().push(moved).push(child_frame(top, 0, inside)),
            pairings: w.pairings.push(next_pairing(top)),
            ..w
        }
    } else {
        let left_out = live.children@.len();
        let opaque = WalkerView {
            state: if left_out > 0 {
                WalkerState::Skipping
            } else {
                WalkerState::Matching
            },
            skip: left_out,
            frames: w.below().push(moved).push(child_frame(top, all, inside)),
            ..w
        };
        if descriptions_agree(client, live) {
            WalkerView { pairings: w.pairings.push(next_pairing(top)), ..opaque }
        } else {
            WalkerView {
                diagnostics: w.diagnostics.push(
                    MismatchView {
                        position: indices_of(top.next_path()),
                        expected_kind: expected_inside(template.children@, client),
                        actual_kind: actual_inside(live),
                        boundary_id: inside,
                    },
                ),
                ..opaque
            }
        }
    }
}

/// The next expected node is compared with the live node at the cursor.
pub open spec fn match_node(w: WalkerView, states: Map<u64, BoundaryState>) -> WalkerView {
    let top = w.top();
    let template = top.next_template();
    if template.raises {
        reported(w, ExpectedKind::Error)
    } else if top.position == top.live.len() || template.kind != top.next_live().dom_kind {
        reported(w, ExpectedKind::Node(template.kind))
    } else if template.kind == NodeKind::SuspenseBoundary {
        enter_boundary(w, states)
    } else {
        paired(w)
    }
}

/// One step of the walker.
pub open spec fn step_of(w: WalkerView, states: Map<u64, BoundaryState>) -> WalkerView {
    if w.state == WalkerState::Done || w.frames.len() == 0 {
        w
    } else if w.state == WalkerState::Skipping {
        resume(w)
    } else if w.top().built == w.top().templates.len() {
        close_scope(w)
    } else {
        match_node(w, states)
    }
}

/// A step keeps the scope stack and the cursors in order.
pub proof fn lemma_step_keeps_wf(w: WalkerView, states: Map<u64, BoundaryState>)
    requires
        w.wf(),
    ensures
        step_of(w, states).wf(),
{
    let after = step_of(w, states);
    if w.state == WalkerState::Done || w.frames.len() == 0 {
    } else {
        let top = w.top();
        let below = w.below();
        assert(top.wf());
        assert forall|i: int| 0 <= i < below.len() implies (#[trigger] below[i]).wf() by {
            assert(below[i] == w.frames[i]);
        }
        if top.built < top.templates.len() {
            let children = top.next_template().children;
            assert(children@.len() == children.len());
        }
        if top.position < top.live.len() {
            let children = top.next_live().children;
            assert(children@.len() == children.len());
        }
        assert forall|i: int| 0 <= i < after.frames.len() implies (#[trigger] after.frames[i]).wf(
        ) by {
            if i < below.len() {
                assert(after.frames[i] == below[i]);
            }
        }
    }
}

} // verus!
