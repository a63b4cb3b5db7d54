//! The walker, run step by step, finds what the two trees say it finds.

use crate::boundary::{expectation, BoundaryState, Phase};
use crate::machine::{child_frame, start_of, step_of, FrameView, WalkerState, WalkerView};
use crate::mismatch::MismatchView;
use crate::node::{DomNode, NodeKind, Template};
use crate::outcome::{
    entered_frame, node_outcome, scope_outcome, subtree_outcome, unexpected_live, unexpected_rest,
    Outcome,
};
use crate::progress::{lemma_run_unfolds, run_of};
use vstd::prelude::*;

verus! {

/// The walker `w` once `found` was filed and the innermost scope has the
/// frame `top`.
pub open spec fn filed(w: WalkerView, top: FrameView, found: Outcome) -> WalkerView {
    WalkerView {
        frames: w.below().push(top),
        pairings: w.pairings + found.pairings,
        diagnostics: w.diagnostics + found.diagnostics,
        ..w
    }
}

/// The frame `frame` with both cursors at the end of the scope.
pub open spec fn ended(frame: FrameView) -> FrameView {
    FrameView { built: frame.templates.len(), position: frame.live.len(), ..frame }
}

/// From a matching walker with an expected node to come, the steps that
/// deal with the node and its subtree file what `subtree_outcome` says and
/// leave both cursors of the scope behind the node.
pub proof fn lemma_node_runs_to_its_outcome(w: WalkerView, states: Map<u64, BoundaryState>)
    requires
        w.wf(),
        w.state == WalkerState::Matching,
        w.top().built < w.top().templates.len(),
    ensures
        ({
            let top = w.top();
            let own = subtree_outcome(top, states);
            &&& filed(w, top.pulled().skipped(1), own).wf()
            &&& run_of(w, states) == run_of(filed(w, top.pulled().skipped(1), own), states)
        }),
    decreases w.top().templates, w.top().templates.len() - w.top().built, w.top().live_left(), 0int,
{
    let top = w.top();
    let below = w.below();
    let template = top.next_template();
    let next = top.pulled().skipped(1);
    let inside = scope_outcome(entered_frame(top), states);
    let own = node_outcome(top, inside, states);
    let goal = filed(w, next, own);
    assert(top.wf());
    assert(w.frames == below.push(top));
    lemma_run_unfolds(w, states);
    let s1 = step_of(w, states);
    let present = top.position < top.live.len();
    if template.raises || !present || template.kind != top.next_live().dom_kind {
        let s2 = if present {
            step_of(s1, states)
        } else {
            s1
        };
        assert(s1.frames == below.push(top.pulled()));
        assert(s1.top() == top.pulled());
        assert(s1.below() == below);
        if present {
            lemma_run_unfolds(s1, states);
        }
        assert(s2.frames == goal.frames);
        assert(s2.pairings == goal.pairings);
        assert(s2.diagnostics == goal.diagnostics);
        assert(s2 == goal);
    } else {
        let live = top.next_live();
        let client = expectation(states, template.boundary_id);
        let boundary = template.kind == NodeKind::SuspenseBoundary;
        let walked = !boundary || (client.phase == Phase::Resolved && live.phase
            == Phase::Resolved);
        if walked {
            let entered = boundary || template.children@.len() > 0 || live.children@.len() > 0;
            if entered {
                assert(s1.frames == below.push(next).push(entered_frame(top)));
                assert(s1.top() == entered_frame(top));
                assert(s1.below() == below.push(next));
                lemma_scope_runs_to_its_outcome(s1, states);
                let s1e = filed(s1, ended(s1.top()), inside);
                lemma_run_unfolds(s1e, states);
                let s2 = step_of(s1e, states);
                assert(s1e.below() == below.push(next));
                assert(s2.frames == goal.frames);
                assert(s2.pairings == goal.pairings);
                assert(s2.diagnostics == goal.diagnostics);
                assert(s2 == goal);
            } else {
                assert(unexpected_rest(entered_frame(top)) == Seq::<MismatchView>::empty());
                assert(inside == Outcome::nothing());
                assert(s1.frames == goal.frames);
                assert(s1.pairings == goal.pairings);
                assert(s1.diagnostics == goal.diagnostics);
                assert(s1 == goal);
            }
        } else {
            let child = child_frame(top, template.children@.len(), Some(template.boundary_id));
            assert(s1.frames == below.push(next).push(child));
            assert(s1.top() == child);
            assert(s1.below() == below.push(next));
            let s1r = if live.children@.len() > 0 {
                step_of(s1, states)
            } else {
                s1
            };
            if live.children@.len() > 0 {
                lemma_run_unfolds(s1, states);
            }
            assert(s1r.frames == below.push(next).push(s1r.top()));
            assert(s1r.below() == below.push(next));
            assert(s1r.top().position == live.children@.len());
            lemma_run_unfolds(s1r, states);
            let s2 = step_of(s1r, states);
            assert(s2.frames == goal.frames);
            assert(s2.pairings == goal.pairings);
            assert(s2.diagnostics == goal.diagnostics);
            assert(s2 == goal);
        }
    }
}

/// From a matching walker, the steps that deal with the rest of the
/// innermost scope file what `scope_outcome` says and leave both cursors
/// of the scope at its end.
pub proof fn lemma_scope_runs_to_its_outcome(w: WalkerView, states: Map<u64, BoundaryState>)
    requires
        w.wf(),
        w.state == WalkerState::Matching,
    ensures
        filed(w, ended(w.top()), scope_outcome(w.top(), states)).wf(),
        run_of(w, states) == run_of(
            filed(w, ended(w.top()), scope_outcome(w.top(), states)),
            states,
        ),
    decreases w.top().templates, w.top().templates.len() - w.top().built, w.top().live_left(), 1int,
{
    let top = w.top();
    let below = w.below();
    let found = scope_outcome(top, states);
    let goal = filed(w, ended(top), found);
    assert(top.wf());
    assert(w.frames == below.push(top));
    if top.built == top.templates.len() {
        if top.position == top.live.len() {
            assert(found.diagnostics == Seq::<MismatchView>::empty());
            assert(goal.frames == w.frames);
            assert(goal.pairings == w.pairings);
            assert(goal.diagnostics == w.diagnostics);
            assert(goal == w);
        } else {
            lemma_run_unfolds(w, states);
            let s1 = step_of(w, states);
            assert(s1.frames == below.push(top));
            lemma_run_unfolds(s1, states);
            let s2 = step_of(s1, states);
            let moved = top.skipped(1);
            assert(s2.frames == below.push(moved));
            assert(s2.top() == moved);
            assert(s2.below() == below);
            lemma_scope_runs_to_its_outcome(s2, states);
            let rest = scope_outcome(moved, states);
            assert(unexpected_rest(top) == seq![unexpected_live(top, 0)] + unexpected_rest(
                moved,
            )) by {
                let whole = unexpected_rest(top);
                let parts = seq![unexpected_live(top, 0)] + unexpected_rest(moved);
                assert(whole.len() == parts.len());
                assert forall|i: int| 0 <= i < whole.len() implies whole[i] == parts[i] by {
                    if i > 0 {
                        assert(parts[i] == unexpected_rest(moved)[i - 1]);
                        assert(unexpected_live(moved, i - 1) == unexpected_live(top, i));
                    }
                }
            }
            let end = filed(s2, ended(moved), rest);
            assert(s2.diagnostics == w.diagnostics.push(unexpected_live(top, 0)));
            assert(end.frames == goal.frames);
            assert(end.pairings == goal.pairings);
            assert(end.diagnostics == goal.diagnostics);
            assert(end == goal);
        }
    } else {
        let next = top.pulled().skipped(1);
        let own = node_outcome(top, scope_outcome(entered_frame(top), states), states);
        lemma_node_runs_to_its_outcome(w, states);
        let s2 = filed(w, next, own);
        assert(s2.top() == next);
        assert(s2.below() == below);
        lemma_scope_runs_to_its_outcome(s2, states);
        let rest = scope_outcome(next, states);
        let end = filed(s2, ended(next), rest);
        assert(end.frames == goal.frames);
        assert(end.pairings == goal.pairings);
        assert(end.diagnostics == goal.diagnostics);
        assert(end == goal);
    }
}

/// The root scope at the start of a hydration.
pub open spec fn root_frame(templates: Seq<Template>, live: Seq<DomNode>) -> FrameView {
    start_of(templates, live).frames[0]
}

/// What hydrating the document `live` against `templates` finds.
pub open spec fn hydration_of(
    templates: Seq<Template>,
    live: Seq<DomNode>,
    states: Map<u64, BoundaryState>,
) -> Outcome {
    scope_outcome(root_frame(templates, live), states)
}

/// A walker that starts on a page and runs until it is done has filed
/// exactly what hydrating the page finds.
pub proof fn run_finds_the_hydration(
    templates: Seq<Template>,
    live: Seq<DomNode>,
    states: Map<u64, BoundaryState>,
)
    requires
        templates.len() <= usize::MAX,
        live.len() <= usize::MAX,
    ensures
        run_of(start_of(templates, live), states).state == WalkerState::Done,
        run_of(start_of(templates, live), states).pairings == hydration_of(
            templates,
            live,
            states,
        ).pairings,
        run_of(start_of(templates, live), states).diagnostics == hydration_of(
            templates,
            live,
            states,
        ).diagnostics,
{
    let w = start_of(templates, live);
    assert(w.frames[0].wf());
    lemma_scope_runs_to_its_outcome(w, states);
    let found = hydration_of(templates, live, states);
    let end = filed(w, ended(w.top()), found);
    lemma_run_unfolds(end, states);
    let done = step_of(end, states);
    assert(end.below() == Seq::<FrameView>::empty());
    assert(run_of(done, states) == done);
    assert(w.pairings + found.pairings == found.pairings);
    assert(w.diagnostics + found.diagnostics == found.diagnostics);
}

} // verus!
