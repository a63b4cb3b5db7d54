//! What holds of every walk.

use crate::boundary::{expectation, BoundaryState, Phase};
use crate::equivalence::{
    filed, hydration_of, lemma_node_runs_to_its_outcome, root_frame, run_finds_the_hydration,
};
use crate::machine::{
    child_frame, descriptions_agree, start_of, step_of, FrameView, WalkerState, WalkerView,
};
use crate::mirror::{
    lemma_mirrors_unfold, lemma_reached_unfold, lemma_settled_reaches_all, mirror, mirrors, reached,
    reached_all, settled_all,
};
use crate::mismatch::MismatchView;
use crate::node::{doms_count, DomNode, NodeKind, Template};
use crate::outcome::{
    boundary_mismatch, entered_frame, scope_outcome, subtree_outcome, unexpected_rest, Outcome,
};
use crate::progress::{lemma_run_unfolds, lemma_step_decreases, measure, run_of};
use vstd::prelude::*;

verus! {

/// Of a live subtree that mirrors the next expected node the walk finds
/// no mismatch, and a pair for every node that it reaches.
pub proof fn lemma_mirrored_node_outcome(frame: FrameView, states: Map<u64, BoundaryState>)
    requires
        frame.wf(),
        frame.built < frame.templates.len(),
        frame.position < frame.live.len(),
        mirror(frame.next_template(), frame.next_live(), states),
    ensures
        subtree_outcome(frame, states).diagnostics == Seq::<MismatchView>::empty(),
        subtree_outcome(frame, states).pairings.len() == reached(frame.next_template(), states),
    decreases frame.templates, frame.templates.len() - frame.built, 0int,
{
    let template = frame.next_template();
    let live = frame.next_live();
    let client = expectation(states, template.boundary_id);
    if template.kind != NodeKind::SuspenseBoundary || client.phase == Phase::Resolved {
        let inner = entered_frame(frame);
        assert(template.children@.len() == template.children.len());
        assert(live.children@.len() == live.children.len());
        assert(template.children@.skip(0) == template.children@);
        assert(live.children@.skip(0) == live.children@);
        lemma_mirrored_scope_outcome(inner, states);
    }
}

/// Of live siblings that mirror the expected siblings still to come the
/// walk finds no mismatch, and a pair for every node that it reaches.
pub proof fn lemma_mirrored_scope_outcome(frame: FrameView, states: Map<u64, BoundaryState>)
    requires
        frame.wf(),
        mirrors(
            frame.templates.skip(frame.built as int),
            frame.live.skip(frame.position as int),
            states,
        ),
    ensures
        scope_outcome(frame, states).diagnostics == Seq::<MismatchView>::empty(),
        scope_outcome(frame, states).pairings.len() == reached_all(
            frame.templates.skip(frame.built as int),
            states,
        ),
    decreases frame.templates, frame.templates.len() - frame.built, 1int,
{
    if frame.built >= frame.templates.len() {
        assert(unexpected_rest(frame) == Seq::<MismatchView>::empty());
    } else {
        lemma_mirrors_unfold(
            frame.templates,
            frame.built as int,
            frame.live,
            frame.position as int,
            states,
        );
        lemma_reached_unfold(frame.templates, frame.built as int, states);
        lemma_mirrored_node_outcome(frame, states);
        lemma_mirrored_scope_outcome(frame.pulled().skipped(1), states);
    }
}

/// Hydrating a document that mirrors the expected tree pairs every node
/// that the walk reaches and reports no mismatch.
pub proof fn mirrored_document_hydrates(
    templates: Seq<Template>,
    live: Seq<DomNode>,
    states: Map<u64, BoundaryState>,
)
    requires
        templates.len() <= usize::MAX,
        live.len() <= usize::MAX,
        mirrors(templates, live, states),
    ensures
        hydration_of(templates, live, states).diagnostics == Seq::<MismatchView>::empty(),
        hydration_of(templates, live, states).pairings.len() == reached_all(templates, states),
        run_of(start_of(templates, live), states).state == WalkerState::Done,
        run_of(start_of(templates, live), states).diagnostics == Seq::<MismatchView>::empty(),
        run_of(start_of(templates, live), states).pairings.len() == reached_all(templates, states),
{
    assert(templates.skip(0) == templates);
    assert(live.skip(0) == live);
    lemma_mirrored_scope_outcome(root_frame(templates, live), states);
    run_finds_the_hydration(templates, live, states);
}

/// With no boundary pending, hydrating a document that mirrors the
/// expected tree reports no mismatch and pairs as many nodes as the
/// document has.
pub proof fn settled_document_pairs_every_live_node(
    templates: Seq<Template>,
    live: Seq<DomNode>,
    states: Map<u64, BoundaryState>,
)
    requires
        templates.len() <= usize::MAX,
        live.len() <= usize::MAX,
        mirrors(templates, live, states),
        settled_all(templates, states),
    ensures
        hydration_of(templates, live, states).diagnostics.len() == 0,
        hydration_of(templates, live, states).pairings.len() == doms_count(live),
        run_of(start_of(templates, live), states).diagnostics.len() == 0,
        run_of(start_of(templates, live), states).pairings.len() == doms_count(live),
{
    mirrored_document_hydrates(templates, live, states);
    lemma_settled_reaches_all(templates, live, states);
}

/// A boundary whose two descriptions agree hydrates without a mismatch,
/// whenever the phase that both name was reached: a pending one is paired
/// and its placeholders are left out unseen; a resolved one is paired and
/// so is every node that the walk reaches in a real subtree that mirrors
/// the expected one. The walk then goes on behind the boundary.
pub proof fn agreeing_boundary_hydrates(w: WalkerView, states: Map<u64, BoundaryState>)
    requires
        w.wf(),
        w.state == WalkerState::Matching,
        w.top().built < w.top().templates.len(),
        w.top().position < w.top().live.len(),
        !w.top().next_template().raises,
        w.top().next_template().kind == NodeKind::SuspenseBoundary,
        w.top().next_live().dom_kind == NodeKind::SuspenseBoundary,
        descriptions_agree(
            expectation(states, w.top().next_template().boundary_id),
            w.top().next_live(),
        ),
        expectation(states, w.top().next_template().boundary_id).phase == Phase::Resolved
            ==> mirrors(
            w.top().next_template().children@,
            w.top().next_live().children@,
            states,
        ),
    ensures
        subtree_outcome(w.top(), states).diagnostics == Seq::<MismatchView>::empty(),
        subtree_outcome(w.top(), states).pairings.len() == reached(w.top().next_template(), states),
        run_of(w, states) == run_of(
            filed(w, w.top().pulled().skipped(1), subtree_outcome(w.top(), states)),
            states,
        ),
        filed(w, w.top().pulled().skipped(1), subtree_outcome(w.top(), states)).diagnostics
            == w.diagnostics,
{
    let top = w.top();
    assert(top.wf());
    lemma_mirrored_node_outcome(top, states);
    lemma_node_runs_to_its_outcome(w, states);
    assert(w.diagnostics + Seq::<MismatchView>::empty() == w.diagnostics);
}

/// A boundary whose two descriptions disagree is reported exactly once, at
/// the boundary's own position. The walk then leaves out all that the
/// server emitted for the boundary: the cursor of the boundary's scope
/// goes from its entry position to that position plus the number of live
/// siblings that are there. After that the scope is left, and the walk
/// goes on behind the boundary with nothing more reported and nothing
/// paired.
pub proof fn disagreeing_boundary_is_reported_once(w: WalkerView, states: Map<u64, BoundaryState>)
    requires
        w.wf(),
        w.state == WalkerState::Matching,
        w.top().built < w.top().templates.len(),
        w.top().position < w.top().live.len(),
        !w.top().next_template().raises,
        w.top().next_template().kind == NodeKind::SuspenseBoundary,
        w.top().next_live().dom_kind == NodeKind::SuspenseBoundary,
        !descriptions_agree(
            expectation(states, w.top().next_template().boundary_id),
            w.top().next_live(),
        ),
    ensures
        ({
            let count = w.top().next_live().children@.len();
            let record = boundary_mismatch(
                w.top(),
                expectation(states, w.top().next_template().boundary_id),
            );
            let entered = step_of(w, states);
            let skipped = if count > 0 {
                step_of(entered, states)
            } else {
                entered
            };
            let left = step_of(skipped, states);
            &&& subtree_outcome(w.top(), states) == Outcome::mismatch(record)
            &&& entered.diagnostics == w.diagnostics.push(record)
            &&& entered.pairings == w.pairings
            &&& entered.top().live == w.top().next_live().children@
            &&& entered.top().position == 0
            &&& skipped.top().live == entered.top().live
            &&& skipped.top().position == entered.top().position + count
            &&& skipped.diagnostics == entered.diagnostics
            &&& left == filed(w, w.top().pulled().skipped(1), Outcome::mismatch(record))
            &&& run_of(w, states) == run_of(left, states)
        }),
{
    let top = w.top();
    let below = w.below();
    let live = top.next_live();
    let template = top.next_template();
    let moved = top.pulled().skipped(1);
    let count = live.children@.len();
    let record = boundary_mismatch(top, expectation(states, template.boundary_id));
    assert(top.wf());
    lemma_run_unfolds(w, states);
    let entered = step_of(w, states);
    let child = child_frame(top, template.children@.len(), Some(template.boundary_id));
    assert(entered.frames == below.push(moved).push(child));
    assert(entered.top() == child);
    assert(entered.below() == below.push(moved));
    let skipped = if count > 0 {
        step_of(entered, states)
    } else {
        entered
    };
    if count > 0 {
        lemma_run_unfolds(entered, states);
    }
    assert(skipped.frames == below.push(moved).push(skipped.top()));
    assert(skipped.below() == below.push(moved));
    lemma_run_unfolds(skipped, states);
    let left = step_of(skipped, states);
    let goal = filed(w, moved, Outcome::mismatch(record));
    assert(left.frames == goal.frames);
    assert(left.pairings == goal.pairings);
    assert(left.diagnostics == goal.diagnostics);
}

/// Once the content of a boundary was replaced by what the client expects,
/// walking the boundary again reports nothing.
pub proof fn repaired_boundary_hydrates(
    w: WalkerView,
    repaired: DomNode,
    states: Map<u64, BoundaryState>,
)
    requires
        w.wf(),
        w.state == WalkerState::Matching,
        w.top().built < w.top().templates.len(),
        w.top().position < w.top().live.len(),
        w.top().next_template().kind == NodeKind::SuspenseBoundary,
        mirror(w.top().next_template(), repaired, states),
    ensures
        ({
            let mended = w.repairing(repaired);
            let found = subtree_outcome(mended.top(), states);
            &&& found.diagnostics == Seq::<MismatchView>::empty()
            &&& found.pairings.len() == reached(w.top().next_template(), states)
            &&& run_of(mended, states) == run_of(
                filed(mended, mended.top().pulled().skipped(1), found),
                states,
            )
            &&& filed(mended, mended.top().pulled().skipped(1), found).diagnostics
                == w.diagnostics
        }),
{
    let mended = w.repairing(repaired);
    assert(forall|i: int| 0 <= i < w.frames.len() ==> (#[trigger] w.frames[i]).wf());
    assert forall|i: int| 0 <= i < mended.frames.len() implies (#[trigger] mended.frames[i]).wf(
    ) by {
        if i < w.frames.len() - 1 {
            assert(mended.frames[i] == w.frames[i]);
        } else {
            assert(w.frames[i].wf());
        }
    }
    lemma_mirrored_node_outcome(mended.top(), states);
    lemma_node_runs_to_its_outcome(mended, states);
    assert(w.diagnostics + Seq::<MismatchView>::empty() == w.diagnostics);
}

/// Cursors never move backward: whatever the step, each scope that is
/// still on the stack after it has the siblings it had, and both of its
/// cursors are where they were or further on.
pub proof fn cursors_never_move_backward(w: WalkerView, states: Map<u64, BoundaryState>)
    requires
        w.wf(),
    ensures
        forall|i: int|
            0 <= i < w.frames.len() && i < step_of(w, states).frames.len() ==> {
                &&& (#[trigger] step_of(w, states).frames[i]).live == w.frames[i].live
                &&& step_of(w, states).frames[i].templates == w.frames[i].templates
                &&& step_of(w, states).frames[i].position >= w.frames[i].position
                &&& step_of(w, states).frames[i].built >= w.frames[i].built
            },
{
    let after = step_of(w, states);
    if w.frames.len() > 0 {
        assert(w.frames == w.below().push(w.top()));
        assert(w.top().wf());
    }
    assert forall|i: int| 0 <= i < w.frames.len() && i < after.frames.len() implies {
        &&& (#[trigger] after.frames[i]).live == w.frames[i].live
        &&& after.frames[i].templates == w.frames[i].templates
        &&& after.frames[i].position >= w.frames[i].position
        &&& after.frames[i].built >= w.frames[i].built
    } by {
        if i < w.frames.len() - 1 {
            assert(w.below()[i] == w.frames[i]);
        }
    }
}

/// Every expected node that a step hands to the walk is either paired or
/// reported, never both and never neither; a step that hands out none
/// pairs nothing. No step takes a report or a pairing back.
pub proof fn each_node_is_paired_or_reported(w: WalkerView, states: Map<u64, BoundaryState>)
    requires
        w.wf(),
    ensures
        ({
            let after = step_of(w, states);
            let handed_out = w.state == WalkerState::Matching && w.top().built
                < w.top().templates.len();
            &&& after.pairings.take(w.pairings.len() as int) == w.pairings
            &&& after.diagnostics.take(w.diagnostics.len() as int) == w.diagnostics
            &&& handed_out ==> after.pairings.len() + after.diagnostics.len() == w.pairings.len()
                + w.diagnostics.len() + 1
            &&& !handed_out ==> after.pairings == w.pairings
            &&& handed_out ==> after.frames[w.frames.len() - 1].built == w.top().built + 1
        }),
{
    let after = step_of(w, states);
    if w.frames.len() > 0 {
        assert(w.top().wf());
    }
}

/// A live node is compared with at most one expected node: once an
/// expected node was compared with the live node at the cursor, the cursor
/// of that scope is past the live node before another expected node of the
/// scope is handed out, either at once or by the skip that follows.
pub proof fn live_node_is_visited_once(w: WalkerView, states: Map<u64, BoundaryState>)
    requires
        w.wf(),
        w.state == WalkerState::Matching,
        w.top().built < w.top().templates.len(),
        w.top().position < w.top().live.len(),
    ensures
        ({
            let scope = w.frames.len() - 1;
            let after = step_of(w, states);
            let resumed = step_of(after, states);
            ||| after.frames[scope].position == w.top().position + 1
            ||| {
                &&& after.state == WalkerState::Skipping
                &&& after.frames.len() == w.frames.len()
                &&& after.frames[scope].built == w.top().built + 1
                &&& resumed.state == WalkerState::Matching
                &&& resumed.frames[scope].built == w.top().built + 1
                &&& resumed.frames[scope].position == w.top().position + 1
            }
        }),
{
    assert(w.top().wf());
}

/// Running never takes a report or a pairing back: what was filed before
/// the run is the beginning of what is filed after it.
pub proof fn run_keeps_what_was_filed(w: WalkerView, states: Map<u64, BoundaryState>)
    requires
        w.wf(),
    ensures
        run_of(w, states).diagnostics.len() >= w.diagnostics.len(),
        run_of(w, states).diagnostics.take(w.diagnostics.len() as int) == w.diagnostics,
        run_of(w, states).pairings.len() >= w.pairings.len(),
        run_of(w, states).pairings.take(w.pairings.len() as int) == w.pairings,
        run_of(w, states).state == WalkerState::Done,
    decreases measure(w),
{
    if w.state != WalkerState::Done {
        let after = step_of(w, states);
        lemma_run_unfolds(w, states);
        lemma_step_decreases(w, states);
        each_node_is_paired_or_reported(w, states);
        run_keeps_what_was_filed(after, states);
        let end = run_of(w, states);
        assert(end.diagnostics.take(w.diagnostics.len() as int) == end.diagnostics.take(
            after.diagnostics.len() as int,
        ).take(w.diagnostics.len() as int));
        assert(end.pairings.take(w.pairings.len() as int) == end.pairings.take(
            after.pairings.len() as int,
        ).take(w.pairings.len() as int));
    }
}

} // verus!
