//! Why the walk ends: every step uses up part of what is left to do.

use crate::boundary::BoundaryState;
use crate::machine::{lemma_step_keeps_wf, step_of, FrameView, WalkerState, WalkerView};
use crate::node::{
    doms_count, lemma_doms_count_skip, lemma_doms_count_unfold, lemma_templates_count_unfold,
    templates_count,
};
use vstd::prelude::*;

verus! {

/// What is left to do in one scope: to leave it, and to deal with each
/// expected node and each live node that lies at or after its cursors.
pub open spec fn frame_measure(frame: FrameView) -> nat {
    1 + 2 * templates_count(frame.templates.skip(frame.built as int)) + 2 * doms_count(
        frame.live.skip(frame.position as int),
    )
}

/// What is left to do in the scopes `frames`.
pub open spec fn frames_measure(frames: Seq<FrameView>) -> nat
    decreases frames.len(),
{
    if frames.len() == 0 {
        0
    } else {
        frames_measure(frames.drop_last()) + frame_measure(frames.last())
    }
}

/// What is left to do: a bound on the number of steps to come.
pub open spec fn measure(w: WalkerView) -> nat {
    frames_measure(w.frames) + if w.state == WalkerState::Matching {
        1nat
    } else {
        0nat
    }
}

/// The scopes `frames` with `top` on them leave to do what both leave.
pub proof fn lemma_frames_measure_push(frames: Seq<FrameView>, top: FrameView)
    ensures
        frames_measure(frames.push(top)) == frames_measure(frames) + frame_measure(top),
{
    assert(frames.push(top).drop_last() == frames);
}

/// Every step of a walker that is not done leaves less to do.
pub proof fn lemma_step_decreases(w: WalkerView, states: Map<u64, BoundaryState>)
    requires
        w.wf(),
        w.state != WalkerState::Done,
    ensures
        measure(step_of(w, states)) < measure(w),
{
    let top = w.top();
    let below = w.below();
    assert(top.wf());
    assert(w.frames == below.push(top));
    lemma_frames_measure_push(below, top);
    if w.state == WalkerState::Skipping {
        lemma_doms_count_skip(top.live, top.position as int, w.skip as int);
        lemma_frames_measure_push(below, top.skipped(w.skip));
    } else if top.built == top.templates.len() {
    } else {
        let template = top.next_template();
        lemma_templates_count_unfold(top.templates, top.built as int);
        lemma_frames_measure_push(below, top.pulled());
        if top.position < top.live.len() {
            let live = top.next_live();
            let moved = top.pulled().skipped(1);
            lemma_doms_count_unfold(top.live, top.position as int);
            lemma_frames_measure_push(below, moved);
            assert(template.children@.skip(0) == template.children@);
            assert(live.children@.skip(0) == live.children@);
            assert(templates_count(template.children@.skip(template.children@.len() as int)) == 0);
            let after = step_of(w, states);
            if after.frames.len() == below.len() + 2 {
                let child = after.frames.last();
                assert(after.frames == below.push(moved).push(child));
                lemma_frames_measure_push(below.push(moved), child);
            }
        }
    }
}

/// The walker after it has run until it is done.
pub open spec fn run_of(w: WalkerView, states: Map<u64, BoundaryState>) -> WalkerView
    decreases measure(w),
{
    if w.state == WalkerState::Done || !w.wf() {
        w
    } else {
        proof {
            lemma_step_decreases(w, states);
        }
        run_of(step_of(w, states), states)
    }
}

/// A walker that is not done runs as the walker after its next step does.
pub proof fn lemma_run_unfolds(w: WalkerView, states: Map<u64, BoundaryState>)
    requires
        w.wf(),
        w.state != WalkerState::Done,
    ensures
        run_of(w, states) == run_of(step_of(w, states), states),
        step_of(w, states).wf(),
{
    lemma_step_keeps_wf(w, states);
}

} // verus!
