//! The hydration walker: it moves a cursor through the live document and
//! a cursor through the expected tree in lockstep, pairs the nodes that
//! agree and reports those that do not.

use crate::boundary::{BoundaryState, BoundaryTracker, Phase};
use crate::builder::{is_boundary, BuildScope, RenderNode, VirtualNodeBuilder};
use crate::cursor::{Cursor, LiveNode};
use crate::identity::{stable_id, StableId};
use crate::machine::{
    actual_inside, child_frame, descriptions_agree, expected_inside, lemma_step_keeps_wf, start_of,
    step_of, FrameView, PairingView, WalkerState, WalkerView,
};
use crate::mismatch::{
    record_views, ActualKind, ExpectedKind, MismatchRecord, MismatchReporter, MismatchView,
};
use crate::node::{DomNode, NodeKind, Template};
use crate::progress::{lemma_step_decreases, measure, run_of};
use vstd::prelude::*;

verus! {

/// An expected node and the live node that it was matched to.
#[derive(Clone, Debug, PartialEq, Eq)]
pub struct Pairing {
    pub stable_id: StableId,
    pub kind: NodeKind,
    /// The place of the live node among its siblings.
    pub live_position: usize,
}

impl View for Pairing {
    type V = PairingView;

    open spec fn view(&self) -> PairingView {
        PairingView {
            stable_id: self.stable_id@,
            kind: self.kind,
            live_position: self.live_position as nat,
        }
    }
}

/// What each of `pairings` stands for, in the same order.
pub open spec fn pairing_views(pairings: Seq<Pairing>) -> Seq<PairingView> {
    Seq::new(pairings.len(), |i: int| pairings[i]@)
}

/// One sibling scope of the walk: the expected siblings, the live siblings
/// and a cursor into each, and the innermost boundary around them.
#[derive(Debug)]
struct Frame<'a> {
    render: BuildScope<'a>,
    live: Cursor<'a>,
    boundary: Option<u64>,
}

impl<'a> View for Frame<'a> {
    type V = FrameView;

    closed spec fn view(&self) -> FrameView {
        FrameView {
            templates: self.render@.siblings,
            built: self.render@.next_index,
            path: self.render@.path,
            live: self.live@.nodes,
            position: self.live@.position,
            boundary: self.boundary,
        }
    }
}

/// What each of `frames` stands for, outermost first.
spec fn frame_views<'a>(frames: Seq<Frame<'a>>) -> Seq<FrameView> {
    Seq::new(frames.len(), |i: int| frames[i]@)
}

/// The data of a walk: the state, the scope stack, and what was filed.
#[derive(Debug)]
struct Walk<'a> {
    state: WalkerState,
    skip: usize,
    frames: Vec<Frame<'a>>,
    pairings: Vec<Pairing>,
    reporter: MismatchReporter,
}

impl<'a> View for Walk<'a> {
    type V = WalkerView;

    closed spec fn view(&self) -> WalkerView {
        WalkerView {
            state: self.state,
            skip: self.skip as nat,
            frames: frame_views(self.frames@),
            pairings: pairing_views(self.pairings@),
            diagnostics: self.reporter@,
        }
    }
}

/// What the document holds at `live`.
fn actual_kind(live: &Option<LiveNode>) -> (actual: ActualKind)
    ensures
        actual == match live {
            Some(found) => ActualKind::Node(found.node.dom_kind),
            None => ActualKind::EndOfScope,
        },
{
    match live {
        Some(found) => ActualKind::Node(found.dom_kind()),
        None => ActualKind::EndOfScope,
    }
}

/// What the client, believing `client`, expects first inside the boundary
/// `node`.
fn expected_first(node: &RenderNode, client: &BoundaryState) -> (expected: ExpectedKind)
    ensures
        expected == expected_inside(node.children_thunk.source@, *client),
{
    match client.phase {
        Phase::Resolved => {
            if node.children_thunk.source.len() == 0 {
                ExpectedKind::EndOfScope
            } else if node.children_thunk.source[0].raises {
                ExpectedKind::Error
            } else {
                ExpectedKind::Node(node.children_thunk.source[0].kind)
            }
        },
        Phase::Pending => {
            if client.placeholder_node_count == 0 {
                ExpectedKind::EndOfScope
            } else {
                ExpectedKind::Node(NodeKind::Placeholder)
            }
        },
    }
}

/// What the document holds first inside the boundary `live`.
fn actual_first(live: &LiveNode) -> (actual: ActualKind)
    ensures
        actual == actual_inside(*live.node),
{
    if live.node.children.len() == 0 {
        ActualKind::EndOfScope
    } else {
        ActualKind::Node(live.node.children[0].dom_kind)
    }
}

/// Whether the client's belief `client` and the live boundary `live`
/// describe the same content.
fn agree(client: &BoundaryState, live: &LiveNode) -> (same: bool)
    ensures
        same == descriptions_agree(*client, *live.node),
{
    match client.phase {
        Phase::Resolved => match live.node.phase {
            Phase::Resolved => true,
            Phase::Pending => false,
        },
        Phase::Pending => match live.node.phase {
            Phase::Resolved => false,
            Phase::Pending => client.placeholder_node_count == live.node.children.len(),
        },
    }
}

impl<'a> Walk<'a> {
    /// The scope stack and the cursors are in order.
    spec fn wf(&self) -> bool {
        self@.wf()
    }

    /// A walk that is over, with nothing filed.
    fn over() -> (walk: Walk<'a>)
        ensures
            walk.wf(),
            walk@.state == WalkerState::Done,
    {
        let walk = Walk {
            state: WalkerState::Done,
            skip: 0,
            frames: Vec::new(),
            pairings: Vec::new(),
            reporter: MismatchReporter::new(),
        };
        proof {
            assert(walk@.frames =~= Seq::<FrameView>::empty());
        }
        walk
    }

    /// A walk at the start of the hydration of `live` against `templates`.
    fn new(templates: &'a Vec<Template>, live: &'a Vec<DomNode>) -> (walker: Walk<'a>)
        ensures
            walker.wf(),
            walker@ == start_of(templates@, live@),
    {
        let builder = VirtualNodeBuilder::new(templates);
        let root = Frame { render: builder.root_scope(), live: Cursor::new(live), boundary: None };
        let mut frames: Vec<Frame<'a>> = Vec::new();
        frames.push(root);
        let walker = Walk {
            state: WalkerState::Matching,
            skip: 0,
            frames,
            pairings: Vec::new(),
            reporter: MismatchReporter::new(),
        };
        proof {
            assert(walker@.frames =~= start_of(templates@, live@).frames);
            assert(walker@.pairings =~= Seq::<PairingView>::empty());
            assert(templates@.len() == templates.len() && live@.len() == live.len());
            assert(walker@.frames[0].wf());
        }
        walker
    }

    /// Reports that the next expected node, which was handed out already,
    /// does not hydrate, and puts the scope `top` back.
    fn report_node(
        &mut self,
        top: Frame<'a>,
        position: Vec<usize>,
        expected: ExpectedKind,
        live: &Option<LiveNode<'a>>,
    )
        requires
            old(self).state == WalkerState::Matching,
            old(self).skip == 0,
            top@.wf(),
            match live {
                Some(found) => top@.position < top@.live.len() && *found.node == top@.next_live(),
                None => top@.position == top@.live.len(),
            },
        ensures
            final(self)@ == (WalkerView {
                state: if live.is_some() {
                    WalkerState::Skipping
                } else {
                    WalkerState::Matching
                },
                skip: if live.is_some() {
                    1
                } else {
                    0
                },
                frames: old(self)@.frames.push(top@),
                diagnostics: old(self)@.diagnostics.push(
                    MismatchView {
                        position: position@,
                        expected_kind: expected,
                        actual_kind: top@.actual(),
                        boundary_id: top@.boundary,
                    },
                ),
                ..old(self)@
            }),
    {
        let actual = actual_kind(live);
        self.reporter.report(
            MismatchRecord {
                position,
                expected_kind: expected,
                actual_kind: actual,
                boundary_id: top.boundary,
            },
        );
        if live.is_some() {
            self.state = WalkerState::Skipping;
            self.skip = 1;
        }
        self.frames.push(top);
        proof {
            assert(frame_views(self.frames@) =~= old(self)@.frames.push(top@));
        }
    }

    /// Files the pairing of `node` with the live node at `live_position`.
    fn pair(&mut self, stable_id: StableId, kind: NodeKind, live_position: usize)
        ensures
            final(self)@ == (WalkerView {
                pairings: old(self)@.pairings.push(
                    PairingView {
                        stable_id: stable_id@,
                        kind,
                        live_position: live_position as nat,
                    },
                ),
                ..old(self)@
            }),
    {
        self.pairings.push(Pairing { stable_id, kind, live_position });
        proof {
            assert(pairing_views(self.pairings@) =~= old(self)@.pairings.push(
                PairingView { stable_id: stable_id@, kind, live_position: live_position as nat },
            ));
        }
    }

    /// Puts the scope `top` back.
    fn push_frame(&mut self, top: Frame<'a>)
        ensures
            final(self)@ == (WalkerView { frames: old(self)@.frames.push(top@), ..old(self)@ }),
    {
        self.frames.push(top);
        proof {
            assert(frame_views(self.frames@) =~= old(self)@.frames.push(top@));
        }
    }

    /// One matching step in the scope `top`, which was taken off the stack.
    fn step_matching(&mut self, top: Frame<'a>, tracker: &BoundaryTracker)
        requires
            old(self).state == WalkerState::Matching,
            old(self).skip == 0,
            top@.wf(),
        ensures
            final(self)@ == step_of(
                WalkerView { frames: old(self)@.frames.push(top@), ..old(self)@ },
                tracker@,
            ),
    {
        let ghost w = WalkerView { frames: self@.frames.push(top@), ..self@ };
        let ghost f = top@;
        proof {
            assert(w.top() == f);
            assert(w.below() =~= self@.frames);
        }
        let mut top = top;
        let live = top.live.peek();
        match VirtualNodeBuilder::next(&mut top.render) {
            Ok(None) => {
                match live {
                    None => {
                        if self.frames.len() == 0 {
                            self.state = WalkerState::Done;
                        }
                    },
                    Some(found) => {
                        let mut position = stable_id(top.render.path()).indices;
                        position.push(found.position);
                        self.reporter.report(
                            MismatchRecord {
                                position,
                                expected_kind: ExpectedKind::EndOfScope,
                                actual_kind: ActualKind::Node(found.dom_kind()),
                                boundary_id: top.boundary,
                            },
                        );
                        self.state = WalkerState::Skipping;
                        self.skip = 1;
                        self.push_frame(top);
                    },
                }
            },
            Err(failure) => {
                proof {
                    assert(top@ == f.pulled());
                }
                self.report_node(top, failure.position, ExpectedKind::Error, &live);
            },
            Ok(Some(node)) => {
                proof {
                    assert(top@ == f.pulled());
                }
                match live {
                    None => {
                        self.report_node(
                            top,
                            node.stable_id.indices,
                            ExpectedKind::Node(node.kind),
                            &live,
                        );
                    },
                    Some(found) => {
                        if node.kind != found.dom_kind() {
                            self.report_node(
                                top,
                                node.stable_id.indices,
                                ExpectedKind::Node(node.kind),
                                &live,
                            );
                        } else if is_boundary(node.kind) {
                            let client = tracker.expected(node.boundary_id);
                            let inside = Some(node.boundary_id);
                            top.live.advance(1);
                            proof {
                                assert(top@ == f.pulled().skipped(1));
                            }
                            let both_resolved = match client.phase {
                                Phase::Resolved => match found.node.phase {
                                    Phase::Resolved => true,
                                    Phase::Pending => false,
                                },
                                Phase::Pending => false,
                            };
                            if both_resolved {
                                let child = Frame {
                                    render: node.children_thunk.force(),
                                    live: found.children(),
                                    boundary: inside,
                                };
                                proof {
                                    assert(child@ == child_frame(f, 0, inside));
                                }
                                self.pair(node.stable_id, node.kind, found.position);
                                self.push_frame(top);
                                self.push_frame(child);
                            } else {
                                let left_out = found.node.children.len();
                                let child = Frame {
                                    render: node.children_thunk.skip(),
                                    live: found.children(),
                                    boundary: inside,
                                };
                                proof {
                                    assert(child@ == child_frame(
                                        f,
                                        f.next_template().children@.len(),
                                        inside,
                                    ));
                                }
                                if agree(&client, &found) {
                                    self.pair(node.stable_id, node.kind, found.position);
                                } else {
                                    let expected = expected_first(&node, &client);
                                    self.reporter.report(
                                        MismatchRecord {
                                            position: node.stable_id.indices,
                                            expected_kind: expected,
                                            actual_kind: actual_first(&found),
                                            boundary_id: inside,
                                        },
                                    );
                                }
                                if left_out > 0 {
                                    self.state = WalkerState::Skipping;
                                }
                                self.skip = left_out;
                                self.push_frame(top);
                                self.push_frame(child);
                            }
                        } else {
                            top.live.advance(1);
                            proof {
                                assert(top@ == f.pulled().skipped(1));
                            }
                            let entered = !node.children_thunk.is_empty()
                                || found.node.children.len() > 0;
                            if entered {
                                let child = Frame {
                                    render: node.children_thunk.force(),
                                    live: found.children(),
                                    boundary: top.boundary,
                                };
                                proof {
                                    assert(child@ == child_frame(f, 0, f.boundary));
                                }
                                self.pair(node.stable_id, node.kind, found.position);
                                self.push_frame(top);
                                self.push_frame(child);
                            } else {
                                self.pair(node.stable_id, node.kind, found.position);
                                self.push_frame(top);
                            }
                        }
                    },
                }
            },
        }
    }

    /// Takes one step.
    fn step(&mut self, tracker: &BoundaryTracker)
        requires
            old(self).wf(),
        ensures
            final(self).wf(),
            final(self)@ == step_of(old(self)@, tracker@),
    {
        let ghost before = self@;
        proof {
            lemma_step_keeps_wf(before, tracker@);
        }
        if self.is_done() {
            return ;
        }
        let top = self.frames.pop().unwrap();
        proof {
            assert(frame_views(self.frames@) =~= before.below());
            assert(top@ == before.top());
            assert(before.frames =~= before.below().push(before.top()));
        }
        match self.state {
            WalkerState::Skipping => {
                let mut top = top;
                top.live.advance(self.skip);
                self.skip = 0;
                self.state = WalkerState::Matching;
                self.push_frame(top);
            },
            WalkerState::Matching => {
                self.step_matching(top, tracker);
            },
            WalkerState::Done => {},
        }
    }

    /// Steps until the root scope has ended.
    fn run(&mut self, tracker: &BoundaryTracker)
        requires
            old(self).wf(),
        ensures
            final(self).wf(),
            final(self)@ == run_of(old(self)@, tracker@),
            final(self)@.state == WalkerState::Done,
    {
        let ghost start = self@;
        while !self.is_done()
            invariant
                self.wf(),
                run_of(self@, tracker@) == run_of(start, tracker@),
            decreases measure(self@),
        {
            proof {
                lemma_step_decreases(self@, tracker@);
            }
            self.step(tracker);
        }
    }

    /// Whether the root scope has ended.
    fn is_done(&self) -> (done: bool)
        ensures
            done == (self@.state == WalkerState::Done),
    {
        match self.state {
            WalkerState::Done => true,
            _ => false,
        }
    }
}

/// The walker of one hydration: a state machine over a stack of sibling
/// scopes, each with a cursor into the expected siblings and a cursor into
/// the live ones.
#[derive(Debug)]
pub struct Walker<'a> {
    walk: Walk<'a>,
}

impl<'a> View for Walker<'a> {
    type V = WalkerView;

    closed spec fn view(&self) -> WalkerView {
        self.walk@
    }
}

impl<'a> Walker<'a> {
    /// The scope stack and the cursors are in order, always.
    #[verifier::type_invariant]
    spec fn in_order(&self) -> bool {
        self.walk.wf()
    }

    /// A walker at the start of the hydration of `live` against `templates`.
    pub fn new(templates: &'a Vec<Template>, live: &'a Vec<DomNode>) -> (walker: Walker<'a>)
        ensures
            walker@ == start_of(templates@, live@),
            walker@.wf(),
    {
        Walker { walk: Walk::new(templates, live) }
    }

    /// Takes one step: a skipping walker leaves out what it was told to and
    /// resumes; a matching walker leaves a scope that has ended on both
    /// sides, or compares the next expected node with the next live node,
    /// and pairs them or reports them. A walker that is done stays as it is.
    pub fn step(&mut self, tracker: &BoundaryTracker)
        ensures
            old(self)@.wf(),
            final(self)@ == step_of(old(self)@, tracker@),
            final(self)@.wf(),
    {
        proof {
            use_type_invariant(&*self);
        }
        let mut walk = Walk::over();
        std::mem::swap(&mut walk, &mut self.walk);
        walk.step(tracker);
        self.walk = walk;
    }

    /// Steps until the root scope has ended. Mismatches do not stop the
    /// walk.
    pub fn run(&mut self, tracker: &BoundaryTracker)
        ensures
            old(self)@.wf(),
            final(self)@ == run_of(old(self)@, tracker@),
            final(self)@.state == WalkerState::Done,
            final(self)@.wf(),
    {
        proof {
            use_type_invariant(&*self);
        }
        let mut walk = Walk::over();
        std::mem::swap(&mut walk, &mut self.walk);
        walk.run(tracker);
        self.walk = walk;
    }

    /// Whether the root scope has ended. Every walker is in order: it is
    /// done exactly when no scope is left, and its cursors lie within
    /// their scopes.
    pub fn is_done(&self) -> (done: bool)
        ensures
            done == (self@.state == WalkerState::Done),
            self@.wf(),
    {
        proof {
            use_type_invariant(self);
        }
        self.walk.is_done()
    }

    /// The state of the walker.
    pub fn state(&self) -> (state: WalkerState)
        ensures
            state == self@.state,
    {
        self.walk.state
    }

    /// How many live nodes of the innermost scope the next step leaves
    /// out; zero unless the walker is skipping.
    pub fn skip(&self) -> (skip: usize)
        ensures
            skip == self@.skip,
    {
        self.walk.skip
    }

    /// How many scopes are on the stack.
    pub fn depth(&self) -> (depth: usize)
        ensures
            depth == self@.frames.len(),
    {
        self.walk.frames.len()
    }

    /// The position of the live cursor of the scope at `level` of the
    /// stack, the outermost scope being at level zero.
    pub fn position(&self, level: usize) -> (position: Option<usize>)
        ensures
            match position {
                Some(at) => level < self@.frames.len() && at == self@.frames[level as int].position,
                None => level >= self@.frames.len(),
            },
    {
        if level < self.walk.frames.len() {
            Some(self.walk.frames[level].live.position())
        } else {
            None
        }
    }

    /// How many expected nodes the scope at `level` of the stack has handed
    /// out.
    pub fn built(&self, level: usize) -> (built: Option<usize>)
        ensures
            match built {
                Some(count) => level < self@.frames.len() && count
                    == self@.frames[level as int].built,
                None => level >= self@.frames.len(),
            },
    {
        if level < self.walk.frames.len() {
            Some(self.walk.frames[level].render.handed_out())
        } else {
            None
        }
    }

    /// The innermost boundary around the innermost scope, if there is one.
    pub fn boundary(&self) -> (boundary: Option<u64>)
        ensures
            boundary == if self@.frames.len() > 0 {
                self@.top().boundary
            } else {
                None
            },
    {
        let depth = self.walk.frames.len();
        if depth > 0 {
            self.walk.frames[depth - 1].boundary
        } else {
            None
        }
    }

    /// The pairs filed so far, in document order.
    pub fn pairings(&self) -> (pairings: &Vec<Pairing>)
        ensures
            pairing_views(pairings@) == self@.pairings,
    {
        &self.walk.pairings
    }

    /// The mismatches reported so far, in document order.
    pub fn diagnostics(&self) -> (diagnostics: &Vec<MismatchRecord>)
        ensures
            record_views(diagnostics@) == self@.diagnostics,
    {
        &self.walk.reporter.diagnostics
    }

    /// Ends the walk and hands out what was filed.
    pub fn into_report(self) -> (report: HydrationReport)
        ensures
            pairing_views(report.pairings@) == self@.pairings,
            record_views(report.mismatches@) == self@.diagnostics,
    {
        HydrationReport { pairings: self.walk.pairings, mismatches: self.walk.reporter.diagnostics }
    }
}

/// What a hydration found: the pairs, and the mismatches, each in document
/// order.
#[derive(Debug)]
pub struct HydrationReport {
    pub pairings: Vec<Pairing>,
    pub mismatches: Vec<MismatchRecord>,
}

} // verus!
