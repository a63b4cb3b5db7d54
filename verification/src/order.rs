//! Document order: what a hydration files, it files in the order in which
//! the positions stand in the document.

use crate::boundary::{expectation, BoundaryState, Phase};
use crate::equivalence::{hydration_of, root_frame};
use crate::identity::indices_of;
use crate::machine::{descriptions_agree, FrameView, PairingView};
use crate::mismatch::MismatchView;
use crate::node::{DomNode, NodeKind, Template};
use crate::outcome::{entered_frame, node_outcome, scope_outcome, unexpected_rest};
use vstd::prelude::*;

verus! {

/// The position `first` stands before the position `second` in document
/// order, because the two part ways at the depth `depth`: either `first`
/// ends there and is an ancestor of `second`, or `first` goes on with an
/// earlier sibling.
pub open spec fn parts_at(first: Seq<usize>, second: Seq<usize>, depth: int) -> bool {
    &&& 0 <= depth <= first.len()
    &&& depth < second.len()
    &&& first.take(depth) == second.take(depth)
    &&& (depth == first.len() || first[depth] < second[depth])
}

/// The position `first` stands before the position `second` in document
/// order.
pub open spec fn precedes(first: Seq<usize>, second: Seq<usize>) -> bool {
    exists|depth: int| parts_at(first, second, depth)
}

/// Each of `positions` stands before all that come after it.
pub open spec fn in_document_order(positions: Seq<Seq<usize>>) -> bool {
    forall|i: int, j: int|
        0 <= i < j < positions.len() ==> precedes(#[trigger] positions[i], #[trigger] positions[j])
}

/// The position `position` lies below the node at `parent`, in or under
/// the child with the index `from` or a later one.
pub open spec fn under(position: Seq<usize>, parent: Seq<usize>, from: nat) -> bool {
    &&& position.len() > parent.len()
    &&& position.take(parent.len() as int) == parent
    &&& position[parent.len() as int] >= from
}

/// Each of `positions` lies below `parent`, in or under the child `from`
/// or a later one.
pub open spec fn all_under(positions: Seq<Seq<usize>>, parent: Seq<usize>, from: nat) -> bool {
    forall|i: int| 0 <= i < positions.len() ==> under(#[trigger] positions[i], parent, from)
}

/// Each of `positions` lies below `parent`, in or under the child `index`.
pub open spec fn all_in(positions: Seq<Seq<usize>>, parent: Seq<usize>, index: nat) -> bool {
    forall|i: int|
        0 <= i < positions.len() ==> under(#[trigger] positions[i], parent, index)
            && positions[i][parent.len() as int] == index
}

/// The positions of the expected nodes of `pairings`.
pub open spec fn pairing_positions(pairings: Seq<PairingView>) -> Seq<Seq<usize>> {
    Seq::new(pairings.len(), |i: int| pairings[i].stable_id.indices)
}

/// The positions of `records`.
pub open spec fn record_positions(records: Seq<MismatchView>) -> Seq<Seq<usize>> {
    Seq::new(records.len(), |i: int| records[i].position)
}

/// In each scope the live cursor keeps step with the expected one, as far
/// as the live nodes go.
pub open spec fn in_step(frame: FrameView) -> bool {
    frame.position == if frame.built <= frame.live.len() {
        frame.built
    } else {
        frame.live.len()
    }
}

/// Positions in one child, in order, followed by positions in later
/// children, in order, are in order.
proof fn lemma_child_before_later(
    first: Seq<Seq<usize>>,
    later: Seq<Seq<usize>>,
    parent: Seq<usize>,
    index: nat,
)
    requires
        in_document_order(first),
        in_document_order(later),
        all_in(first, parent, index),
        all_under(later, parent, index + 1),
    ensures
        in_document_order(first + later),
        all_under(first + later, parent, index),
{
    let all = first + later;
    assert forall|i: int, j: int| 0 <= i < j < all.len() implies precedes(
        #[trigger] all[i],
        #[trigger] all[j],
    ) by {
        if j < first.len() {
            assert(precedes(first[i], first[j]));
        } else if i >= first.len() {
            assert(precedes(later[i - first.len()], later[j - first.len()]));
        } else {
            let a = first[i];
            let b = later[j - first.len()];
            assert(under(a, parent, index));
            assert(under(b, parent, index + 1));
            assert(parts_at(a, b, parent.len() as int));
        }
    }
    assert forall|i: int| 0 <= i < all.len() implies under(#[trigger] all[i], parent, index) by {
        if i < first.len() {
            assert(under(first[i], parent, index));
        } else {
            assert(under(later[i - first.len()], parent, index + 1));
        }
    }
}

/// Positions below the child `index` of `parent` lie in that child.
proof fn lemma_below_child(inner: Seq<Seq<usize>>, parent: Seq<usize>, index: usize)
    requires
        all_under(inner, parent.push(index), 0),
    ensures
        all_in(inner, parent, index as nat),
{
    let child = parent.push(index);
    assert forall|i: int| 0 <= i < inner.len() implies under(
        #[trigger] inner[i],
        parent,
        index as nat,
    ) && inner[i][parent.len() as int] == index by {
        let p = inner[i];
        assert(under(p, child, 0));
        assert(p.take(child.len() as int)[parent.len() as int] == index);
        assert(p.take(parent.len() as int) == p.take(child.len() as int).take(
            parent.len() as int,
        ));
        assert(child.take(parent.len() as int) == parent);
    }
}

/// A node stands before everything below it.
proof fn lemma_node_before_inside(inner: Seq<Seq<usize>>, parent: Seq<usize>, index: usize)
    requires
        in_document_order(inner),
        all_under(inner, parent.push(index), 0),
    ensures
        in_document_order(seq![parent.push(index)] + inner),
        all_in(seq![parent.push(index)] + inner, parent, index as nat),
{
    let child = parent.push(index);
    let all = seq![child] + inner;
    lemma_below_child(inner, parent, index);
    assert(child.take(parent.len() as int) == parent);
    assert forall|i: int, j: int| 0 <= i < j < all.len() implies precedes(
        #[trigger] all[i],
        #[trigger] all[j],
    ) by {
        if i == 0 {
            let b = inner[j - 1];
            assert(under(b, child, 0));
            assert(child.take(child.len() as int) == child);
            assert(parts_at(child, b, child.len() as int));
        } else {
            assert(precedes(inner[i - 1], inner[j - 1]));
        }
    }
    assert forall|i: int| 0 <= i < all.len() implies under(#[trigger] all[i], parent, index as nat)
        && all[i][parent.len() as int] == index by {
        if i > 0 {
            assert(under(inner[i - 1], parent, index as nat));
        }
    }
}

/// What the walk files from the cursors of a scope on, it files in
/// document order, and all of it lies in the scope at or after the
/// expected cursor.
pub proof fn lemma_scope_in_document_order(frame: FrameView, states: Map<u64, BoundaryState>)
    requires
        frame.wf(),
        in_step(frame),
    ensures
        in_document_order(pairing_positions(scope_outcome(frame, states).pairings)),
        in_document_order(record_positions(scope_outcome(frame, states).diagnostics)),
        all_under(
            pairing_positions(scope_outcome(frame, states).pairings),
            indices_of(frame.path),
            frame.built,
        ),
        all_under(
            record_positions(scope_outcome(frame, states).diagnostics),
            indices_of(frame.path),
            frame.built,
        ),
    decreases frame.templates, frame.templates.len() - frame.built,
{
    let parent = indices_of(frame.path);
    let found = scope_outcome(frame, states);
    if frame.built >= frame.templates.len() {
        let positions = record_positions(unexpected_rest(frame));
        assert forall|i: int| 0 <= i < positions.len() implies under(
            #[trigger] positions[i],
            parent,
            frame.built,
        ) by {
            assert(positions[i] == parent.push((frame.position + i) as usize));
            assert(positions[i].take(parent.len() as int) == parent);
        }
        assert forall|i: int, j: int| 0 <= i < j < positions.len() implies precedes(
            #[trigger] positions[i],
            #[trigger] positions[j],
        ) by {
            assert(positions[i] == parent.push((frame.position + i) as usize));
            assert(positions[j] == parent.push((frame.position + j) as usize));
            assert(positions[i].take(parent.len() as int) == parent);
            assert(positions[j].take(parent.len() as int) == parent);
            assert(parts_at(positions[i], positions[j], parent.len() as int));
        }
    } else {
        let index = frame.built as usize;
        let child = parent.push(index);
        let inner_frame = entered_frame(frame);
        let inside = scope_outcome(inner_frame, states);
        let own = node_outcome(frame, inside, states);
        let next = frame.pulled().skipped(1);
        let rest = scope_outcome(next, states);
        assert(indices_of(frame.next_path()) == child);
        assert(indices_of(inner_frame.path) == child);
        if frame.position < frame.live.len() {
            let template_children = frame.next_template().children;
            let live_children = frame.next_live().children;
            assert(template_children@.len() == template_children.len());
            assert(live_children@.len() == live_children.len());
            lemma_scope_in_document_order(inner_frame, states);
        }
        lemma_scope_in_document_order(next, states);
        let own_pairs = pairing_positions(own.pairings);
        let own_records = record_positions(own.diagnostics);
        let nothing = Seq::<Seq<usize>>::empty();
        let template = frame.next_template();
        let matched = !template.raises && frame.position < frame.live.len() && template.kind
            == frame.next_live().dom_kind;
        let client = expectation(states, template.boundary_id);
        let walked = matched && (template.kind != NodeKind::SuspenseBoundary || (client.phase
            == Phase::Resolved && frame.next_live().phase == Phase::Resolved));
        lemma_node_before_inside(nothing, parent, index);
        if walked {
            let inner_pairs = pairing_positions(inside.pairings);
            let inner_records = record_positions(inside.diagnostics);
            assert(own_pairs == seq![child] + inner_pairs);
            assert(own_records == inner_records);
            lemma_node_before_inside(inner_pairs, parent, index);
            lemma_below_child(inner_records, parent, index);
        } else if matched && descriptions_agree(client, frame.next_live()) {
            assert(own_pairs == seq![child] + nothing);
            assert(own_records == nothing);
        } else {
            assert(own_pairs == nothing);
            assert(own_records == seq![child] + nothing);
        }
        lemma_child_before_later(
            own_pairs,
            pairing_positions(rest.pairings),
            parent,
            index as nat,
        );
        lemma_child_before_later(
            own_records,
            record_positions(rest.diagnostics),
            parent,
            index as nat,
        );
        assert(pairing_positions(found.pairings) == own_pairs + pairing_positions(
            rest.pairings,
        ));
        assert(record_positions(found.diagnostics) == own_records + record_positions(
            rest.diagnostics,
        ));
    }
}

/// Pairs and mismatches come in document order: each pair that a
/// hydration files stands before all pairs that it files later, and each
/// mismatch before all later mismatches.
pub proof fn hydration_is_in_document_order(
    templates: Seq<Template>,
    live: Seq<DomNode>,
    states: Map<u64, BoundaryState>,
)
    requires
        templates.len() <= usize::MAX,
        live.len() <= usize::MAX,
    ensures
        in_document_order(pairing_positions(hydration_of(templates, live, states).pairings)),
        in_document_order(record_positions(hydration_of(templates, live, states).diagnostics)),
{
    lemma_scope_in_document_order(root_frame(templates, live), states);
}

} // verus!
