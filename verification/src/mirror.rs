//! When a document is what the expected tree renders to, and how many of
//! its nodes hydration then pairs.

use crate::boundary::{expectation, BoundaryState, Phase};
use crate::machine::descriptions_agree;
use crate::node::{dom_count, doms_count, DomNode, NodeKind, Template};
use vstd::prelude::*;

verus! {

/// The live subtree `live` is what the client expects for `template`: the
/// node builds, the kinds are the same and so on for the children; for a
/// boundary the two descriptions agree, and what stands inside a pending
/// boundary is not looked at.
pub open spec fn mirror(template: Template, live: DomNode, states: Map<u64, BoundaryState>) -> bool
    decreases template, 0int,
{
    &&& !template.raises
    &&& template.kind == live.dom_kind
    &&& if template.kind == NodeKind::SuspenseBoundary {
        let client = expectation(states, template.boundary_id);
        &&& descriptions_agree(client, live)
        &&& (client.phase == Phase::Resolved ==> mirrors(
            template.children@,
            live.children@,
            states,
        ))
    } else {
        mirrors(template.children@, live.children@, states)
    }
}

/// The live siblings `live` are what the client expects for `templates`,
/// one for one and in the same order.
pub open spec fn mirrors(
    templates: Seq<Template>,
    live: Seq<DomNode>,
    states: Map<u64, BoundaryState>,
) -> bool
    decreases templates, 1int,
{
    if templates.len() == 0 {
        live.len() == 0
    } else {
        &&& live.len() > 0
        &&& mirror(templates[0], live[0], states)
        &&& mirrors(
            templates.subrange(1, templates.len() as int),
            live.subrange(1, live.len() as int),
            states,
        )
    }
}

/// How many nodes of `template` the walk reaches: the node, and its
/// descendants but for what lies inside a boundary believed pending.
pub open spec fn reached(template: Template, states: Map<u64, BoundaryState>) -> nat
    decreases template, 0int,
{
    if template.kind == NodeKind::SuspenseBoundary && expectation(
        states,
        template.boundary_id,
    ).phase == Phase::Pending {
        1
    } else {
        1 + reached_all(template.children@, states)
    }
}

/// How many nodes of `templates` the walk reaches.
pub open spec fn reached_all(templates: Seq<Template>, states: Map<u64, BoundaryState>) -> nat
    decreases templates, 1int,
{
    if templates.len() == 0 {
        0
    } else {
        reached(templates[0], states) + reached_all(
            templates.subrange(1, templates.len() as int),
            states,
        )
    }
}

/// No boundary of `template` is believed pending.
pub open spec fn settled(template: Template, states: Map<u64, BoundaryState>) -> bool
    decreases template, 0int,
{
    &&& (template.kind == NodeKind::SuspenseBoundary ==> expectation(
        states,
        template.boundary_id,
    ).phase == Phase::Resolved)
    &&& settled_all(template.children@, states)
}

/// No boundary of `templates` is believed pending.
pub open spec fn settled_all(templates: Seq<Template>, states: Map<u64, BoundaryState>) -> bool
    decreases templates, 1int,
{
    if templates.len() == 0 {
        true
    } else {
        &&& settled(templates[0], states)
        &&& settled_all(templates.subrange(1, templates.len() as int), states)
    }
}

/// Siblings from a position on mirror each other when the first pair does
/// and the rest do.
pub proof fn lemma_mirrors_unfold(
    templates: Seq<Template>,
    built: int,
    live: Seq<DomNode>,
    position: int,
    states: Map<u64, BoundaryState>,
)
    requires
        0 <= built < templates.len(),
        0 <= position <= live.len(),
        mirrors(templates.skip(built), live.skip(position), states),
    ensures
        position < live.len(),
        mirror(templates[built], live[position], states),
        mirrors(templates.skip(built + 1), live.skip(position + 1), states),
{
    let ts = templates.skip(built);
    let ls = live.skip(position);
    assert(ts[0] == templates[built]);
    assert(ls[0] == live[position]);
    assert(ts.subrange(1, ts.len() as int) == templates.skip(built + 1));
    assert(ls.subrange(1, ls.len() as int) == live.skip(position + 1));
}

/// The nodes reached from a position on are those of the first sibling and
/// those of the rest.
pub proof fn lemma_reached_unfold(
    templates: Seq<Template>,
    built: int,
    states: Map<u64, BoundaryState>,
)
    requires
        0 <= built < templates.len(),
    ensures
        reached_all(templates.skip(built), states) == reached(templates[built], states)
            + reached_all(templates.skip(built + 1), states),
{
    let ts = templates.skip(built);
    assert(ts[0] == templates[built]);
    assert(ts.subrange(1, ts.len() as int) == templates.skip(built + 1));
}

/// Where no boundary is believed pending, the walk reaches as many nodes as
/// a document that mirrors the expected tree has.
pub proof fn lemma_settled_reaches_all(
    templates: Seq<Template>,
    live: Seq<DomNode>,
    states: Map<u64, BoundaryState>,
)
    requires
        mirrors(templates, live, states),
        settled_all(templates, states),
    ensures
        reached_all(templates, states) == doms_count(live),
    decreases templates, 1int,
{
    if templates.len() > 0 {
        lemma_settled_node_reaches_all(templates[0], live[0], states);
        lemma_settled_reaches_all(
            templates.subrange(1, templates.len() as int),
            live.subrange(1, live.len() as int),
            states,
        );
    }
}

/// Where no boundary is believed pending, the walk reaches as many nodes as
/// a subtree that mirrors the expected node has.
pub proof fn lemma_settled_node_reaches_all(
    template: Template,
    live: DomNode,
    states: Map<u64, BoundaryState>,
)
    requires
        mirror(template, live, states),
        settled(template, states),
    ensures
        reached(template, states) == dom_count(live),
    decreases template, 0int,
{
    lemma_settled_reaches_all(template.children@, live.children@, states);
}

} // verus!
