//! Why a client that is seeded from the document agrees with the server.

use crate::boundary::{expectation, BoundaryState, Phase};
use crate::equivalence::hydration_of;
use crate::laws::mirrored_document_hydrates;
use crate::mirror::{mirror, mirrors};
use crate::mismatch::MismatchView;
use crate::node::{DomNode, NodeKind, Template};
use crate::seeding::{is_opaque, seeded_by_marker, seeded_by_node, seeded_by_nodes};
use vstd::prelude::*;

verus! {

/// Two beliefs about one boundary name the same phase and, for a pending
/// boundary, the same number of placeholder nodes.
pub open spec fn agrees(client: BoundaryState, server: BoundaryState) -> bool {
    &&& client.phase == server.phase
    &&& (client.phase == Phase::Pending ==> client.placeholder_node_count
        == server.placeholder_node_count)
}

/// Whatever the client knows of a boundary, the server believes too.
pub open spec fn consistent(
    client: Map<u64, BoundaryState>,
    server: Map<u64, BoundaryState>,
) -> bool {
    forall|id: u64| #[trigger]
        client.contains_key(id) ==> agrees(client[id], expectation(server, id))
}

/// `large` knows every boundary that `small` knows, in the same state.
pub open spec fn extends(small: Map<u64, BoundaryState>, large: Map<u64, BoundaryState>) -> bool {
    forall|id: u64| #[trigger]
        small.contains_key(id) ==> large.contains_key(id) && large[id] == small[id]
}

/// The live subtree `live` is what a server that believes `server` emits
/// for `template`: the node builds and has the kind; a boundary carries
/// its identifier and the phase that the server believes; a pending one
/// counts the placeholders that stand for it, a resolved one has the real
/// subtree rendered inside.
pub open spec fn rendering(
    template: Template,
    live: DomNode,
    server: Map<u64, BoundaryState>,
) -> bool
    decreases template, 0int,
{
    &&& !template.raises
    &&& template.kind == live.dom_kind
    &&& if template.kind == NodeKind::SuspenseBoundary {
        let belief = expectation(server, template.boundary_id);
        &&& live.boundary_id == template.boundary_id
        &&& live.phase == belief.phase
        &&& if belief.phase == Phase::Pending {
            &&& live.placeholder_node_count == live.children@.len()
            &&& belief.placeholder_node_count == live.children@.len()
        } else {
            renderings(template.children@, live.children@, server)
        }
    } else {
        renderings(template.children@, live.children@, server)
    }
}

/// The live siblings `live` are what a server that believes `server`
/// emits for `templates`.
pub open spec fn renderings(
    templates: Seq<Template>,
    live: Seq<DomNode>,
    server: Map<u64, BoundaryState>,
) -> bool
    decreases templates, 1int,
{
    if templates.len() == 0 {
        live.len() == 0
    } else {
        &&& live.len() > 0
        &&& rendering(templates[0], live[0], server)
        &&& renderings(
            templates.subrange(1, templates.len() as int),
            live.subrange(1, live.len() as int),
            server,
        )
    }
}

/// Seeding from a subtree forgets nothing and changes nothing that was
/// known.
pub proof fn lemma_seeding_node_extends(
    client: Map<u64, BoundaryState>,
    resolutions: nat,
    node: DomNode,
)
    ensures
        extends(client, seeded_by_node(client, resolutions, node).0),
    decreases node, 0int,
{
    let own = seeded_by_marker(client, resolutions, node);
    if !is_opaque(node) {
        lemma_seeding_nodes_extends(own.0, own.1, node.children@);
        let after = seeded_by_nodes(own.0, own.1, node.children@).0;
        assert forall|id: u64| #[trigger] client.contains_key(id) implies after.contains_key(id)
            && after[id] == client[id] by {
            assert(own.0.contains_key(id));
        }
    }
}

/// Seeding from a document forgets nothing and changes nothing that was
/// known.
pub proof fn lemma_seeding_nodes_extends(
    client: Map<u64, BoundaryState>,
    resolutions: nat,
    forest: Seq<DomNode>,
)
    ensures
        extends(client, seeded_by_nodes(client, resolutions, forest).0),
    decreases forest, 1int,
{
    if forest.len() > 0 {
        let first = seeded_by_node(client, resolutions, forest[0]);
        let rest = forest.subrange(1, forest.len() as int);
        lemma_seeding_node_extends(client, resolutions, forest[0]);
        lemma_seeding_nodes_extends(first.0, first.1, rest);
        let after = seeded_by_nodes(first.0, first.1, rest).0;
        assert forall|id: u64| #[trigger] client.contains_key(id) implies after.contains_key(id)
            && after[id] == client[id] by {
            assert(first.0.contains_key(id));
        }
    }
}

/// Seeding a client that is consistent with the server from what the
/// server emitted for `template` leaves it consistent, and every client
/// that knows what the seeded one knows finds `live` to be what it
/// expects.
pub proof fn lemma_seeded_node_mirrors(
    template: Template,
    live: DomNode,
    server: Map<u64, BoundaryState>,
    client: Map<u64, BoundaryState>,
    resolutions: nat,
    later: Map<u64, BoundaryState>,
)
    requires
        rendering(template, live, server),
        consistent(client, server),
        extends(seeded_by_node(client, resolutions, live).0, later),
    ensures
        consistent(seeded_by_node(client, resolutions, live).0, server),
        mirror(template, live, later),
    decreases template, 0int,
{
    let own = seeded_by_marker(client, resolutions, live);
    let after = seeded_by_node(client, resolutions, live).0;
    assert forall|id: u64| #[trigger] own.0.contains_key(id) implies agrees(
        own.0[id],
        expectation(server, id),
    ) by {
        if id != template.boundary_id || template.kind != NodeKind::SuspenseBoundary {
            assert(client.contains_key(id));
        } else if client.contains_key(id) {
        }
    }
    if template.kind == NodeKind::SuspenseBoundary {
        let id = template.boundary_id;
        assert(own.0.contains_key(id));
        lemma_seeding_node_extends(client, resolutions, live);
        if !is_opaque(live) {
            lemma_seeding_nodes_extends(own.0, own.1, live.children@);
        }
        assert(after.contains_key(id) && after[id] == own.0[id]);
        assert(later.contains_key(id) && later[id] == own.0[id]);
    }
    if !is_opaque(live) {
        lemma_seeded_nodes_mirror(
            template.children@,
            live.children@,
            server,
            own.0,
            own.1,
            later,
        );
    }
}

/// Seeding a client that is consistent with the server from what the
/// server emitted for `templates` leaves it consistent, and every client
/// that knows what the seeded one knows finds `live` to be what it
/// expects.
pub proof fn lemma_seeded_nodes_mirror(
    templates: Seq<Template>,
    live: Seq<DomNode>,
    server: Map<u64, BoundaryState>,
    client: Map<u64, BoundaryState>,
    resolutions: nat,
    later: Map<u64, BoundaryState>,
)
    requires
        renderings(templates, live, server),
        consistent(client, server),
        extends(seeded_by_nodes(client, resolutions, live).0, later),
    ensures
        consistent(seeded_by_nodes(client, resolutions, live).0, server),
        mirrors(templates, live, later),
    decreases templates, 1int,
{
    if templates.len() > 0 {
        let first = seeded_by_node(client, resolutions, live[0]);
        let rest_templates = templates.subrange(1, templates.len() as int);
        let rest = live.subrange(1, live.len() as int);
        let after = seeded_by_nodes(first.0, first.1, rest).0;
        lemma_seeding_nodes_extends(first.0, first.1, rest);
        assert forall|id: u64| #[trigger] first.0.contains_key(id) implies later.contains_key(id)
            && later[id] == first.0[id] by {
            assert(after.contains_key(id));
        }
        lemma_seeded_node_mirrors(templates[0], live[0], server, client, resolutions, later);
        lemma_seeded_nodes_mirror(rest_templates, rest, server, first.0, first.1, later);
    }
}

/// A client that takes its beliefs from the markers of the document
/// hydrates it without a mismatch, whichever phase the server emitted for
/// each boundary: where the document is what the server renders for the
/// expected tree, and nothing that the client knew beforehand contradicts
/// the server, hydration after seeding reports nothing.
pub proof fn seeded_client_hydrates_without_mismatch(
    templates: Seq<Template>,
    live: Seq<DomNode>,
    server: Map<u64, BoundaryState>,
    client: Map<u64, BoundaryState>,
    resolutions: nat,
)
    requires
        templates.len() <= usize::MAX,
        live.len() <= usize::MAX,
        renderings(templates, live, server),
        consistent(client, server),
    ensures
        mirrors(templates, live, seeded_by_nodes(client, resolutions, live).0),
        hydration_of(
            templates,
            live,
            seeded_by_nodes(client, resolutions, live).0,
        ).diagnostics == Seq::<MismatchView>::empty(),
{
    let seeded = seeded_by_nodes(client, resolutions, live).0;
    lemma_seeded_nodes_mirror(templates, live, server, client, resolutions, seeded);
    mirrored_document_hydrates(templates, live, seeded);
}

} // verus!
