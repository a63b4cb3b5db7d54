//! The two trees that hydration compares: the template of what the client
//! expects, and the document that the server rendered.

use crate::boundary::Phase;
use vstd::prelude::*;

verus! {

/// What kind of node stands at a position.
#[derive(Clone, Copy, Debug, PartialEq, Eq, Hash, Structural)]
pub enum NodeKind {
    Element,
    Text,
    Placeholder,
    Fragment,
    SuspenseBoundary,
}

/// A node of the client's template: what the client will expect at a
/// position once the node is built. Building is deferred: the template is
/// only read one node at a time, as the walk reaches it.
#[derive(Debug, PartialEq, Eq)]
pub struct Template {
    pub kind: NodeKind,
    /// The boundary's identifier; read only where `kind` is `SuspenseBoundary`.
    pub boundary_id: u64,
    /// Whether building this node fails.
    pub raises: bool,
    pub children: Vec<Template>,
}

/// A node of the rendered document, as the browser reports it. A suspense
/// boundary carries what the server emitted for it: its identifier, its
/// phase and the number of placeholder nodes; its children are the nodes
/// that the server put between the boundary's markers.
#[derive(Debug, PartialEq, Eq)]
pub struct DomNode {
    pub dom_kind: NodeKind,
    /// The three marker fields are read only where `dom_kind` is `SuspenseBoundary`.
    pub boundary_id: u64,
    pub phase: Phase,
    pub placeholder_node_count: usize,
    pub children: Vec<DomNode>,
}

impl Template {
    /// A node of `kind` that is no boundary, with `children`.
    pub fn node(kind: NodeKind, children: Vec<Template>) -> (template: Template)
        ensures
            template.kind == kind,
            template.boundary_id == 0,
            !template.raises,
            template.children == children,
    {
        Template { kind, boundary_id: 0, raises: false, children }
    }

    /// An element with `children`.
    pub fn element(children: Vec<Template>) -> (template: Template)
        ensures
            template.kind == NodeKind::Element,
            template.boundary_id == 0,
            !template.raises,
            template.children == children,
    {
        Template { kind: NodeKind::Element, boundary_id: 0, raises: false, children }
    }

    /// A text node.
    pub fn text() -> (template: Template)
        ensures
            template.kind == NodeKind::Text,
            template.boundary_id == 0,
            !template.raises,
            template.children@.len() == 0,
    {
        Template { kind: NodeKind::Text, boundary_id: 0, raises: false, children: Vec::new() }
    }

    /// A fragment of `children`.
    pub fn fragment(children: Vec<Template>) -> (template: Template)
        ensures
            template.kind == NodeKind::Fragment,
            template.boundary_id == 0,
            !template.raises,
            template.children == children,
    {
        Template { kind: NodeKind::Fragment, boundary_id: 0, raises: false, children }
    }

    /// The suspense boundary `boundary_id`, with the real subtree `children`.
    pub fn suspense(boundary_id: u64, children: Vec<Template>) -> (template: Template)
        ensures
            template.kind == NodeKind::SuspenseBoundary,
            template.boundary_id == boundary_id,
            !template.raises,
            template.children == children,
    {
        Template { kind: NodeKind::SuspenseBoundary, boundary_id, raises: false, children }
    }

    /// A node whose building fails.
    pub fn failing() -> (template: Template)
        ensures
            template.kind == NodeKind::Element,
            template.boundary_id == 0,
            template.raises,
            template.children@.len() == 0,
    {
        Template { kind: NodeKind::Element, boundary_id: 0, raises: true, children: Vec::new() }
    }
}

impl DomNode {
    /// A live node of `dom_kind` that is no boundary, with `children`.
    pub fn node(dom_kind: NodeKind, children: Vec<DomNode>) -> (node: DomNode)
        ensures
            node.dom_kind == dom_kind,
            node.boundary_id == 0,
            node.phase == Phase::Pending,
            node.placeholder_node_count == 0,
            node.children == children,
    {
        DomNode {
            dom_kind,
            boundary_id: 0,
            phase: Phase::Pending,
            placeholder_node_count: 0,
            children,
        }
    }

    /// A live element with `children`.
    pub fn element(children: Vec<DomNode>) -> (node: DomNode)
        ensures
            node.dom_kind == NodeKind::Element,
            node.boundary_id == 0,
            node.phase == Phase::Pending,
            node.placeholder_node_count == 0,
            node.children == children,
    {
        DomNode::node(NodeKind::Element, children)
    }

    /// A live text node.
    pub fn text() -> (node: DomNode)
        ensures
            node.dom_kind == NodeKind::Text,
            node.boundary_id == 0,
            node.phase == Phase::Pending,
            node.placeholder_node_count == 0,
            node.children@.len() == 0,
    {
        DomNode::node(NodeKind::Text, Vec::new())
    }

    /// A live placeholder node, such as a comment.
    pub fn placeholder() -> (node: DomNode)
        ensures
            node.dom_kind == NodeKind::Placeholder,
            node.boundary_id == 0,
            node.phase == Phase::Pending,
            node.placeholder_node_count == 0,
            node.children@.len() == 0,
    {
        DomNode::node(NodeKind::Placeholder, Vec::new())
    }

    /// A boundary that the server emitted as pending, with the placeholder
    /// nodes that stand for it.
    pub fn pending_boundary(boundary_id: u64, placeholders: Vec<DomNode>) -> (node: DomNode)
        ensures
            node.dom_kind == NodeKind::SuspenseBoundary,
            node.boundary_id == boundary_id,
            node.phase == Phase::Pending,
            node.placeholder_node_count == placeholders@.len(),
            node.children == placeholders,
    {
        let placeholder_node_count = placeholders.len();
        DomNode {
            dom_kind: NodeKind::SuspenseBoundary,
            boundary_id,
            phase: Phase::Pending,
            placeholder_node_count,
            children: placeholders,
        }
    }

    /// A boundary that the server emitted as resolved, with its real
    /// subtree, and the number of placeholder nodes that would have stood
    /// for it.
    pub fn resolved_boundary(
        boundary_id: u64,
        placeholder_node_count: usize,
        children: Vec<DomNode>,
    ) -> (node: DomNode)
        ensures
            node.dom_kind == NodeKind::SuspenseBoundary,
            node.boundary_id == boundary_id,
            node.phase == Phase::Resolved,
            node.placeholder_node_count == placeholder_node_count,
            node.children == children,
    {
        DomNode {
            dom_kind: NodeKind::SuspenseBoundary,
            boundary_id,
            phase: Phase::Resolved,
            placeholder_node_count,
            children,
        }
    }
}

/// The number of nodes of the template `template`, itself included.
pub open spec fn template_count(template: Template) -> nat
    decreases template, 0int,
{
    1 + templates_count(template.children@)
}

/// The number of nodes of the templates `forest`, descendants included.
pub open spec fn templates_count(forest: Seq<Template>) -> nat
    decreases forest, 1int,
{
    if forest.len() == 0 {
        0
    } else {
        template_count(forest[0]) + templates_count(forest.subrange(1, forest.len() as int))
    }
}

/// The number of nodes of the live subtree `node`, itself included.
pub open spec fn dom_count(node: DomNode) -> nat
    decreases node, 0int,
{
    1 + doms_count(node.children@)
}

/// The number of live nodes of `forest`, descendants included.
pub open spec fn doms_count(forest: Seq<DomNode>) -> nat
    decreases forest, 1int,
{
    if forest.len() == 0 {
        0
    } else {
        dom_count(forest[0]) + doms_count(forest.subrange(1, forest.len() as int))
    }
}

/// The templates from position `from` on count their first node and the rest.
pub proof fn lemma_templates_count_unfold(forest: Seq<Template>, from: int)
    requires
        0 <= from < forest.len(),
    ensures
        templates_count(forest.skip(from)) == template_count(forest[from]) + templates_count(
            forest.skip(from + 1),
        ),
{
    let rest = forest.skip(from);
    assert(rest[0] == forest[from]);
    assert(rest.subrange(1, rest.len() as int) == forest.skip(from + 1));
}

/// The live nodes from position `from` on count their first node and the rest.
pub proof fn lemma_doms_count_unfold(forest: Seq<DomNode>, from: int)
    requires
        0 <= from < forest.len(),
    ensures
        doms_count(forest.skip(from)) == dom_count(forest[from]) + doms_count(
            forest.skip(from + 1),
        ),
{
    let rest = forest.skip(from);
    assert(rest[0] == forest[from]);
    assert(rest.subrange(1, rest.len() as int) == forest.skip(from + 1));
}

/// Leaving out `count` live nodes leaves out at least `count` nodes.
pub proof fn lemma_doms_count_skip(forest: Seq<DomNode>, from: int, count: int)
    requires
        0 <= from,
        0 <= count,
        from + count <= forest.len(),
    ensures
        doms_count(forest.skip(from + count)) + count <= doms_count(forest.skip(from)),
    decreases count,
{
    if count > 0 {
        lemma_doms_count_unfold(forest, from);
        lemma_doms_count_skip(forest, from + 1, count - 1);
    }
}

} // verus!
