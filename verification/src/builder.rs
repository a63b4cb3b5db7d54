//! The virtual node builder: it hands out the nodes that the client
//! expects one at a time, and builds a node only when the walk asks for it.

use crate::identity::{indices_of, stable_id, stable_id_of, PathStep, StableId};
use crate::node::{NodeKind, Template};
use vstd::prelude::*;

verus! {

/// The children of a render node, not yet built: where they come from and
/// the path of the node that they belong to. It can be forced any number
/// of times; each time gives a scope at the first child.
#[derive(Debug)]
pub struct ChildrenThunk<'a> {
    pub source: &'a Vec<Template>,
    pub path: Vec<PathStep>,
}

/// A node of the expected tree, built and handed to the walk.
#[derive(Debug)]
pub struct RenderNode<'a> {
    pub kind: NodeKind,
    pub stable_id: StableId,
    /// The boundary's identifier; read only where `kind` is `SuspenseBoundary`.
    pub boundary_id: u64,
    pub children_thunk: ChildrenThunk<'a>,
}

/// The building of a node failed. The node cannot be hydrated.
#[derive(Clone, Debug, PartialEq, Eq)]
pub struct BuildFailure {
    /// The sibling indices from the root to the node.
    pub position: Vec<usize>,
}

/// One sibling scope of the expected tree: the templates of the siblings,
/// how many of them were handed out, and the path of their parent. It
/// hands out no more nodes than it has.
#[derive(Debug)]
pub struct BuildScope<'a> {
    siblings: &'a Vec<Template>,
    next_index: usize,
    path: Vec<PathStep>,
}

/// What a `BuildScope` stands for.
pub struct ScopeView {
    /// The templates of the siblings.
    pub siblings: Seq<Template>,
    /// How many of them were handed out.
    pub next_index: nat,
    /// The path of the node whose children the siblings are.
    pub path: Seq<PathStep>,
}

impl<'a> View for BuildScope<'a> {
    type V = ScopeView;

    closed spec fn view(&self) -> ScopeView {
        ScopeView {
            siblings: self.siblings@,
            next_index: self.next_index as nat,
            path: self.path@,
        }
    }
}

/// The path of the child at `index` below a node with the path `parent`.
pub open spec fn child_path(parent: Seq<PathStep>, index: usize, template: Template) -> Seq<
    PathStep,
> {
    parent.push(PathStep { index, boundary: template.kind == NodeKind::SuspenseBoundary })
}

/// Copies `path`.
fn copy_path(path: &Vec<PathStep>) -> (copy: Vec<PathStep>)
    ensures
        copy@ == path@,
{
    let mut copy: Vec<PathStep> = Vec::new();
    let mut i: usize = 0;
    while i < path.len()
        invariant
            i <= path.len(),
            copy@ == path@.take(i as int),
        decreases path.len() - i,
    {
        copy.push(path[i]);
        i = i + 1;
    }
    copy
}

impl<'a> ChildrenThunk<'a> {
    /// Forces the thunk by one level: a scope at the first child, with no
    /// child built yet.
    pub fn force(&self) -> (scope: BuildScope<'a>)
        ensures
            scope@ == (ScopeView { siblings: self.source@, next_index: 0, path: self.path@ }),
    {
        BuildScope { siblings: self.source, next_index: 0, path: copy_path(&self.path) }
    }

    /// A scope at the end of the children: none of them will be built.
    pub fn skip(&self) -> (scope: BuildScope<'a>)
        ensures
            scope@ == (ScopeView {
                siblings: self.source@,
                next_index: self.source@.len(),
                path: self.path@,
            }),
    {
        BuildScope {
            siblings: self.source,
            next_index: self.source.len(),
            path: copy_path(&self.path),
        }
    }

    /// Whether the node has any child to build.
    pub fn is_empty(&self) -> (empty: bool)
        ensures
            empty == (self.source@.len() == 0),
    {
        self.source.len() == 0
    }
}

impl<'a> BuildScope<'a> {
    /// The scope has handed out no more nodes than it has.
    #[verifier::type_invariant]
    spec fn within(&self) -> bool {
        self.next_index <= self.siblings@.len()
    }

    /// Whether every node of the scope was handed out.
    pub fn at_end(&self) -> (end: bool)
        ensures
            end == (self@.next_index == self@.siblings.len()),
    {
        proof {
            use_type_invariant(self);
        }
        self.next_index >= self.siblings.len()
    }

    /// How many nodes of the scope were handed out.
    pub fn handed_out(&self) -> (count: usize)
        ensures
            count == self@.next_index,
            self@.next_index <= self@.siblings.len(),
    {
        proof {
            use_type_invariant(self);
        }
        self.next_index
    }

    /// The path of the node whose children the scope holds.
    pub fn path(&self) -> (path: &Vec<PathStep>)
        ensures
            path@ == self@.path,
    {
        &self.path
    }
}

/// The builder of the expected tree of one page.
#[derive(Debug)]
pub struct VirtualNodeBuilder<'a> {
    pub roots: &'a Vec<Template>,
}

impl<'a> VirtualNodeBuilder<'a> {
    /// A builder for the page whose top-level templates are `roots`.
    pub fn new(roots: &'a Vec<Template>) -> (builder: Self)
        ensures
            builder.roots@ == roots@,
    {
        VirtualNodeBuilder { roots }
    }

    /// The scope of the top-level nodes, none of them built yet.
    pub fn root_scope(&self) -> (scope: BuildScope<'a>)
        ensures
            scope@ == (ScopeView {
                siblings: self.roots@,
                next_index: 0,
                path: Seq::<PathStep>::empty(),
            }),
    {
        BuildScope { siblings: self.roots, next_index: 0, path: Vec::new() }
    }

    /// Builds and hands out the next sibling of `scope`, or says that the
    /// scope has ended. Only the node itself is built: its children stay a
    /// thunk. Where building the node fails, the scope moves past it all
    /// the same and the failure names the position.
    pub fn next(scope: &mut BuildScope<'a>) -> (result: Result<
        Option<RenderNode<'a>>,
        BuildFailure,
    >)
        ensures
            final(scope)@.siblings == old(scope)@.siblings,
            final(scope)@.path == old(scope)@.path,
            final(scope)@.next_index >= old(scope)@.next_index,
            final(scope)@.next_index <= final(scope)@.siblings.len(),
            match result {
                Ok(None) => {
                    &&& old(scope)@.next_index == old(scope)@.siblings.len()
                    &&& final(scope)@.next_index == old(scope)@.next_index
                },
                Ok(Some(node)) => {
                    let index = old(scope)@.next_index;
                    let template = old(scope)@.siblings[index as int];
                    let path = child_path(old(scope)@.path, index as usize, template);
                    &&& index < old(scope)@.siblings.len()
                    &&& final(scope)@.next_index == index + 1
                    &&& !template.raises
                    &&& node.kind == template.kind
                    &&& node.boundary_id == template.boundary_id
                    &&& node.stable_id@ == stable_id_of(path)
                    &&& node.children_thunk.source@ == template.children@
                    &&& node.children_thunk.path@ == path
                },
                Err(failure) => {
                    let index = old(scope)@.next_index;
                    let template = old(scope)@.siblings[index as int];
                    &&& index < old(scope)@.siblings.len()
                    &&& final(scope)@.next_index == index + 1
                    &&& template.raises
                    &&& failure.position@ == indices_of(
                        child_path(old(scope)@.path, index as usize, template),
                    )
                },
            },
    {
        proof {
            use_type_invariant(&*scope);
        }
        let index = scope.next_index;
        if index >= scope.siblings.len() {
            return Ok(None);
        }
        let template = &scope.siblings[index];
        let mut path = copy_path(&scope.path);
        path.push(PathStep { index, boundary: is_boundary(template.kind) });
        scope.next_index = index + 1;
        let id = stable_id(&path);
        if template.raises {
            Err(BuildFailure { position: id.indices })
        } else {
            Ok(
                Some(
                    RenderNode {
                        kind: template.kind,
                        stable_id: id,
                        boundary_id: template.boundary_id,
                        children_thunk: ChildrenThunk { source: &template.children, path },
                    },
                ),
            )
        }
    }
}

/// Whether `kind` is the kind of suspense boundaries.
pub fn is_boundary(kind: NodeKind) -> (boundary: bool)
    ensures
        boundary == (kind == NodeKind::SuspenseBoundary),
{
    match kind {
        NodeKind::SuspenseBoundary => true,
        _ => false,
    }
}

} // verus!
