//! Cursors over the live document: one per sibling scope, moved forward
//! only.

use crate::node::{DomNode, NodeKind};
use vstd::prelude::*;

verus! {

/// A handle to a node of the rendered document: the node, and its place
/// among its siblings. The document is only read through it.
#[derive(Clone, Copy, Debug)]
pub struct LiveNode<'a> {
    pub node: &'a DomNode,
    pub position: usize,
}

impl<'a> LiveNode<'a> {
    /// What the browser reports the node to be.
    pub fn dom_kind(&self) -> (kind: NodeKind)
        ensures
            kind == self.node.dom_kind,
    {
        self.node.dom_kind
    }

    /// The node's place among its siblings, in document order.
    pub fn position(&self) -> (position: usize)
        ensures
            position == self.position,
    {
        self.position
    }

    /// A cursor at the first child of the node.
    pub fn children(&self) -> (cursor: Cursor<'a>)
        ensures
            cursor@ == (CursorView { nodes: self.node.children@, position: 0 }),
    {
        Cursor { nodes: &self.node.children, position: 0 }
    }
}

/// A pointer into the live nodes of one sibling scope. It lies within the
/// scope, or at its end.
#[derive(Debug)]
pub struct Cursor<'a> {
    nodes: &'a Vec<DomNode>,
    position: usize,
}

/// What a `Cursor` stands for: the live siblings, and how many of them lie
/// before the cursor.
pub struct CursorView {
    pub nodes: Seq<DomNode>,
    pub position: nat,
}

impl<'a> View for Cursor<'a> {
    type V = CursorView;

    closed spec fn view(&self) -> CursorView {
        CursorView { nodes: self.nodes@, position: self.position as nat }
    }
}

/// The position that a cursor at `position` among `len` nodes reaches when
/// it is moved forward by `count`: it stops at the end of the scope.
pub open spec fn advanced(position: nat, count: nat, len: nat) -> nat {
    if position + count <= len {
        position + count
    } else {
        len
    }
}

impl<'a> Cursor<'a> {
    /// The cursor lies within its scope, or at its end.
    #[verifier::type_invariant]
    spec fn within(&self) -> bool {
        self.position <= self.nodes@.len()
    }

    /// A cursor at the first of `nodes`.
    pub fn new(nodes: &'a Vec<DomNode>) -> (cursor: Cursor<'a>)
        ensures
            cursor@ == (CursorView { nodes: nodes@, position: 0 }),
    {
        Cursor { nodes, position: 0 }
    }

    /// How many live nodes of the scope lie before the cursor.
    pub fn position(&self) -> (position: usize)
        ensures
            position == self@.position,
            self@.position <= self@.nodes.len(),
    {
        proof {
            use_type_invariant(self);
        }
        self.position
    }

    /// How many live nodes of the scope lie at or after the cursor.
    pub fn remaining(&self) -> (count: usize)
        ensures
            count == self@.nodes.len() - self@.position,
    {
        proof {
            use_type_invariant(self);
        }
        self.nodes.len() - self.position
    }

    /// The live node at the cursor, or `None` at the end of the scope. The
    /// cursor stays where it is.
    pub fn peek(&self) -> (live: Option<LiveNode<'a>>)
        ensures
            match live {
                Some(found) => {
                    &&& self@.position < self@.nodes.len()
                    &&& *found.node == self@.nodes[self@.position as int]
                    &&& found.position == self@.position
                },
                None => self@.position == self@.nodes.len(),
            },
    {
        proof {
            use_type_invariant(self);
        }
        if self.position < self.nodes.len() {
            Some(LiveNode { node: &self.nodes[self.position], position: self.position })
        } else {
            None
        }
    }

    /// Moves the cursor forward by `count` nodes, and no further than the
    /// end of the scope. A cursor never moves backward.
    pub fn advance(&mut self, count: usize)
        ensures
            final(self)@.nodes == old(self)@.nodes,
            final(self)@.position == advanced(
                old(self)@.position,
                count as nat,
                old(self)@.nodes.len(),
            ),
            final(self)@.position >= old(self)@.position,
            final(self)@.position <= final(self)@.nodes.len(),
    {
        proof {
            use_type_invariant(&*self);
        }
        let left = self.nodes.len() - self.position;
        if count <= left {
            self.position = self.position + count;
        } else {
            self.position = self.nodes.len();
        }
    }
}

} // verus!
