//! Mismatch reporting: what the walk found to disagree, kept in the order
//! in which it was found.

use crate::node::NodeKind;
use vstd::prelude::*;

verus! {

/// What the client expected at a position.
#[derive(Clone, Copy, Debug, PartialEq, Eq, Structural)]
pub enum ExpectedKind {
    /// A node of this kind.
    Node(NodeKind),
    /// A node whose building failed.
    Error,
    /// No node: the expected scope had ended.
    EndOfScope,
}

/// What the document held at a position.
#[derive(Clone, Copy, Debug, PartialEq, Eq, Structural)]
pub enum ActualKind {
    /// A node of this kind.
    Node(NodeKind),
    /// No node: the live scope had ended.
    EndOfScope,
}

/// One disagreement between the expected tree and the document.
#[derive(Clone, Debug, PartialEq, Eq)]
pub struct MismatchRecord {
    /// The sibling indices from the root to the position.
    pub position: Vec<usize>,
    pub expected_kind: ExpectedKind,
    pub actual_kind: ActualKind,
    /// The innermost boundary around the position, if there is one.
    pub boundary_id: Option<u64>,
}

/// What a `MismatchRecord` stands for.
pub struct MismatchView {
    pub position: Seq<usize>,
    pub expected_kind: ExpectedKind,
    pub actual_kind: ActualKind,
    pub boundary_id: Option<u64>,
}

impl View for MismatchRecord {
    type V = MismatchView;

    open spec fn view(&self) -> MismatchView {
        MismatchView {
            position: self.position@,
            expected_kind: self.expected_kind,
            actual_kind: self.actual_kind,
            boundary_id: self.boundary_id,
        }
    }
}

/// What each of `records` stands for, in the same order.
pub open spec fn record_views(records: Seq<MismatchRecord>) -> Seq<MismatchView> {
    Seq::new(records.len(), |i: int| records[i]@)
}

/// The diagnostics of one hydration: every mismatch that was reported, in
/// the order of the reports. Nothing is ever taken out of it.
#[derive(Debug)]
pub struct MismatchReporter {
    pub diagnostics: Vec<MismatchRecord>,
}

impl View for MismatchReporter {
    type V = Seq<MismatchView>;

    open spec fn view(&self) -> Seq<MismatchView> {
        record_views(self.diagnostics@)
    }
}

impl MismatchReporter {
    /// A reporter that has been told of nothing.
    pub fn new() -> (reporter: Self)
        ensures
            reporter@ == Seq::<MismatchView>::empty(),
    {
        MismatchReporter { diagnostics: Vec::new() }
    }

    /// Files `record` after all earlier ones. This always succeeds, and
    /// hydration goes on.
    pub fn report(&mut self, record: MismatchRecord)
        ensures
            final(self)@ == old(self)@.push(record@),
    {
        self.diagnostics.push(record);
    }

    /// How many mismatches were reported.
    pub fn count(&self) -> (count: usize)
        ensures
            count == self@.len(),
    {
        self.diagnostics.len()
    }
}

} // verus!
