use hydration::boundary::{BoundaryTracker, Phase};
use hydration::hydrate::hydrate;
use hydration::identity::StableId;
use hydration::mismatch::{ActualKind, ExpectedKind, MismatchRecord};
use hydration::node::{DomNode, NodeKind, Template};
use hydration::machine::WalkerState;
use hydration::walker::{Pairing, Walker};

fn id(boundary_depth: usize, indices: Vec<usize>) -> StableId {
    StableId { boundary_depth, indices }
}

fn record(
    position: Vec<usize>,
    expected_kind: ExpectedKind,
    actual_kind: ActualKind,
    boundary_id: Option<u64>,
) -> MismatchRecord {
    MismatchRecord { position, expected_kind, actual_kind, boundary_id }
}

#[test]
fn a_new_walker_is_matching_in_the_root_scope() {
    let templates = vec![Template::text()];
    let live = vec![DomNode::text()];
    let walker = Walker::new(&templates, &live);
    assert_eq!(walker.state(), WalkerState::Matching);
    assert!(!walker.is_done());
    assert_eq!(walker.depth(), 1);
    assert_eq!(walker.built(0).unwrap(), 0);
    assert_eq!(walker.position(0).unwrap(), 0);
    assert_eq!(walker.boundary(), None);
    assert!(walker.pairings().is_empty());
    assert_eq!(walker.diagnostics().len(), 0);
}

#[test]
fn an_empty_page_is_done_after_one_step() {
    let templates: Vec<Template> = vec![];
    let live: Vec<DomNode> = vec![];
    let tracker = BoundaryTracker::new();
    let mut walker = Walker::new(&templates, &live);
    walker.step(&tracker);
    assert!(walker.is_done());
    assert_eq!(walker.depth(), 0);
    walker.step(&tracker);
    assert!(walker.is_done());
    assert!(walker.pairings().is_empty());
    assert_eq!(walker.diagnostics().len(), 0);
}

#[test]
fn equal_kinds_are_paired_and_the_child_scope_is_entered() {
    let templates = vec![Template::element(vec![Template::text()])];
    let live = vec![DomNode::element(vec![DomNode::text()])];
    let tracker = BoundaryTracker::new();
    let mut walker = Walker::new(&templates, &live);

    walker.step(&tracker);
    assert_eq!(walker.state(), WalkerState::Matching);
    assert_eq!(
        *walker.pairings(),
        vec![Pairing { stable_id: id(0, vec![0]), kind: NodeKind::Element, live_position: 0 }]
    );
    assert_eq!(walker.depth(), 2);
    assert_eq!(walker.built(0).unwrap(), 1);
    assert_eq!(walker.position(0).unwrap(), 1);
    assert_eq!(walker.position(1).unwrap(), 0);

    // The text has no children on either side: no scope is entered for it.
    walker.step(&tracker);
    assert_eq!(walker.pairings().len(), 2);
    assert_eq!(
        walker.pairings()[1],
        Pairing { stable_id: id(0, vec![0, 0]), kind: NodeKind::Text, live_position: 0 }
    );
    assert_eq!(walker.depth(), 2);

    walker.step(&tracker);
    assert_eq!(walker.depth(), 1);
    assert_eq!(walker.state(), WalkerState::Matching);

    walker.step(&tracker);
    assert!(walker.is_done());
    assert_eq!(walker.diagnostics().len(), 0);
}

#[test]
fn unequal_kinds_are_reported_and_the_live_node_is_skipped() {
    let templates = vec![Template::text(), Template::element(vec![])];
    let live = vec![DomNode::placeholder(), DomNode::element(vec![])];
    let tracker = BoundaryTracker::new();
    let mut walker = Walker::new(&templates, &live);

    walker.step(&tracker);
    assert_eq!(walker.state(), WalkerState::Skipping);
    assert_eq!(walker.skip(), 1);
    assert_eq!(
        *walker.diagnostics(),
        vec![record(
            vec![0],
            ExpectedKind::Node(NodeKind::Text),
            ActualKind::Node(NodeKind::Placeholder),
            None
        )]
    );
    assert!(walker.pairings().is_empty());
    assert_eq!(walker.built(0).unwrap(), 1);
    assert_eq!(walker.position(0).unwrap(), 0);

    walker.step(&tracker);
    assert_eq!(walker.state(), WalkerState::Matching);
    assert_eq!(walker.skip(), 0);
    assert_eq!(walker.position(0).unwrap(), 1);

    walker.run(&tracker);
    assert!(walker.is_done());
    assert_eq!(walker.diagnostics().len(), 1);
    assert_eq!(
        *walker.pairings(),
        vec![Pairing { stable_id: id(0, vec![1]), kind: NodeKind::Element, live_position: 1 }]
    );
}

#[test]
fn a_mismatched_node_is_replaced_whole_and_its_subtree_is_not_walked() {
    let templates = vec![
        Template::element(vec![Template::text(), Template::text()]),
        Template::text(),
    ];
    let live = vec![
        DomNode::node(NodeKind::Fragment, vec![DomNode::placeholder(), DomNode::placeholder()]),
        DomNode::text(),
    ];
    let report = hydrate(&templates, &live, &BoundaryTracker::new());
    assert_eq!(
        report.mismatches,
        vec![record(
            vec![0],
            ExpectedKind::Node(NodeKind::Element),
            ActualKind::Node(NodeKind::Fragment),
            None
        )]
    );
    assert_eq!(
        report.pairings,
        vec![Pairing { stable_id: id(0, vec![1]), kind: NodeKind::Text, live_position: 1 }]
    );
}

#[test]
fn an_expected_node_without_a_live_node_is_reported() {
    let templates = vec![Template::text(), Template::element(vec![])];
    let live = vec![DomNode::text()];
    let tracker = BoundaryTracker::new();
    let mut walker = Walker::new(&templates, &live);
    walker.step(&tracker);
    walker.step(&tracker);
    // Nothing is there to be skipped: the walker goes on matching.
    assert_eq!(walker.state(), WalkerState::Matching);
    assert_eq!(walker.skip(), 0);
    assert_eq!(
        *walker.diagnostics(),
        vec![record(
            vec![1],
            ExpectedKind::Node(NodeKind::Element),
            ActualKind::EndOfScope,
            None
        )]
    );
    walker.step(&tracker);
    assert!(walker.is_done());
}

#[test]
fn a_live_node_without_an_expected_node_is_reported() {
    let templates = vec![Template::element(vec![])];
    let live = vec![DomNode::element(vec![DomNode::text(), DomNode::placeholder()])];
    let report = hydrate(&templates, &live, &BoundaryTracker::new());
    assert_eq!(report.pairings.len(), 1);
    assert_eq!(
        report.mismatches,
        vec![
            record(
                vec![0, 0],
                ExpectedKind::EndOfScope,
                ActualKind::Node(NodeKind::Text),
                None
            ),
            record(
                vec![0, 1],
                ExpectedKind::EndOfScope,
                ActualKind::Node(NodeKind::Placeholder),
                None
            ),
        ]
    );
}

#[test]
fn a_build_failure_is_reported_with_the_expected_kind_error() {
    let templates = vec![Template::failing(), Template::text(), Template::failing()];
    let live = vec![DomNode::element(vec![DomNode::text()]), DomNode::text()];
    let report = hydrate(&templates, &live, &BoundaryTracker::new());
    assert_eq!(
        report.mismatches,
        vec![
            record(vec![0], ExpectedKind::Error, ActualKind::Node(NodeKind::Element), None),
            record(vec![2], ExpectedKind::Error, ActualKind::EndOfScope, None),
        ]
    );
    assert_eq!(
        report.pairings,
        vec![Pairing { stable_id: id(0, vec![1]), kind: NodeKind::Text, live_position: 1 }]
    );
}

#[test]
fn a_boundary_resolved_on_both_sides_has_its_subtree_walked() {
    let templates = vec![Template::suspense(1, vec![Template::element(vec![Template::text()])])];
    let live = vec![DomNode::resolved_boundary(
        1,
        1,
        vec![DomNode::element(vec![DomNode::text()])],
    )];
    let mut tracker = BoundaryTracker::new();
    tracker.register_boundary(1);
    assert_eq!(tracker.mark_resolved(1, 1), Ok(()));
    let mut walker = Walker::new(&templates, &live);
    walker.step(&tracker);
    assert_eq!(walker.state(), WalkerState::Matching);
    assert_eq!(walker.depth(), 2);
    assert_eq!(walker.boundary(), Some(1));
    assert_eq!(walker.built(1).unwrap(), 0);
    walker.run(&tracker);
    assert_eq!(walker.diagnostics().len(), 0);
    assert_eq!(
        *walker.pairings(),
        vec![
            Pairing {
                stable_id: id(1, vec![0]),
                kind: NodeKind::SuspenseBoundary,
                live_position: 0
            },
            Pairing { stable_id: id(1, vec![0, 0]), kind: NodeKind::Element, live_position: 0 },
            Pairing { stable_id: id(1, vec![0, 0, 0]), kind: NodeKind::Text, live_position: 0 },
        ]
    );
}

#[test]
fn a_boundary_pending_on_both_sides_has_its_placeholders_skipped_as_one_unit() {
    // What stands for the pending boundary need not look like the real
    // subtree; only the number of nodes counts.
    let templates = vec![Template::suspense(1, vec![Template::element(vec![Template::text()])])];
    let live = vec![DomNode::pending_boundary(
        1,
        vec![DomNode::placeholder(), DomNode::element(vec![DomNode::text()])],
    )];
    let mut tracker = BoundaryTracker::new();
    tracker.seed(1, Phase::Pending, 2);
    let mut walker = Walker::new(&templates, &live);

    walker.step(&tracker);
    assert_eq!(walker.state(), WalkerState::Skipping);
    assert_eq!(walker.skip(), 2);
    assert_eq!(walker.pairings().len(), 1);
    assert_eq!(walker.depth(), 2);
    assert_eq!(walker.position(0).unwrap(), 1);
    assert_eq!(walker.position(1).unwrap(), 0);
    // None of the real subtree will be built.
    assert_eq!(walker.built(1), Some(1));

    walker.step(&tracker);
    assert_eq!(walker.state(), WalkerState::Matching);
    assert_eq!(walker.position(1).unwrap(), 2);

    walker.step(&tracker);
    assert_eq!(walker.depth(), 1);
    walker.step(&tracker);
    assert!(walker.is_done());
    assert_eq!(walker.diagnostics().len(), 0);
    assert_eq!(walker.pairings().len(), 1);
}

#[test]
fn a_pending_boundary_without_placeholders_needs_no_skipping() {
    let templates = vec![Template::suspense(1, vec![Template::text()])];
    let live = vec![DomNode::pending_boundary(1, vec![])];
    let tracker = BoundaryTracker::new();
    let mut walker = Walker::new(&templates, &live);
    walker.step(&tracker);
    assert_eq!(walker.state(), WalkerState::Matching);
    assert_eq!(walker.skip(), 0);
    walker.run(&tracker);
    assert_eq!(walker.diagnostics().len(), 0);
    assert_eq!(walker.pairings().len(), 1);
}

#[test]
fn pending_boundaries_that_differ_in_their_placeholder_count_disagree() {
    let templates = vec![Template::suspense(1, vec![Template::text()])];
    let live = vec![DomNode::pending_boundary(1, vec![DomNode::placeholder()])];
    // Registered, never seeded: the client expects no placeholder at all.
    let mut tracker = BoundaryTracker::new();
    tracker.register_boundary(1);
    let report = hydrate(&templates, &live, &tracker);
    assert_eq!(
        report.mismatches,
        vec![record(
            vec![0],
            ExpectedKind::EndOfScope,
            ActualKind::Node(NodeKind::Placeholder),
            Some(1)
        )]
    );
    assert!(report.pairings.is_empty());
}

#[test]
fn a_boundary_that_the_client_believes_pending_but_the_server_resolved_is_reported_once() {
    let subtree = || {
        vec![
            Template::element(vec![Template::text()]),
            Template::text(),
            Template::element(vec![]),
        ]
    };
    let templates = vec![Template::suspense(1, subtree()), Template::text()];
    let live = vec![
        DomNode::resolved_boundary(
            1,
            1,
            vec![
                DomNode::element(vec![DomNode::text()]),
                DomNode::text(),
                DomNode::element(vec![]),
            ],
        ),
        DomNode::text(),
    ];
    let mut tracker = BoundaryTracker::new();
    tracker.seed(1, Phase::Pending, 1);
    let mut walker = Walker::new(&templates, &live);

    walker.step(&tracker);
    assert_eq!(
        *walker.diagnostics(),
        vec![record(
            vec![0],
            ExpectedKind::Node(NodeKind::Placeholder),
            ActualKind::Node(NodeKind::Element),
            Some(1)
        )]
    );
    assert_eq!(walker.state(), WalkerState::Skipping);
    let entry = walker.position(1).unwrap();
    assert_eq!(entry, 0);
    assert_eq!(walker.skip(), 3);

    walker.step(&tracker);
    // The entry position plus the number of live siblings that are there.
    assert_eq!(walker.position(1).unwrap(), entry + 3);
    assert_eq!(walker.state(), WalkerState::Matching);

    walker.run(&tracker);
    assert_eq!(walker.diagnostics().len(), 1);
    assert_eq!(
        *walker.pairings(),
        vec![Pairing { stable_id: id(0, vec![1]), kind: NodeKind::Text, live_position: 1 }]
    );
}

#[test]
fn a_boundary_where_a_plain_node_stands_is_an_ordinary_mismatch() {
    let templates = vec![Template::suspense(1, vec![Template::text()])];
    let live = vec![DomNode::element(vec![DomNode::text()])];
    let report = hydrate(&templates, &live, &BoundaryTracker::new());
    assert_eq!(
        report.mismatches,
        vec![record(
            vec![0],
            ExpectedKind::Node(NodeKind::SuspenseBoundary),
            ActualKind::Node(NodeKind::Element),
            None
        )]
    );
    let templates = vec![Template::element(vec![Template::text()])];
    let live = vec![DomNode::pending_boundary(1, vec![DomNode::placeholder()])];
    let report = hydrate(&templates, &live, &BoundaryTracker::new());
    assert_eq!(
        report.mismatches,
        vec![record(
            vec![0],
            ExpectedKind::Node(NodeKind::Element),
            ActualKind::Node(NodeKind::SuspenseBoundary),
            None
        )]
    );
    assert!(report.pairings.is_empty());
}

#[test]
fn a_mismatch_inside_a_resolved_boundary_names_the_boundary() {
    let templates = vec![Template::suspense(
        4,
        vec![Template::element(vec![Template::text(), Template::suspense(5, vec![])])],
    )];
    let live = vec![DomNode::resolved_boundary(
        4,
        0,
        vec![DomNode::element(vec![
            DomNode::placeholder(),
            DomNode::resolved_boundary(5, 0, vec![DomNode::text()]),
        ])],
    )];
    let mut tracker = BoundaryTracker::new();
    tracker.seed_from_markers(&live);
    let report = hydrate(&templates, &live, &tracker);
    assert_eq!(
        report.mismatches,
        vec![
            record(
                vec![0, 0, 0],
                ExpectedKind::Node(NodeKind::Text),
                ActualKind::Node(NodeKind::Placeholder),
                Some(4)
            ),
            record(
                vec![0, 0, 1, 0],
                ExpectedKind::EndOfScope,
                ActualKind::Node(NodeKind::Text),
                Some(5)
            ),
        ]
    );
    assert_eq!(report.pairings.len(), 3);
    assert_eq!(report.pairings[2].stable_id, id(2, vec![0, 0, 1]));
}

#[test]
fn what_a_resolved_client_expects_first_names_a_failing_child_as_error() {
    let templates = vec![
        Template::suspense(1, vec![Template::failing()]),
        Template::suspense(2, vec![]),
    ];
    let live = vec![
        DomNode::pending_boundary(1, vec![]),
        DomNode::pending_boundary(2, vec![DomNode::placeholder()]),
    ];
    let mut tracker = BoundaryTracker::new();
    tracker.seed(1, Phase::Resolved, 0);
    tracker.seed(2, Phase::Resolved, 1);
    let report = hydrate(&templates, &live, &tracker);
    assert_eq!(
        report.mismatches,
        vec![
            record(vec![0], ExpectedKind::Error, ActualKind::EndOfScope, Some(1)),
            record(
                vec![1],
                ExpectedKind::EndOfScope,
                ActualKind::Node(NodeKind::Placeholder),
                Some(2)
            ),
        ]
    );
}

#[test]
fn a_walker_that_is_done_stays_done() {
    let templates = vec![Template::text()];
    let live = vec![DomNode::element(vec![])];
    let tracker = BoundaryTracker::new();
    let mut walker = Walker::new(&templates, &live);
    walker.run(&tracker);
    assert!(walker.is_done());
    let pairings = walker.pairings().clone();
    let diagnostics = walker.diagnostics().clone();
    walker.step(&tracker);
    walker.run(&tracker);
    assert!(walker.is_done());
    assert_eq!(*walker.pairings(), pairings);
    assert_eq!(*walker.diagnostics(), diagnostics);
}

#[test]
fn the_getters_of_a_level_that_is_not_on_the_stack_give_nothing() {
    let templates = vec![Template::element(vec![Template::text()])];
    let live = vec![DomNode::element(vec![DomNode::text()])];
    let tracker = BoundaryTracker::new();
    let mut walker = Walker::new(&templates, &live);
    assert_eq!(walker.position(1), None);
    assert_eq!(walker.built(1), None);
    walker.step(&tracker);
    assert_eq!(walker.position(1), Some(0));
    assert_eq!(walker.built(1), Some(0));
    assert_eq!(walker.position(2), None);
    walker.run(&tracker);
    assert_eq!(walker.depth(), 0);
    assert_eq!(walker.position(0), None);
    assert_eq!(walker.boundary(), None);
    let report = walker.into_report();
    assert_eq!(report.pairings.len(), 2);
    assert!(report.mismatches.is_empty());
}
