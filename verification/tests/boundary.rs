use hydration::boundary::{BoundaryError, BoundaryState, BoundaryTracker, Phase};
use hydration::node::DomNode;

#[test]
fn register_creates_a_pending_boundary() {
    let mut tracker = BoundaryTracker::new();
    let state = tracker.register_boundary(3);
    assert_eq!(
        state,
        BoundaryState { id: 3, phase: Phase::Pending, placeholder_node_count: 0, resolved_at: None }
    );
    assert_eq!(tracker.lookup(3), Ok(state));
}

#[test]
fn register_is_idempotent_and_the_first_caller_wins() {
    let mut tracker = BoundaryTracker::new();
    tracker.register_boundary(3);
    assert_eq!(tracker.mark_resolved(3, 2), Ok(()));
    let again = tracker.register_boundary(3);
    assert_eq!(again.phase, Phase::Resolved);
    assert_eq!(again.placeholder_node_count, 2);
    assert_eq!(tracker.lookup(3), Ok(again));
}

#[test]
fn lookup_of_an_unknown_boundary_is_not_found() {
    let tracker = BoundaryTracker::new();
    assert_eq!(tracker.lookup(1), Err(BoundaryError::NotFound));
}

#[test]
fn mark_resolved_records_count_and_sequence_number() {
    let mut tracker = BoundaryTracker::new();
    tracker.register_boundary(10);
    tracker.register_boundary(20);
    assert_eq!(tracker.mark_resolved(20, 4), Ok(()));
    assert_eq!(tracker.mark_resolved(10, 1), Ok(()));
    assert_eq!(
        tracker.lookup(20),
        Ok(BoundaryState {
            id: 20,
            phase: Phase::Resolved,
            placeholder_node_count: 4,
            resolved_at: Some(0),
        })
    );
    assert_eq!(
        tracker.lookup(10),
        Ok(BoundaryState {
            id: 10,
            phase: Phase::Resolved,
            placeholder_node_count: 1,
            resolved_at: Some(1),
        })
    );
}

#[test]
fn mark_resolved_twice_is_an_invalid_transition() {
    let mut tracker = BoundaryTracker::new();
    tracker.register_boundary(5);
    assert_eq!(tracker.mark_resolved(5, 1), Ok(()));
    let first = tracker.lookup(5);
    assert_eq!(tracker.mark_resolved(5, 9), Err(BoundaryError::InvalidTransition));
    assert_eq!(tracker.lookup(5), first);
}

#[test]
fn mark_resolved_of_an_unknown_boundary_is_not_found() {
    let mut tracker = BoundaryTracker::new();
    assert_eq!(tracker.mark_resolved(5, 1), Err(BoundaryError::NotFound));
    assert_eq!(tracker.lookup(5), Err(BoundaryError::NotFound));
}

#[test]
fn a_failed_resolution_uses_up_no_sequence_number() {
    let mut tracker = BoundaryTracker::new();
    tracker.register_boundary(1);
    tracker.register_boundary(2);
    assert_eq!(tracker.mark_resolved(1, 0), Ok(()));
    assert_eq!(tracker.mark_resolved(1, 0), Err(BoundaryError::InvalidTransition));
    assert_eq!(tracker.mark_resolved(9, 0), Err(BoundaryError::NotFound));
    assert_eq!(tracker.mark_resolved(2, 0), Ok(()));
    assert_eq!(tracker.lookup(2).map(|state| state.resolved_at), Ok(Some(1)));
}

#[test]
fn expected_of_an_unknown_boundary_is_a_fresh_registration() {
    let tracker = BoundaryTracker::new();
    assert_eq!(
        tracker.expected(8),
        BoundaryState { id: 8, phase: Phase::Pending, placeholder_node_count: 0, resolved_at: None }
    );
    assert_eq!(tracker.lookup(8), Err(BoundaryError::NotFound));
}

#[test]
fn seed_files_what_the_server_emitted() {
    let mut tracker = BoundaryTracker::new();
    let pending = tracker.seed(1, Phase::Pending, 3);
    assert_eq!(
        pending,
        BoundaryState { id: 1, phase: Phase::Pending, placeholder_node_count: 3, resolved_at: None }
    );
    let resolved = tracker.seed(2, Phase::Resolved, 1);
    assert_eq!(
        resolved,
        BoundaryState {
            id: 2,
            phase: Phase::Resolved,
            placeholder_node_count: 1,
            resolved_at: Some(0),
        }
    );
    assert_eq!(tracker.expected(1), pending);
    assert_eq!(tracker.expected(2), resolved);
}

#[test]
fn seed_leaves_a_known_boundary_as_it_is() {
    let mut tracker = BoundaryTracker::new();
    tracker.register_boundary(1);
    assert_eq!(tracker.mark_resolved(1, 2), Ok(()));
    let kept = tracker.seed(1, Phase::Pending, 7);
    assert_eq!(kept.phase, Phase::Resolved);
    assert_eq!(kept.placeholder_node_count, 2);
}

#[test]
fn a_seeded_pending_boundary_can_still_resolve() {
    let mut tracker = BoundaryTracker::new();
    tracker.seed(1, Phase::Pending, 1);
    assert_eq!(tracker.mark_resolved(1, 1), Ok(()));
    assert_eq!(tracker.mark_resolved(1, 1), Err(BoundaryError::InvalidTransition));
}

#[test]
fn seed_from_markers_walks_the_document_in_order() {
    let live = vec![
        DomNode::element(vec![DomNode::resolved_boundary(
            4,
            1,
            vec![DomNode::element(vec![DomNode::pending_boundary(
                5,
                vec![DomNode::placeholder(), DomNode::placeholder()],
            )])],
        )]),
        DomNode::resolved_boundary(6, 0, vec![]),
        DomNode::pending_boundary(4, vec![]),
    ];
    let mut tracker = BoundaryTracker::new();
    tracker.seed_from_markers(&live);
    assert_eq!(
        tracker.lookup(4),
        Ok(BoundaryState {
            id: 4,
            phase: Phase::Resolved,
            placeholder_node_count: 1,
            resolved_at: Some(0),
        })
    );
    assert_eq!(
        tracker.lookup(5),
        Ok(BoundaryState {
            id: 5,
            phase: Phase::Pending,
            placeholder_node_count: 2,
            resolved_at: None,
        })
    );
    assert_eq!(tracker.lookup(6).map(|state| state.resolved_at), Ok(Some(1)));
    assert_eq!(tracker.lookup(0), Err(BoundaryError::NotFound));
}

#[test]
fn seed_from_markers_does_not_look_into_the_placeholders_of_a_pending_boundary() {
    let live = vec![DomNode::pending_boundary(
        1,
        vec![DomNode::element(vec![DomNode::resolved_boundary(2, 0, vec![])])],
    )];
    let mut tracker = BoundaryTracker::new();
    tracker.seed_from_markers(&live);
    assert_eq!(tracker.lookup(1).map(|state| state.placeholder_node_count), Ok(1));
    assert_eq!(tracker.lookup(2), Err(BoundaryError::NotFound));
}

#[test]
fn resolutions_are_numbered_in_the_order_in_which_they_happen() {
    let mut tracker = BoundaryTracker::new();
    for id in [30u64, 10, 20] {
        tracker.register_boundary(id);
    }
    for id in [20u64, 30, 10] {
        assert_eq!(tracker.mark_resolved(id, 0), Ok(()));
    }
    let at = |id: u64| tracker.lookup(id).unwrap().resolved_at;
    assert_eq!(at(20), Some(0));
    assert_eq!(at(30), Some(1));
    assert_eq!(at(10), Some(2));
}
