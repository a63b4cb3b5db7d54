use hydration::builder::{BuildFailure, VirtualNodeBuilder};
use hydration::identity::StableId;
use hydration::node::{NodeKind, Template};

#[test]
fn next_hands_out_the_siblings_in_order_and_then_the_end() {
    let roots = vec![Template::element(vec![]), Template::text(), Template::fragment(vec![])];
    let builder = VirtualNodeBuilder::new(&roots);
    let mut scope = builder.root_scope();
    let first = VirtualNodeBuilder::next(&mut scope).unwrap().unwrap();
    assert_eq!(first.kind, NodeKind::Element);
    assert_eq!(first.stable_id, StableId { boundary_depth: 0, indices: vec![0] });
    let second = VirtualNodeBuilder::next(&mut scope).unwrap().unwrap();
    assert_eq!(second.kind, NodeKind::Text);
    assert_eq!(second.stable_id.indices, vec![1]);
    let third = VirtualNodeBuilder::next(&mut scope).unwrap().unwrap();
    assert_eq!(third.kind, NodeKind::Fragment);
    assert_eq!(third.stable_id.indices, vec![2]);
    assert!(VirtualNodeBuilder::next(&mut scope).unwrap().is_none());
    assert!(VirtualNodeBuilder::next(&mut scope).unwrap().is_none());
    assert_eq!(scope.handed_out(), 3);
}

#[test]
fn next_of_an_empty_scope_is_the_end() {
    let roots: Vec<Template> = vec![];
    let builder = VirtualNodeBuilder::new(&roots);
    let mut scope = builder.root_scope();
    assert!(scope.at_end());
    assert!(VirtualNodeBuilder::next(&mut scope).unwrap().is_none());
    assert_eq!(scope.handed_out(), 0);
}

#[test]
fn children_are_built_only_when_their_scope_is_asked() {
    let roots = vec![Template::element(vec![Template::text(), Template::failing()])];
    let builder = VirtualNodeBuilder::new(&roots);
    let mut scope = builder.root_scope();
    // The failing grandchild does not fail the building of its parent.
    let parent = VirtualNodeBuilder::next(&mut scope).unwrap().unwrap();
    assert!(!parent.children_thunk.is_empty());
    let mut children = parent.children_thunk.force();
    let text = VirtualNodeBuilder::next(&mut children).unwrap().unwrap();
    assert_eq!(text.kind, NodeKind::Text);
    assert_eq!(text.stable_id.indices, vec![0, 0]);
    assert!(text.children_thunk.is_empty());
    let failure = VirtualNodeBuilder::next(&mut children).unwrap_err();
    assert_eq!(failure, BuildFailure { position: vec![0, 1] });
    assert!(children.at_end());
}

#[test]
fn a_thunk_can_be_forced_again() {
    let roots = vec![Template::fragment(vec![Template::text(), Template::element(vec![])])];
    let builder = VirtualNodeBuilder::new(&roots);
    let mut scope = builder.root_scope();
    let parent = VirtualNodeBuilder::next(&mut scope).unwrap().unwrap();
    let mut once = parent.children_thunk.force();
    let mut twice = parent.children_thunk.force();
    let a = VirtualNodeBuilder::next(&mut once).unwrap().unwrap();
    let b = VirtualNodeBuilder::next(&mut twice).unwrap().unwrap();
    assert_eq!(a.kind, b.kind);
    assert_eq!(a.stable_id, b.stable_id);
    let skipped = parent.children_thunk.skip();
    assert!(skipped.at_end());
    assert_eq!(skipped.handed_out(), 2);
}

#[test]
fn stable_ids_count_the_boundaries_above_a_node() {
    let roots = vec![
        Template::text(),
        Template::suspense(9, vec![Template::element(vec![Template::suspense(10, vec![])])]),
    ];
    let builder = VirtualNodeBuilder::new(&roots);
    let mut scope = builder.root_scope();
    VirtualNodeBuilder::next(&mut scope).unwrap().unwrap();
    let outer = VirtualNodeBuilder::next(&mut scope).unwrap().unwrap();
    assert_eq!(outer.kind, NodeKind::SuspenseBoundary);
    assert_eq!(outer.boundary_id, 9);
    assert_eq!(outer.stable_id, StableId { boundary_depth: 1, indices: vec![1] });
    let mut inside = outer.children_thunk.force();
    let element = VirtualNodeBuilder::next(&mut inside).unwrap().unwrap();
    assert_eq!(element.stable_id, StableId { boundary_depth: 1, indices: vec![1, 0] });
    let mut deeper = element.children_thunk.force();
    let inner = VirtualNodeBuilder::next(&mut deeper).unwrap().unwrap();
    assert_eq!(inner.boundary_id, 10);
    assert_eq!(inner.stable_id, StableId { boundary_depth: 2, indices: vec![1, 0, 0] });
}

#[test]
fn the_scope_moves_past_a_node_that_fails_to_build() {
    let roots = vec![Template::failing(), Template::text()];
    let builder = VirtualNodeBuilder::new(&roots);
    let mut scope = builder.root_scope();
    assert_eq!(
        VirtualNodeBuilder::next(&mut scope).unwrap_err(),
        BuildFailure { position: vec![0] }
    );
    let after = VirtualNodeBuilder::next(&mut scope).unwrap().unwrap();
    assert_eq!(after.kind, NodeKind::Text);
    assert_eq!(after.stable_id.indices, vec![1]);
}
