use hydration::identity::{stable_id, PathStep, StableId};

fn step(index: usize, boundary: bool) -> PathStep {
    PathStep { index, boundary }
}

#[test]
fn stable_id_of_the_empty_path() {
    let id = stable_id(&vec![]);
    assert_eq!(id, StableId { boundary_depth: 0, indices: vec![] });
}

#[test]
fn stable_id_keeps_the_sibling_indices_in_order() {
    let id = stable_id(&vec![step(0, false), step(3, false), step(1, false)]);
    assert_eq!(id.indices, vec![0, 3, 1]);
    assert_eq!(id.boundary_depth, 0);
}

#[test]
fn stable_id_counts_the_boundaries_on_the_path() {
    let id = stable_id(&vec![step(0, true), step(2, false), step(5, true), step(0, false)]);
    assert_eq!(id, StableId { boundary_depth: 2, indices: vec![0, 2, 5, 0] });
}

#[test]
fn stable_id_is_the_same_when_computed_twice() {
    let path = vec![step(4, false), step(0, true), step(9, false)];
    let on_the_server = stable_id(&path);
    let on_the_client = stable_id(&path.clone());
    assert_eq!(on_the_server, on_the_client);
}

#[test]
fn stable_ids_of_different_positions_differ() {
    let left = stable_id(&vec![step(0, false), step(1, false)]);
    let right = stable_id(&vec![step(1, false), step(0, false)]);
    let deeper = stable_id(&vec![step(0, false), step(1, false), step(0, false)]);
    assert_ne!(left, right);
    assert_ne!(left, deeper);
}

#[test]
fn stable_id_tells_a_boundary_from_a_plain_node_at_the_same_indices() {
    let plain = stable_id(&vec![step(0, false)]);
    let boundary = stable_id(&vec![step(0, true)]);
    assert_eq!(plain.indices, boundary.indices);
    assert_ne!(plain, boundary);
}
