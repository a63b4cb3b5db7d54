use hydration::cursor::Cursor;
use hydration::node::{DomNode, NodeKind};

fn three() -> Vec<DomNode> {
    vec![DomNode::element(vec![DomNode::text()]), DomNode::text(), DomNode::placeholder()]
}

#[test]
fn a_new_cursor_stands_at_the_first_node() {
    let nodes = three();
    let cursor = Cursor::new(&nodes);
    assert_eq!(cursor.position(), 0);
    assert_eq!(cursor.remaining(), 3);
    let live = cursor.peek().unwrap();
    assert_eq!(live.dom_kind(), NodeKind::Element);
    assert_eq!(live.position(), 0);
}

#[test]
fn peek_does_not_move_the_cursor() {
    let nodes = three();
    let cursor = Cursor::new(&nodes);
    cursor.peek();
    cursor.peek();
    assert_eq!(cursor.position(), 0);
}

#[test]
fn advance_moves_forward_by_the_count() {
    let nodes = three();
    let mut cursor = Cursor::new(&nodes);
    cursor.advance(1);
    assert_eq!(cursor.position(), 1);
    assert_eq!(cursor.peek().unwrap().dom_kind(), NodeKind::Text);
    cursor.advance(0);
    assert_eq!(cursor.position(), 1);
    cursor.advance(2);
    assert_eq!(cursor.position(), 3);
    assert!(cursor.peek().is_none());
    assert_eq!(cursor.remaining(), 0);
}

#[test]
fn advance_stops_at_the_end_of_the_scope() {
    let nodes = three();
    let mut cursor = Cursor::new(&nodes);
    cursor.advance(2);
    cursor.advance(usize::MAX);
    assert_eq!(cursor.position(), 3);
    cursor.advance(1);
    assert_eq!(cursor.position(), 3);
}

#[test]
fn a_cursor_never_moves_backward() {
    let nodes = three();
    let mut cursor = Cursor::new(&nodes);
    let mut last = cursor.position();
    for count in [0usize, 1, 0, 5, 1, 0] {
        cursor.advance(count);
        assert!(cursor.position() >= last);
        last = cursor.position();
    }
}

#[test]
fn children_of_a_live_node_start_a_scope_of_their_own() {
    let nodes = three();
    let cursor = Cursor::new(&nodes);
    let element = cursor.peek().unwrap();
    let inner = element.children();
    assert_eq!(inner.position(), 0);
    assert_eq!(inner.remaining(), 1);
    assert_eq!(inner.peek().unwrap().dom_kind(), NodeKind::Text);
    let mut outer = Cursor::new(&nodes);
    outer.advance(1);
    assert_eq!(outer.peek().unwrap().children().remaining(), 0);
}

#[test]
fn a_cursor_over_no_nodes_is_at_its_end() {
    let nodes: Vec<DomNode> = vec![];
    let mut cursor = Cursor::new(&nodes);
    assert!(cursor.peek().is_none());
    cursor.advance(3);
    assert_eq!(cursor.position(), 0);
}
