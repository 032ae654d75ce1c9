use trayless::MenuNode;

fn node(id: i32, visible: Option<bool>, enabled: Option<bool>, children: Vec<MenuNode>) -> MenuNode {
    MenuNode {
        id,
        label: Some(format!("item {id}")),
        enabled,
        visible,
        toggle_type: None,
        toggle_state: None,
        children,
    }
}

fn ids(n: &MenuNode) -> Vec<i32> {
    n.children.iter().map(|c| c.id).collect()
}

#[test]
fn hidden_children_go_and_the_rest_keep_their_order() {
    let mut root = node(0, None, None, vec![
        node(1, None, None, vec![]),
        node(2, Some(false), None, vec![]),
        node(3, None, None, vec![]),
        node(4, None, None, vec![]),
    ]);
    MenuNode::filter_nodes(&mut root, false, false);
    assert_eq!(ids(&root), vec![1, 3, 4]);
}

#[test]
fn disabled_children_go_unless_asked_for() {
    let make = || node(0, None, None, vec![
        node(1, None, Some(false), vec![]),
        node(2, Some(true), Some(true), vec![]),
        node(3, Some(false), None, vec![]),
    ]);
    let mut root = make();
    MenuNode::filter_nodes(&mut root, false, false);
    assert_eq!(ids(&root), vec![2]);

    let mut root = make();
    MenuNode::filter_nodes(&mut root, false, true);
    assert_eq!(ids(&root), vec![1, 2]);

    let mut root = make();
    MenuNode::filter_nodes(&mut root, true, false);
    assert_eq!(ids(&root), vec![2, 3]);

    let mut root = make();
    MenuNode::filter_nodes(&mut root, true, true);
    assert_eq!(ids(&root), vec![1, 2, 3]);
}

#[test]
fn hidden_entries_go_at_every_depth() {
    let great = vec![node(30, Some(false), None, vec![]), node(31, None, None, vec![])];
    let grand = vec![node(20, Some(false), None, vec![]), node(21, None, None, great)];
    let mut root = node(0, None, None, vec![node(10, None, None, grand)]);
    MenuNode::filter_nodes(&mut root, false, false);
    let child = &root.children[0];
    assert_eq!(ids(child), vec![21]);
    assert_eq!(ids(&child.children[0]), vec![31]);
}

#[test]
fn hidden_grandchild_goes_without_the_flag() {
    let x = MenuNode { id: 2, label: Some("X".to_string()), enabled: None, visible: Some(false), toggle_type: None, toggle_state: None, children: vec![] };
    let m = MenuNode { id: 1, label: Some("File".to_string()), enabled: None, visible: None, toggle_type: None, toggle_state: None, children: vec![x] };
    let mut root = MenuNode { id: 0, label: None, enabled: None, visible: None, toggle_type: None, toggle_state: None, children: vec![m] };
    MenuNode::filter_nodes(&mut root, false, false);
    assert_eq!(root.children.len(), 1);
    assert!(root.children[0].children.is_empty());
}

#[test]
fn filtering_twice_changes_nothing() {
    let mut root = node(0, None, None, vec![
        node(1, Some(false), None, vec![]),
        node(2, None, None, vec![node(5, None, None, vec![node(7, None, Some(false), vec![])])]),
        node(3, None, None, vec![]),
    ]);
    MenuNode::filter_nodes(&mut root, false, false);
    let once: Vec<i32> = ids(&root);
    MenuNode::filter_nodes(&mut root, false, false);
    assert_eq!(ids(&root), once);
    assert_eq!(once, vec![2, 3]);
    assert!(root.children[0].children[0].children.is_empty());
}

#[test]
fn a_hidden_first_child_leaves_its_siblings_in_order() {
    let mut root = node(0, None, None, vec![
        node(1, Some(false), None, vec![]),
        node(2, None, None, vec![]),
        node(3, None, None, vec![]),
    ]);
    MenuNode::filter_nodes(&mut root, false, false);
    assert_eq!(ids(&root), vec![2, 3]);
}

#[test]
fn keeping_everything_is_identity() {
    let mut root = node(0, None, None, vec![node(1, Some(false), Some(false), vec![]), node(2, None, None, vec![])]);
    MenuNode::filter_nodes(&mut root, true, true);
    assert_eq!(ids(&root), vec![1, 2]);
}

#[test]
fn repeated_ids_are_handled_by_position() {
    // a hidden child after a shown sibling with the same id still goes
    let mut root = node(0, None, None, vec![
        node(1, Some(true), None, vec![node(5, Some(false), None, vec![])]),
        node(1, Some(false), None, vec![]),
        node(1, None, None, vec![node(6, Some(false), None, vec![]), node(7, None, None, vec![])]),
    ]);
    MenuNode::filter_nodes(&mut root, false, false);
    assert_eq!(root.children.len(), 2);
    assert_eq!(root.children[0].visible, Some(true));
    assert!(root.children[0].children.is_empty());
    assert_eq!(root.children[1].visible, None);
    assert_eq!(ids(&root.children[1]), vec![7]);
}
