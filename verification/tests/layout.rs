use trayless::{layout_panics, get_item_menu_layout, menu_layout_request, DbusValue, LayoutError, MenuNode};

fn s(x: &str) -> String {
    x.to_string()
}

fn str_v(x: &str) -> DbusValue {
    DbusValue::Str(s(x))
}

fn variant(v: DbusValue) -> DbusValue {
    DbusValue::Variant(Box::new(v))
}

/// A child structure `(id, {key: value}, children)`.
fn child(id: i32, props: Vec<(&str, DbusValue)>, children: Vec<DbusValue>) -> DbusValue {
    let entries = props.into_iter().map(|(k, v)| (str_v(k), variant(v))).collect();
    DbusValue::Structure(vec![DbusValue::I32(id), DbusValue::Dict(entries), DbusValue::Array(children)])
}

#[test]
fn new_reads_properties_and_strips_underscores() {
    let props = vec![
        (s("label"), str_v("_File")),
        (s("enabled"), DbusValue::Bool(true)),
        (s("visible"), variant(DbusValue::Bool(false))),
        (s("toggle-type"), str_v("checkmark")),
        (s("toggle-state"), DbusValue::I32(1)),
        (s("type"), str_v("standard")),
    ];
    let node = MenuNode::new(7, props, vec![]).unwrap();
    assert_eq!(node.id, 7);
    assert_eq!(node.label.as_deref(), Some("File"));
    assert_eq!(node.enabled, Some(true));
    assert_eq!(node.visible, Some(false));
    assert_eq!(node.toggle_type.as_deref(), Some("checkmark"));
    assert_eq!(node.toggle_state, Some(1));
    assert!(node.children.is_empty());
    assert!(!node.is_root());
    assert!(!node.is_separator());
}

#[test]
fn new_reads_nested_children() {
    let grandchild = child(3, vec![("label", str_v("Deep__er"))], vec![]);
    let c1 = child(1, vec![("label", str_v("One"))], vec![variant(grandchild)]);
    let c2 = child(2, vec![], vec![]);
    let node = MenuNode::new(0, vec![], vec![c1, c2]).unwrap();
    assert!(node.is_root());
    assert_eq!(node.children.len(), 2);
    assert_eq!(node.children[0].id, 1);
    assert_eq!(node.children[0].label.as_deref(), Some("One"));
    assert_eq!(node.children[0].children[0].label.as_deref(), Some("Deeper"));
    assert_eq!(node.children[1].id, 2);
    assert!(node.children[1].is_separator());
}

#[test]
fn top_level_children_keep_their_variant_layer() {
    // children handed over at the top are read as they are; only children
    // inside an array lose a variant layer
    let wrapped = variant(child(2, vec![], vec![]));
    assert!(matches!(MenuNode::new(0, vec![], vec![wrapped]), Err(LayoutError::IncorrectType)));
}

#[test]
fn new_rejects_wrong_property_types() {
    let r = MenuNode::new(1, vec![(s("label"), DbusValue::I32(3))], vec![]);
    assert!(matches!(r, Err(LayoutError::IncorrectType)));
    let r = MenuNode::new(1, vec![(s("enabled"), str_v("yes"))], vec![]);
    assert!(matches!(r, Err(LayoutError::IncorrectType)));
    let r = MenuNode::new(1, vec![(s("toggle-state"), DbusValue::Bool(true))], vec![]);
    assert!(matches!(r, Err(LayoutError::IncorrectType)));
    // properties that are not read may hold anything
    let r = MenuNode::new(1, vec![(s("icon-data"), DbusValue::Other)], vec![]);
    assert!(r.is_ok());
}

#[test]
fn new_rejects_children_of_the_wrong_shape() {
    let r = MenuNode::new(0, vec![], vec![DbusValue::I32(4)]);
    assert!(matches!(r, Err(LayoutError::IncorrectType)));
    let bad_id = DbusValue::Structure(vec![str_v("x"), DbusValue::Dict(vec![]), DbusValue::Array(vec![])]);
    assert!(matches!(MenuNode::new(0, vec![], vec![bad_id]), Err(LayoutError::IncorrectType)));
    let bad_key = DbusValue::Structure(vec![
        DbusValue::I32(1),
        DbusValue::Dict(vec![(DbusValue::I32(1), DbusValue::Bool(true))]),
        DbusValue::Array(vec![]),
    ]);
    assert!(matches!(MenuNode::new(0, vec![], vec![bad_key]), Err(LayoutError::IncorrectType)));
    // a wrongly typed property deep down fails the whole layout
    let deep = child(1, vec![], vec![child(2, vec![("visible", str_v("no"))], vec![])]);
    assert!(matches!(MenuNode::new(0, vec![], vec![deep]), Err(LayoutError::IncorrectType)));
}

#[test]
fn last_duplicate_key_wins() {
    let props = vec![(s("label"), str_v("first")), (s("label"), str_v("second"))];
    let node = MenuNode::new(1, props, vec![]).unwrap();
    assert_eq!(node.label.as_deref(), Some("second"));
}

#[test]
fn short_structures_are_told_apart() {
    let short = DbusValue::Structure(vec![DbusValue::I32(1)]);
    assert!(layout_panics(0, &vec![], &vec![short]));
    // a type error in an earlier child comes first
    let short = DbusValue::Structure(vec![DbusValue::I32(1)]);
    assert!(!layout_panics(0, &vec![], &vec![DbusValue::Bool(true), short]));
    assert!(!layout_panics(0, &vec![], &vec![child(1, vec![], vec![])]));
}

#[test]
fn layout_reply_is_read_from_its_root() {
    let reply = (0, vec![(s("children-display"), str_v("submenu"))], vec![child(5, vec![("label", str_v("Quit"))], vec![])]);
    let node = get_item_menu_layout(reply).unwrap();
    assert_eq!(node.id, 0);
    assert_eq!(node.children[0].label.as_deref(), Some("Quit"));
}

#[test]
fn layout_request_asks_for_everything() {
    let r = menu_layout_request();
    assert_eq!(r.parent_id, 0);
    assert_eq!(r.recursion_depth, -1);
    assert_eq!(r.property_names, vec!["type", "label", "toggle-type", "toggle-state", "enabled", "visible"]);
}

fn same(a: &MenuNode, b: &MenuNode) -> bool {
    a.id == b.id
        && a.label == b.label
        && a.enabled == b.enabled
        && a.visible == b.visible
        && a.toggle_type == b.toggle_type
        && a.toggle_state == b.toggle_state
        && a.children.len() == b.children.len()
        && a.children.iter().zip(b.children.iter()).all(|(x, y)| same(x, y))
}

#[test]
fn each_child_reads_as_the_node_of_its_own_triple() {
    let grand = || child(3, vec![("label", str_v("_Deep"))], vec![]);
    let c1 = child(1, vec![("label", str_v("One")), ("visible", DbusValue::Bool(false))], vec![variant(grand())]);
    let whole = MenuNode::new(0, vec![], vec![c1]).unwrap();
    let alone = MenuNode::new(1, vec![(s("label"), str_v("One")), (s("visible"), DbusValue::Bool(false))], vec![grand()]).unwrap();
    assert_eq!(whole.children.len(), 1);
    assert!(same(&whole.children[0], &alone));
    assert_eq!(alone.children[0].label.as_deref(), Some("Deep"));
}

#[test]
fn other_properties_are_ignored() {
    let base = || vec![(s("label"), str_v("_Quit")), (s("enabled"), DbusValue::Bool(false))];
    let plain = MenuNode::new(4, base(), vec![]).unwrap();
    let mut more = base();
    more.push((s("type"), str_v("standard")));
    more.push((s("icon-name"), DbusValue::I32(12)));
    let extra = MenuNode::new(4, more, vec![]).unwrap();
    assert!(same(&plain, &extra));
    assert_eq!(extra.label.as_deref(), Some("Quit"));
}
