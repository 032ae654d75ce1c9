use vstd::prelude::*;

verus! {

/// One node of a `com.canonical.dbusmenu` layout.
pub struct MenuNode {
    pub id: i32,
    pub label: Option<String>,
    pub enabled: Option<bool>,
    pub visible: Option<bool>,
    pub toggle_type: Option<String>,
    pub toggle_state: Option<i32>,
    pub children: Vec<MenuNode>,
}

/// Mathematical model of a [`MenuNode`]: strings as character sequences,
/// children as a sequence of models.
pub struct NodeModel {
    pub id: i32,
    pub label: Option<Seq<char>>,
    pub enabled: Option<bool>,
    pub visible: Option<bool>,
    pub toggle_type: Option<Seq<char>>,
    pub toggle_state: Option<i32>,
    pub children: Seq<NodeModel>,
}

/// The character sequence of an optional string.
pub open spec fn opt_chars(s: Option<String>) -> Option<Seq<char>> {
    match s {
        Some(x) => Some(x@),
        None => None,
    }
}

/// The model of a menu node, computed recursively over its children.
pub open spec fn node_model(n: MenuNode) -> NodeModel
    decreases n,
{
    NodeModel {
        id: n.id,
        label: opt_chars(n.label),
        enabled: n.enabled,
        visible: n.visible,
        toggle_type: opt_chars(n.toggle_type),
        toggle_state: n.toggle_state,
        children: Seq::new(
            n.children@.len(),
            |i: int|
                if 0 <= i < n.children@.len() {
                    node_model(n.children@[i])
                } else {
                    vstd::pervasive::arbitrary()
                },
        ),
    }
}

impl View for MenuNode {
    type V = NodeModel;

    open spec fn view(&self) -> NodeModel {
        node_model(*self)
    }
}

impl MenuNode {
    /// Whether this node is the root of a layout (its id is 0).
    pub fn is_root(&self) -> (r: bool)
        ensures
            r == (self.id == 0),
    {
        self.id == 0
    }

    /// Whether this node carries nothing but its id: no label, no
    /// enabled flag, no toggle and no children.
    ///
    /// The `visible` property is not consulted.
    pub fn is_separator(&self) -> (r: bool)
        ensures
            r == (self.label is None && self.enabled is None && self.toggle_type is None
                && self.toggle_state is None && self.children@.len() == 0),
    {
        self.label.is_none() && self.enabled.is_none() && self.label.is_none()
            && self.toggle_type.is_none() && self.toggle_state.is_none()
            && self.children.is_empty()
    }
}

} // verus!
