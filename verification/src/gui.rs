//! The decisions of the graphical front end: which icon to show for an
//! item, which title, what a key or a click does, and which entries of a
//! menu become buttons.
use vstd::prelude::*;

use crate::filter::{filtered, kept_positions, law_filter_keeps_the_kept_children_in_order, law_filter_removes_exactly_hidden_and_disabled};
use crate::menu_node::{MenuNode, NodeModel};
use crate::text::push_char;
use crate::tray_item::TrayItem;

verus! {

/// Where an item's icon comes from.
pub enum IconSource {
    /// An image file: this base path with one of the image extensions.
    File(String),
    /// An icon of the current icon theme, by name.
    Themed(String),
    /// Raw ARGB32 pixels: width, height, pixels, bytes per row.
    Pixmap(i32, i32, Vec<u8>, usize),
    /// The item has no icon.
    NoIcon,
}

/// The icon name, where it is set and not empty.
pub open spec fn named_icon(item: TrayItem) -> Option<Seq<char>> {
    match item.icon_name {
        Some(n) => if n@.len() > 0 {
            Some(n@)
        } else {
            None
        },
        None => None,
    }
}

/// The icon theme path, where it is set and not empty.
pub open spec fn theme_path(item: TrayItem) -> Option<Seq<char>> {
    match item.icon_theme_path {
        Some(t) => if t@.len() > 0 {
            Some(t@)
        } else {
            None
        },
        None => None,
    }
}

/// The one input on which choosing an icon has no answer: no icon name,
/// and pixmaps of which there is none, or the last has no pixels, or the
/// last's width times 4 does not fit an `i32`.
pub open spec fn icon_choice_fails(item: TrayItem) -> bool {
    &&& named_icon(item) is None
    &&& item.icon_pixmap matches Some(ps) && (ps@.len() == 0 || ps@.last().2@.len() == 0
        || !(i32::MIN <= ps@.last().0 * 4 <= i32::MAX))
}

/// The icon an item shows: a non-empty icon name is looked up in the
/// non-empty theme path as a file, else in the icon theme; without a name
/// the last pixmap is drawn; else there is no icon.
pub open spec fn icon_source_matches(r: IconSource, item: TrayItem) -> bool {
    match named_icon(item) {
        Some(name) => match theme_path(item) {
            Some(theme) => r matches IconSource::File(b) && b@ == theme + "/"@ + name,
            None => r matches IconSource::Themed(n) && n@ == name,
        },
        None => match item.icon_pixmap {
            Some(ps) => r matches IconSource::Pixmap(w, h, px, stride) && w == ps@.last().0 && h
                == ps@.last().1 && px@ == ps@.last().2@ && stride == (ps@.last().0 * 4) as usize,
            None => r is NoIcon,
        },
    }
}

fn nonempty(s: &Option<String>) -> (r: Option<&String>)
    ensures
        match s {
            Some(x) => if x@.len() > 0 {
                r matches Some(y) && *y == x
            } else {
                r is None
            },
            None => r is None,
        },
{
    match s {
        Some(x) => if x.as_str().unicode_len() > 0 {
            Some(x)
        } else {
            None
        },
        None => None,
    }
}

fn copy_bytes(v: &Vec<u8>) -> (r: Vec<u8>)
    ensures
        r@ == v@,
{
    let mut out: Vec<u8> = Vec::new();
    let mut i: usize = 0;
    while i < v.len()
        invariant
            i <= v@.len(),
            out@ == v@.take(i as int),
        decreases v@.len() - i,
    {
        out.push(v[i]);
        assert(v@.take(i + 1) =~= v@.take(i as int).push(v@[i as int]));
        i = i + 1;
    }
    assert(v@.take(i as int) =~= v@);
    out
}

/// Whether [`icon_source`] has no answer for this item.
pub fn icon_choice_fails_exec(item: &TrayItem) -> (r: bool)
    ensures
        r == icon_choice_fails(*item),
{
    if nonempty(&item.icon_name).is_some() {
        return false;
    }
    match &item.icon_pixmap {
        None => false,
        Some(ps) => {
            if ps.len() == 0 {
                return true;
            }
            let last = &ps[ps.len() - 1];
            last.2.len() == 0 || last.0 < -536870912 || last.0 > 536870911
        },
    }
}

/// Chooses the icon of an item (see [`icon_source_matches`]).
pub fn icon_source(item: &TrayItem) -> (r: IconSource)
    requires
        !icon_choice_fails(*item),
    ensures
        icon_source_matches(r, *item),
{
    if let Some(name) = nonempty(&item.icon_name) {
        if let Some(theme) = nonempty(&item.icon_theme_path) {
            let mut base = String::from_str(theme.as_str());
            push_char(&mut base, '/');
            base.append(name.as_str());
            proof {
                reveal_strlit("/");
                assert(theme@ + "/"@ + name@ =~= theme@.push('/') + name@);
            }
            return IconSource::File(base);
        }
        return IconSource::Themed(String::from_str(name.as_str()));
    }
    match &item.icon_pixmap {
        Some(ps) => {
            let last = &ps[ps.len() - 1];
            let width = last.0;
            let stride = (width * 4) as usize;
            IconSource::Pixmap(width, last.1, copy_bytes(&last.2), stride)
        },
        None => IconSource::NoIcon,
    }
}

/// The extensions tried for an icon file, in order.
pub open spec fn image_extensions() -> Seq<Seq<char>> {
    seq![".svg"@, ".png"@, ".jpg"@, ".jpeg"@, ".gif"@, ".tiff"@]
}

/// The files tried for an icon: the base path with each image extension,
/// in order.
pub fn image_candidates(base: &str) -> (r: Vec<String>)
    ensures
        r@.len() == image_extensions().len(),
        forall|i: int| 0 <= i < r@.len() ==> #[trigger] r@[i]@ == base@ + image_extensions()[i],
{
    let exts = vec![".svg", ".png", ".jpg", ".jpeg", ".gif", ".tiff"];
    let mut out: Vec<String> = Vec::new();
    let mut i: usize = 0;
    while i < exts.len()
        invariant
            exts@.len() == 6,
            forall|k: int| 0 <= k < 6 ==> #[trigger] exts@[k]@ == image_extensions()[k],
            i <= 6,
            out@.len() == i,
            forall|k: int| 0 <= k < i ==> #[trigger] out@[k]@ == base@ + image_extensions()[k],
        decreases 6 - i,
    {
        let mut path = String::from_str(base);
        path.append(exts[i]);
        out.push(path);
        i = i + 1;
    }
    out
}

/// The first candidate that exists (`exists[i]` says whether candidate `i`
/// does).
pub fn first_existing(candidates: &Vec<String>, exists: &Vec<bool>) -> (r: Option<String>)
    requires
        candidates@.len() == exists@.len(),
    ensures
        match r {
            Some(p) => exists|i: int| 0 <= i < exists@.len() && exists@[i] && p@ == candidates@[i]@
                && forall|j: int| 0 <= j < i ==> !#[trigger] exists@[j],
            None => forall|j: int| 0 <= j < exists@.len() ==> !#[trigger] exists@[j],
        },
{
    let mut i: usize = 0;
    while i < exists.len()
        invariant
            candidates@.len() == exists@.len(),
            i <= exists@.len(),
            forall|j: int| 0 <= j < i ==> !#[trigger] exists@[j],
        decreases exists@.len() - i,
    {
        if exists[i] {
            return Some(candidates[i].clone());
        }
        i = i + 1;
    }
    None
}

/// The title shown for an item: its title if set and not empty, else its
/// tooltip title if set and not empty, else its id.
pub open spec fn title_of(item: TrayItem, tooltip_title: Option<String>) -> Seq<char> {
    match item.title {
        Some(t) if t@.len() > 0 => t@,
        _ => match tooltip_title {
            Some(t) if t@.len() > 0 => t@,
            _ => item.id@,
        },
    }
}

/// The title shown for an item (see [`title_of`]).
pub fn item_title(item: &TrayItem, tooltip_title: &Option<String>) -> (r: String)
    ensures
        r@ == title_of(*item, *tooltip_title),
{
    if let Some(t) = nonempty(&item.title) {
        return t.clone();
    }
    if let Some(t) = nonempty(tooltip_title) {
        return t.clone();
    }
    item.id.clone()
}

/// What the user asks of an item.
#[derive(Debug, Clone, Copy, PartialEq, Eq, Structural)]
pub enum ItemAction {
    /// Open the item's menu.
    ShowMenu,
    /// Activate the item.
    Activate,
}

/// A pointer button.
#[derive(Debug, Clone, Copy, PartialEq, Eq, Structural)]
pub enum PointerButton {
    Primary,
    Secondary,
    Other,
}

/// A key on an item: Enter opens the menu, Shift+Enter activates, any other
/// key does nothing.
pub fn key_action(is_enter: bool, shift: bool) -> (r: Option<ItemAction>)
    ensures
        r == (if !is_enter {
            None
        } else if shift {
            Some(ItemAction::Activate)
        } else {
            Some(ItemAction::ShowMenu)
        }),
{
    if !is_enter {
        None
    } else if shift {
        Some(ItemAction::Activate)
    } else {
        Some(ItemAction::ShowMenu)
    }
}

/// A click on an item: the primary button opens the menu, the secondary
/// activates, any other does nothing.
pub fn click_action(button: PointerButton) -> (r: Option<ItemAction>)
    ensures
        r == match button {
            PointerButton::Primary => Some(ItemAction::ShowMenu),
            PointerButton::Secondary => Some(ItemAction::Activate),
            PointerButton::Other => None,
        },
{
    match button {
        PointerButton::Primary => Some(ItemAction::ShowMenu),
        PointerButton::Secondary => Some(ItemAction::Activate),
        PointerButton::Other => None,
    }
}

/// One entry of a menu window.
pub enum MenuEntry {
    /// A labelled entry: its id, its label, and whether it can be clicked.
    Button(i32, String, bool),
    /// An entry without a label.
    Separator,
    /// A labelled entry with a submenu, which is not shown.
    Nested,
}

/// The entry a menu node becomes.
pub open spec fn entry_matches(e: MenuEntry, n: NodeModel) -> bool {
    match n.label {
        Some(l) => if n.children.len() > 0 {
            e is Nested
        } else {
            e matches MenuEntry::Button(id, label, clickable) && id == n.id && label@ == l
                && clickable == match n.enabled {
                Some(b) => b,
                None => true,
            }
        },
        None => e is Separator,
    }
}

/// The nodes a menu window shows: the menu's children with hidden ones
/// taken out at every depth (disabled ones stay), in order.
pub open spec fn shown_nodes(menu: NodeModel) -> Seq<NodeModel> {
    filtered(menu, false, true).children
}

/// The entries of a menu window: the menu's children with hidden ones
/// taken out (disabled ones stay, not clickable), in order.
pub fn menu_entries(menu: MenuNode) -> (r: Vec<MenuEntry>)
    ensures
        r@.len() == shown_nodes(menu@).len(),
        forall|i: int| 0 <= i < r@.len() ==> entry_matches(#[trigger] r@[i], shown_nodes(menu@)[i]),
{
    let mut menu = menu;
    MenuNode::filter_nodes(&mut menu, false, true);
    let ghost kids = menu@.children;
    let mut out: Vec<MenuEntry> = Vec::new();
    let mut i: usize = 0;
    while i < menu.children.len()
        invariant
            i <= menu.children@.len(),
            kids == menu@.children,
            kids.len() == menu.children@.len(),
            out@.len() == i,
            forall|k: int| 0 <= k < i ==> entry_matches(#[trigger] out@[k], kids[k]),
        decreases menu.children@.len() - i,
    {
        let node = &menu.children[i];
        assert(kids[i as int] == crate::menu_node::node_model(*node));
        let entry = match &node.label {
            Some(label) => if node.children.len() > 0 {
                MenuEntry::Nested
            } else {
                let clickable = match node.enabled {
                    Some(b) => b,
                    None => true,
                };
                MenuEntry::Button(node.id, label.clone(), clickable)
            },
            None => MenuEntry::Separator,
        };
        out.push(entry);
        i = i + 1;
    }
    out
}


/// The shown title is the item's title whenever that is set and not empty,
/// whatever the tooltip; else the tooltip title when that is set and not
/// empty; else the id.
pub proof fn law_title_choice(item: TrayItem, tooltip_title: Option<String>)
    ensures
        item.title is Some && item.title.unwrap()@.len() > 0
            ==> title_of(item, tooltip_title) == item.title.unwrap()@,
        !(item.title is Some && item.title.unwrap()@.len() > 0)
            && tooltip_title is Some && tooltip_title.unwrap()@.len() > 0
            ==> title_of(item, tooltip_title) == tooltip_title.unwrap()@,
        !(item.title is Some && item.title.unwrap()@.len() > 0)
            && !(tooltip_title is Some && tooltip_title.unwrap()@.len() > 0)
            ==> title_of(item, tooltip_title) == item.id@,
{
}

/// What a menu node becomes in a window: a node without a label is a
/// separator; a labelled node with children is a submenu (not shown); any
/// other labelled node, whatever its toggle type and state, is a button
/// with its id and label, clickable unless it is disabled.
pub proof fn law_entry_kinds(e: MenuEntry, n: NodeModel)
    requires
        entry_matches(e, n),
    ensures
        n.label is None ==> e is Separator,
        n.label is Some && n.children.len() > 0 ==> e is Nested,
        n.label is Some && n.children.len() == 0 ==> (e matches MenuEntry::Button(id, label, clickable)
            && id == n.id && label@ == n.label.unwrap() && clickable == (n.enabled != Some(false))),
{
}


/// A menu window shows every child of the menu that is not hidden, and
/// only those, disabled ones included; no shown entry is hidden.
pub proof fn law_menu_window_shows_the_visible_entries(menu: NodeModel)
    ensures
        shown_nodes(menu).len() == kept_positions(menu.children, false, true).len(),
        forall|t: int| 0 <= t < menu.children.len() ==> (#[trigger] kept_positions(menu.children, false, true).contains(t)
            <==> menu.children[t].visible != Some(false)),
        forall|j: int| 0 <= j < shown_nodes(menu).len() ==> (#[trigger] shown_nodes(menu)[j]).visible != Some(false),
{
    law_filter_removes_exactly_hidden_and_disabled(menu, false, true);
    law_filter_keeps_the_kept_children_in_order(menu, false, true);
}

} // verus!
