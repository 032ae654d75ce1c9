//! What each command of the command line asks of the bus: the object to
//! talk to and the call to make. Making the call is left to the caller.
use vstd::prelude::*;

use crate::cli::{ClickData, CmdActivate, CmdClick, CmdLayout, CmdScroll};
use crate::names::{path_target, path_target_matches, PathError, ProxyKind, ProxyTarget};

verus! {

/// Which activation a tray item is asked for.
#[derive(Debug, Clone, Copy, PartialEq, Eq, Structural)]
pub enum ActivateMethod {
    /// `SecondaryActivate`.
    Secondary,
    /// `ContextMenu`.
    ContextMenu,
    /// `Activate`.
    Activate,
}

/// An activation call.
pub struct ActivateRequest {
    pub target: ProxyTarget,
    pub method: ActivateMethod,
    pub x: i32,
    pub y: i32,
}

/// The activation that the flags ask for: secondary wins over the
/// context menu, and plain activation is the default.
pub open spec fn activate_method(secondary: bool, context_menu: bool) -> ActivateMethod {
    if secondary {
        ActivateMethod::Secondary
    } else if context_menu {
        ActivateMethod::ContextMenu
    } else {
        ActivateMethod::Activate
    }
}

/// The call of `activate`: on the item the path names, the method the flags
/// choose, at the given position.
pub fn cmd_activate(cmd: &CmdActivate) -> (r: Result<ActivateRequest, PathError>)
    ensures
        path_target_matches(
            match r {
                Ok(q) => Ok::<ProxyTarget, PathError>(q.target),
                Err(e) => Err(e),
            },
            ProxyKind::StatusNotifierItem,
            cmd.path@,
        ),
        r matches Ok(q) ==> q.method == activate_method(cmd.secondary, cmd.context_menu) && q.x == cmd.x
            && q.y == cmd.y,
{
    let target = match path_target(ProxyKind::StatusNotifierItem, cmd.path.as_str()) {
        Ok(t) => t,
        Err(e) => return Err(e),
    };
    let method = if cmd.secondary {
        ActivateMethod::Secondary
    } else if cmd.context_menu {
        ActivateMethod::ContextMenu
    } else {
        ActivateMethod::Activate
    };
    Ok(ActivateRequest { target, method, x: cmd.x, y: cmd.y })
}

/// A scroll call.
pub struct ScrollRequest {
    pub target: ProxyTarget,
    pub delta: i32,
    pub orientation: String,
}

/// The call of `scroll`: on the item the path names, with the given amount
/// and orientation.
pub fn cmd_scroll(cmd: &CmdScroll) -> (r: Result<ScrollRequest, PathError>)
    ensures
        path_target_matches(
            match r {
                Ok(q) => Ok::<ProxyTarget, PathError>(q.target),
                Err(e) => Err(e),
            },
            ProxyKind::StatusNotifierItem,
            cmd.path@,
        ),
        r matches Ok(q) ==> q.delta == cmd.delta && q.orientation@ == cmd.orientation@,
{
    let target = match path_target(ProxyKind::StatusNotifierItem, cmd.path.as_str()) {
        Ok(t) => t,
        Err(e) => return Err(e),
    };
    Ok(ScrollRequest { target, delta: cmd.delta, orientation: cmd.orientation.clone() })
}

/// What `layout` fetches and how it filters the reply.
pub struct LayoutPlan {
    pub target: ProxyTarget,
    /// Keep hidden entries.
    pub hidden: bool,
    /// Keep disabled entries.
    pub disabled: bool,
}

/// The menu that `layout` reads, and the filter it applies (see
/// `MenuNode::filter_nodes`).
pub fn cmd_layout(cmd: &CmdLayout) -> (r: Result<LayoutPlan, PathError>)
    ensures
        path_target_matches(
            match r {
                Ok(q) => Ok::<ProxyTarget, PathError>(q.target),
                Err(e) => Err(e),
            },
            ProxyKind::DbusMenu,
            cmd.path@,
        ),
        r matches Ok(q) ==> q.hidden == cmd.hidden && q.disabled == cmd.disabled,
{
    let target = match path_target(ProxyKind::DbusMenu, cmd.path.as_str()) {
        Ok(t) => t,
        Err(e) => return Err(e),
    };
    Ok(LayoutPlan { target, hidden: cmd.hidden, disabled: cmd.disabled })
}

/// A menu event call.
pub struct ClickRequest {
    pub target: ProxyTarget,
    /// The menu entry.
    pub id: i32,
    /// The event id, `clicked`.
    pub event_id: String,
    /// The data sent along.
    pub data: ClickData,
    /// The timestamp sent along.
    pub timestamp: u32,
}

/// The data of a click: what was given, else the integer 0.
pub open spec fn click_data_matches(r: ClickData, given: Option<ClickData>) -> bool {
    match given {
        Some(d) => match (r, d) {
            (ClickData::I32(a), ClickData::I32(b)) => a == b,
            (ClickData::Bool(a), ClickData::Bool(b)) => a == b,
            (ClickData::F64(a), ClickData::F64(b)) => a@ == b@,
            (ClickData::Str(a), ClickData::Str(b)) => a@ == b@,
            _ => false,
        },
        None => r == ClickData::I32(0),
    }
}

fn copy_click_data(d: &Option<ClickData>) -> (r: ClickData)
    ensures
        click_data_matches(r, *d),
{
    match d {
        Some(ClickData::I32(v)) => ClickData::I32(*v),
        Some(ClickData::Bool(b)) => ClickData::Bool(*b),
        Some(ClickData::F64(t)) => ClickData::F64(t.clone()),
        Some(ClickData::Str(t)) => ClickData::Str(t.clone()),
        None => ClickData::I32(0),
    }
}

/// The call of `click`: a `clicked` event on the given entry of the menu
/// the path names, with the given data (0 if none) and timestamp 0.
pub fn cmd_menu(cmd: &CmdClick) -> (r: Result<ClickRequest, PathError>)
    ensures
        path_target_matches(
            match r {
                Ok(q) => Ok::<ProxyTarget, PathError>(q.target),
                Err(e) => Err(e),
            },
            ProxyKind::DbusMenu,
            cmd.path@,
        ),
        r matches Ok(q) ==> q.id == cmd.id && q.event_id@ == "clicked"@ && q.timestamp == 0
            && click_data_matches(q.data, cmd.data),
{
    let target = match path_target(ProxyKind::DbusMenu, cmd.path.as_str()) {
        Ok(t) => t,
        Err(e) => return Err(e),
    };
    let data = copy_click_data(&cmd.data);
    Ok(ClickRequest { target, id: cmd.id, event_id: String::from_str("clicked"), data, timestamp: 0 })
}

} // verus!
