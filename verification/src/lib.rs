//! Verified core of `trayless`, a host for tray indicators
//! (`org.kde.StatusNotifierItem`): how item paths are split and checked,
//! how a dbusmenu layout is read and filtered, what each command of the
//! command line asks of the bus, and the decisions of the graphical front
//! end. Talking to the bus, printing and drawing are left to the caller.
pub mod cli;
pub mod commands;
pub mod filter;
pub mod gui;
pub mod layout;
pub mod menu_node;
pub mod names;
pub mod text;
pub mod tray_item;
pub mod value;
pub mod watcher;

pub use cli::{
    parse_data, parse_i32, ClickData, Cli, CliCommands, CmdActivate, CmdClick, CmdDaemon, CmdGui,
    CmdLayout, CmdList, CmdScroll,
};
pub use commands::{
    cmd_activate, cmd_layout, cmd_menu, cmd_scroll, ActivateMethod, ActivateRequest, ClickRequest,
    LayoutPlan, ScrollRequest,
};
pub use gui::{
    click_action, first_existing, icon_choice_fails_exec, icon_source, image_candidates,
    item_title, key_action, menu_entries, IconSource, ItemAction, MenuEntry, PointerButton,
};
pub use layout::{
    get_item_menu_layout, layout_panics, menu_layout_request, LayoutError, LayoutRequest,
};
pub use menu_node::{MenuNode, NodeModel};
pub use names::{
    get_item_menu_proxy, get_item_proxy, path_target, split_path, PathError, ProxyError,
    ProxyKind, ProxyTarget,
};
pub use tray_item::{exe_wanted, properties_help, tray_item_fields, FieldDoc, ItemProperties, TrayItem};
pub use value::DbusValue;
pub use watcher::{forget_disconnected, register_item, registered_items, registered_path};
