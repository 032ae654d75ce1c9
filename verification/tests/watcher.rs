use trayless::{forget_disconnected, register_item, registered_items, registered_path};

fn entry(name: &str, path: &str) -> (String, String) {
    (name.to_string(), path.to_string())
}

#[test]
fn object_path_services_belong_to_the_sender() {
    assert_eq!(registered_path(":1.42", "/org/ayatana/NotificationItem/app"), ":1.42/org/ayatana/NotificationItem/app");
}

#[test]
fn bus_name_services_get_the_default_item_path() {
    assert_eq!(registered_path(":1.42", "org.kde.StatusNotifierItem-7-1"), "org.kde.StatusNotifierItem-7-1/StatusNotifierItem");
    assert_eq!(registered_path(":1.42", ""), "/StatusNotifierItem");
}

#[test]
fn registering_adds_then_replaces() {
    let mut items: Vec<(String, String)> = Vec::new();
    register_item(&mut items, ":1.5", "/StatusNotifierItem");
    register_item(&mut items, ":1.6", "org.example.App");
    assert_eq!(items, vec![entry(":1.5", ":1.5/StatusNotifierItem"), entry(":1.6", "org.example.App/StatusNotifierItem")]);
    register_item(&mut items, ":1.5", "/other");
    assert_eq!(items, vec![entry(":1.5", ":1.5/other"), entry(":1.6", "org.example.App/StatusNotifierItem")]);
    assert_eq!(registered_items(&items), vec![":1.5/other".to_string(), "org.example.App/StatusNotifierItem".to_string()]);
}

#[test]
fn a_name_that_loses_its_owner_is_forgotten() {
    let mut items = vec![entry(":1.5", ":1.5/a"), entry(":1.6", ":1.6/b"), entry(":1.7", ":1.7/c")];
    let removed = forget_disconnected(&mut items, ":1.6", true);
    assert_eq!(removed, Some(":1.6/b".to_string()));
    assert_eq!(items, vec![entry(":1.5", ":1.5/a"), entry(":1.7", ":1.7/c")]);
}

#[test]
fn a_name_that_changes_owner_is_kept() {
    let mut items = vec![entry(":1.5", ":1.5/a")];
    assert_eq!(forget_disconnected(&mut items, ":1.5", false), None);
    assert_eq!(items, vec![entry(":1.5", ":1.5/a")]);
}

#[test]
fn an_unknown_name_changes_nothing() {
    let mut items = vec![entry(":1.5", ":1.5/a")];
    assert_eq!(forget_disconnected(&mut items, ":1.9", true), None);
    assert_eq!(items, vec![entry(":1.5", ":1.5/a")]);
}
