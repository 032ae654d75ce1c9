use trayless::{get_item_menu_proxy, get_item_proxy, path_target, split_path, PathError, ProxyError, ProxyKind};

#[test]
fn split_path_at_first_slash() {
    let (d, p) = split_path(":1.298/org/ayatana/NotificationItem/TOA2Xeo1bQ").unwrap();
    assert_eq!(d, ":1.298");
    assert_eq!(p, "/org/ayatana/NotificationItem/TOA2Xeo1bQ");
    let (d, p) = split_path("a/b/c").unwrap();
    assert_eq!((d.as_str(), p.as_str()), ("a", "/b/c"));
    let (d, p) = split_path("/StatusNotifierItem").unwrap();
    assert_eq!((d.as_str(), p.as_str()), ("", "/StatusNotifierItem"));
    let (d, p) = split_path("org.kde.Foo/").unwrap();
    assert_eq!((d.as_str(), p.as_str()), ("org.kde.Foo", "/"));
    assert!(split_path("no-slash-here").is_none());
    assert!(split_path("").is_none());
}

#[test]
fn split_then_join_gives_back_the_input() {
    for input in [":1.5/a", "x/y/z", "/", "ü/ß"] {
        let (d, p) = split_path(input).unwrap();
        assert_eq!(format!("{d}{p}"), input);
        assert!(!d.contains('/'));
    }
}

#[test]
fn proxy_targets_check_destination_then_path() {
    let t = get_item_proxy(":1.298", "/org/ayatana/NotificationItem/X").unwrap();
    assert_eq!(t.kind, ProxyKind::StatusNotifierItem);
    assert_eq!(t.destination, ":1.298");
    assert_eq!(t.path, "/org/ayatana/NotificationItem/X");
    let t = get_item_menu_proxy("org.kde.StatusNotifierItem-1-2", "/MenuBar").unwrap();
    assert_eq!(t.kind, ProxyKind::DbusMenu);
    assert!(get_item_proxy("org.freedesktop.DBus", "/").is_ok());
    assert_eq!(get_item_proxy("", "/a").err(), Some(ProxyError::InvalidDestination));
    assert_eq!(get_item_proxy(":1", "/a").err(), Some(ProxyError::InvalidDestination));
    assert_eq!(get_item_proxy("1org.kde", "/a").err(), Some(ProxyError::InvalidDestination));
    assert_eq!(get_item_proxy("org..kde", "/a").err(), Some(ProxyError::InvalidDestination));
    assert_eq!(get_item_proxy("bad", "not a path").err(), Some(ProxyError::InvalidDestination));
    assert_eq!(get_item_proxy(":1.2", "/a//b").err(), Some(ProxyError::InvalidPath));
    assert_eq!(get_item_proxy(":1.2", "/a/").err(), Some(ProxyError::InvalidPath));
    assert_eq!(get_item_proxy(":1.2", "a").err(), Some(ProxyError::InvalidPath));
    assert_eq!(get_item_proxy(":1.2", "/a-b").err(), Some(ProxyError::InvalidPath));
    assert!(get_item_proxy(":1.2", "/a_b/C9").is_ok());
    let long = format!("a.{}", "b".repeat(254));
    assert_eq!(get_item_proxy(&long, "/").err(), Some(ProxyError::InvalidDestination));
}

#[test]
fn item_paths_name_proxy_targets() {
    let t = path_target(ProxyKind::StatusNotifierItem, ":1.7/StatusNotifierItem").unwrap();
    assert_eq!(t.destination, ":1.7");
    assert_eq!(t.path, "/StatusNotifierItem");
    assert_eq!(path_target(ProxyKind::DbusMenu, "nothing").err(), Some(PathError::NoDestination));
    assert_eq!(
        path_target(ProxyKind::DbusMenu, "/MenuBar").err(),
        Some(PathError::Proxy(ProxyError::InvalidDestination))
    );
    assert_eq!(
        path_target(ProxyKind::DbusMenu, ":1.7/a//b").err(),
        Some(PathError::Proxy(ProxyError::InvalidPath))
    );
}
