use trayless::{exe_wanted, properties_help, tray_item_fields, FieldDoc, ItemProperties, TrayItem};

fn props() -> ItemProperties {
    ItemProperties {
        id: Some("nm-applet".to_string()),
        title: None,
        menu: None,
        icon_name: Some("network".to_string()),
        icon_theme_path: None,
        icon_pixmap: Some(vec![(2, 1, vec![1, 2, 3, 4, 5, 6, 7, 8])]),
    }
}

#[test]
fn from_proxy_fills_defaults() {
    let item = TrayItem::from_proxy(":1.5".to_string(), "/StatusNotifierItem".to_string(), props(), None, Some("/usr/bin/x".to_string()));
    assert_eq!(item.id, "nm-applet");
    assert_eq!(item.name, ":1.5");
    assert_eq!(item.item, "/StatusNotifierItem");
    assert_eq!(item.menu, "");
    assert_eq!(item.pid, 0);
    assert_eq!(item.exe, "");
    assert_eq!(item.icon_name.as_deref(), Some("network"));

    let item = TrayItem::from_proxy(":1.5".to_string(), "/S".to_string(), props(), Some(42), Some("/usr/bin/x".to_string()));
    assert_eq!(item.pid, 42);
    assert_eq!(item.exe, "/usr/bin/x");
    let item = TrayItem::from_proxy(":1.5".to_string(), "/S".to_string(), props(), Some(42), None);
    assert_eq!(item.exe, "");
}

#[test]
fn exe_is_looked_up_for_known_processes_only() {
    assert_eq!(exe_wanted(None), None);
    assert_eq!(exe_wanted(Some(0)), None);
    assert_eq!(exe_wanted(Some(17)), Some(17));
}

#[test]
fn pixmaps_are_summed_up() {
    let item = TrayItem::from_proxy(":1.5".to_string(), "/S".to_string(), props(), None, None);
    assert_eq!(item.pixmap_summary(), Some(vec![(2, 1, 8)]));
}

#[test]
fn list_help_documents_the_reported_properties() {
    let help = properties_help(&tray_item_fields());
    let expected = "/// Id of the application\nid: String\n\n\
/// DBus `WellKnownName` of the item\nname: String\n\n\
/// Relative dbus path to `com.canonical.dbusmenu`\nmenu: String\n\n\
/// Relative dbus path to `org.kde.StatusNotifierItem` (this object)\nitem: String\n\n\
/// Process id of the application\npid: u32\n\n\
/// Executable path of the application\n///\n\
/// Can be used to deduce the application when it does not define `id` or `name` properly like\n\
/// electron apps often do\nexe: String\n\n\
/// Notifier title specified by the application\ntitle: Optional<String>\n\n";
    assert_eq!(help, expected);
}

#[test]
fn help_converts_types_and_skips_marked_fields() {
    let fields = vec![
        FieldDoc { name: "a".to_string(), written_type: "Option<Vec<Vec<u8>>>".to_string(), docs: vec![] },
        FieldDoc { name: "b".to_string(), written_type: "u8".to_string(), docs: vec!["x".to_string(), "y @skip z".to_string()] },
        FieldDoc { name: "c".to_string(), written_type: "VecOption<".to_string(), docs: vec!["@ski".to_string()] },
    ];
    assert_eq!(properties_help(&fields), "a: Optional<Array<Array<u8>>>\n\n///@ski\nc: VecOptional<\n\n");
    assert_eq!(properties_help(&vec![]), "");
}
