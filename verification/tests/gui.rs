use trayless::{
    click_action, first_existing, icon_choice_fails_exec, icon_source, image_candidates, item_title,
    key_action, menu_entries, IconSource, ItemAction, MenuEntry, MenuNode, PointerButton, TrayItem,
};

fn item(name: Option<&str>, theme: Option<&str>, pixmap: Option<Vec<(i32, i32, Vec<u8>)>>) -> TrayItem {
    TrayItem {
        id: "app".to_string(),
        name: ":1.4".to_string(),
        menu: "/MenuBar".to_string(),
        item: "/StatusNotifierItem".to_string(),
        pid: 0,
        exe: String::new(),
        title: None,
        icon_name: name.map(str::to_string),
        icon_theme_path: theme.map(str::to_string),
        icon_pixmap: pixmap,
    }
}

#[test]
fn icon_source_prefers_names_then_pixmaps() {
    assert!(matches!(icon_source(&item(Some("mail"), Some("/usr/share/icons"), None)), IconSource::File(ref p) if p == "/usr/share/icons/mail"));
    assert!(matches!(icon_source(&item(Some("mail"), Some(""), None)), IconSource::Themed(ref n) if n == "mail"));
    assert!(matches!(icon_source(&item(Some("mail"), None, None)), IconSource::Themed(ref n) if n == "mail"));
    let pix = Some(vec![(1, 1, vec![0, 0, 0, 1]), (2, 1, vec![9; 8])]);
    match icon_source(&item(Some(""), None, pix)) {
        IconSource::Pixmap(w, h, px, stride) => {
            assert_eq!((w, h, stride), (2, 1, 8));
            assert_eq!(px, vec![9; 8]);
        }
        _ => panic!("expected the last pixmap"),
    }
    assert!(matches!(icon_source(&item(None, None, None)), IconSource::NoIcon));
}

#[test]
fn icon_choice_fails_on_empty_pixmaps() {
    assert!(icon_choice_fails_exec(&item(None, None, Some(vec![]))));
    assert!(icon_choice_fails_exec(&item(None, None, Some(vec![(1, 1, vec![])]))));
    assert!(icon_choice_fails_exec(&item(None, None, Some(vec![(i32::MAX, 1, vec![1])]))));
    assert!(!icon_choice_fails_exec(&item(Some("x"), None, Some(vec![]))));
    assert!(!icon_choice_fails_exec(&item(None, None, None)));
}

#[test]
fn image_files_are_tried_in_order() {
    let c = image_candidates("/icons/mail");
    assert_eq!(c, vec!["/icons/mail.svg", "/icons/mail.png", "/icons/mail.jpg", "/icons/mail.jpeg", "/icons/mail.gif", "/icons/mail.tiff"]);
    assert_eq!(first_existing(&c, &vec![false, true, false, false, true, false]).as_deref(), Some("/icons/mail.png"));
    assert_eq!(first_existing(&c, &vec![false; 6]), None);
}

#[test]
fn titles_fall_back_to_tooltip_then_id() {
    let mut it = item(None, None, None);
    assert_eq!(item_title(&it, &None), "app");
    assert_eq!(item_title(&it, &Some(String::new())), "app");
    assert_eq!(item_title(&it, &Some("Tip".to_string())), "Tip");
    it.title = Some(String::new());
    assert_eq!(item_title(&it, &Some("Tip".to_string())), "Tip");
    it.title = Some("Title".to_string());
    assert_eq!(item_title(&it, &Some("Tip".to_string())), "Title");
}

#[test]
fn keys_and_clicks() {
    assert_eq!(key_action(true, false), Some(ItemAction::ShowMenu));
    assert_eq!(key_action(true, true), Some(ItemAction::Activate));
    assert_eq!(key_action(false, true), None);
    assert_eq!(click_action(PointerButton::Primary), Some(ItemAction::ShowMenu));
    assert_eq!(click_action(PointerButton::Secondary), Some(ItemAction::Activate));
    assert_eq!(click_action(PointerButton::Other), None);
}

fn entry(id: i32, label: Option<&str>, enabled: Option<bool>, visible: Option<bool>, children: Vec<MenuNode>) -> MenuNode {
    MenuNode { id, label: label.map(str::to_string), enabled, visible, toggle_type: None, toggle_state: None, children }
}

#[test]
fn menu_window_entries() {
    let menu = entry(0, None, None, None, vec![
        entry(1, Some("Open"), None, None, vec![]),
        entry(2, None, None, None, vec![]),
        entry(3, Some("Gone"), None, Some(false), vec![]),
        entry(4, Some("Greyed"), Some(false), None, vec![]),
        entry(5, Some("More"), None, None, vec![entry(6, Some("x"), None, None, vec![])]),
    ]);
    let es = menu_entries(menu);
    assert_eq!(es.len(), 4);
    assert!(matches!(es[0], MenuEntry::Button(1, ref l, true) if l == "Open"));
    assert!(matches!(es[1], MenuEntry::Separator));
    // the hidden entry 3 is gone; the others keep their order
    assert!(matches!(es[2], MenuEntry::Button(4, ref l, false) if l == "Greyed"));
    assert!(matches!(es[3], MenuEntry::Nested));
}
