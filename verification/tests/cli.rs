use trayless::{
    cmd_activate, cmd_layout, cmd_menu, cmd_scroll, parse_data, parse_i32, ActivateMethod, ClickData,
    CmdActivate, CmdClick, CmdLayout, CmdScroll, PathError,
};

#[test]
fn parse_i32_reads_signed_decimals() {
    assert_eq!(parse_i32("42"), Some(42));
    assert_eq!(parse_i32("-7"), Some(-7));
    assert_eq!(parse_i32("+5"), Some(5));
    assert_eq!(parse_i32("007"), Some(7));
    assert_eq!(parse_i32("2147483647"), Some(i32::MAX));
    assert_eq!(parse_i32("-2147483648"), Some(i32::MIN));
    assert_eq!(parse_i32("2147483648"), None);
    assert_eq!(parse_i32("-2147483649"), None);
    assert_eq!(parse_i32("99999999999999999999"), None);
    assert_eq!(parse_i32(""), None);
    assert_eq!(parse_i32("-"), None);
    assert_eq!(parse_i32("+"), None);
    assert_eq!(parse_i32(" 1"), None);
    assert_eq!(parse_i32("1a"), None);
    assert_eq!(parse_i32("1.0"), None);
    for s in ["0", "-0", "123456", "-99", "+2147483647", "12x", "--1", "٣"] {
        assert_eq!(parse_i32(s), s.parse::<i32>().ok(), "{s}");
    }
}

#[test]
fn click_data_tries_int_float_bool_string() {
    assert!(matches!(parse_data("12", true), ClickData::I32(12)));
    assert!(matches!(parse_data("1.5", true), ClickData::F64(ref t) if t == "1.5"));
    assert!(matches!(parse_data("true", false), ClickData::Bool(true)));
    assert!(matches!(parse_data("false", false), ClickData::Bool(false)));
    assert!(matches!(parse_data("True", false), ClickData::Str(ref t) if t == "True"));
    assert!(matches!(parse_data("hello", false), ClickData::Str(ref t) if t == "hello"));
}

fn activate(context_menu: bool, secondary: bool, path: &str) -> CmdActivate {
    CmdActivate { context_menu, secondary, path: path.to_string(), x: 3, y: -4 }
}

#[test]
fn activation_method_from_flags() {
    let r = cmd_activate(&activate(false, false, ":1.2/Item")).unwrap();
    assert_eq!(r.method, ActivateMethod::Activate);
    assert_eq!((r.x, r.y), (3, -4));
    assert_eq!(r.target.destination, ":1.2");
    assert_eq!(r.target.path, "/Item");
    assert_eq!(cmd_activate(&activate(true, false, ":1.2/Item")).unwrap().method, ActivateMethod::ContextMenu);
    assert_eq!(cmd_activate(&activate(false, true, ":1.2/Item")).unwrap().method, ActivateMethod::Secondary);
    assert_eq!(cmd_activate(&activate(true, true, ":1.2/Item")).unwrap().method, ActivateMethod::Secondary);
    assert_eq!(cmd_activate(&activate(false, false, "Item")).err(), Some(PathError::NoDestination));
}

#[test]
fn scroll_and_layout_requests() {
    let r = cmd_scroll(&CmdScroll { path: ":1.9/x".to_string(), delta: -120, orientation: "vertical".to_string() }).unwrap();
    assert_eq!(r.delta, -120);
    assert_eq!(r.orientation, "vertical");
    let r = cmd_layout(&CmdLayout { hidden: true, disabled: false, path: ":1.9/MenuBar".to_string() }).unwrap();
    assert!(r.hidden && !r.disabled);
    assert_eq!(r.target.path, "/MenuBar");
    assert!(cmd_layout(&CmdLayout { hidden: true, disabled: false, path: "MenuBar".to_string() }).is_err());
}

#[test]
fn click_sends_zero_without_data() {
    let r = cmd_menu(&CmdClick { path: ":1.9/MenuBar".to_string(), id: 12, data: None }).unwrap();
    assert_eq!(r.id, 12);
    assert_eq!(r.event_id, "clicked");
    assert_eq!(r.timestamp, 0);
    assert!(matches!(r.data, ClickData::I32(0)));
    let r = cmd_menu(&CmdClick { path: ":1.9/MenuBar".to_string(), id: 1, data: Some(ClickData::Str("x".to_string())) }).unwrap();
    assert!(matches!(r.data, ClickData::Str(ref t) if t == "x"));
}
