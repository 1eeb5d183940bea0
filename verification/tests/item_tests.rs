use systray::item::Item;
use systray::protocol::Request;

fn req() -> Request {
    Request { cmd: "show".to_string(), id: Some("a".to_string()), icon: None, tooltip: None, on_click: None, pid: None, show_duration: None }
}

fn item() -> Item {
    Item::new("a".to_string(), "media-record", "Tip", "echo hi", false, Ok(Vec::new())).unwrap()
}

#[test]
fn new_item_fields() {
    let it = item();
    assert_eq!(it.id, "a");
    assert_eq!(it.icon, "media-record");
    assert_eq!(it.tooltip, "Tip");
    assert_eq!(it.description, "");
    assert_eq!(it.on_click, "echo hi");
    assert_eq!(it.pid, None);
    assert!(!it.show_duration);
    assert_eq!(it.started_at, None);
}

#[test]
fn new_item_bad_icon() {
    let r = Item::new("a".to_string(), "/x/a.svg", "", "", true, Ok(b"junk".to_vec()));
    assert!(r.unwrap_err().starts_with("failed to parse SVG: "));
}

#[test]
fn update_fields() {
    let mut it = item();
    let mut r = req();
    r.tooltip = Some("New".to_string());
    r.pid = Some(42);
    r.on_click = Some("true".to_string());
    assert_eq!(it.update(&r, false, Ok(Vec::new()), 5), Ok(()));
    assert_eq!(it.tooltip, "New");
    assert_eq!(it.pid, Some(42));
    assert_eq!(it.on_click, "true");
    assert_eq!(it.icon, "media-record");
}

#[test]
fn update_bad_icon_changes_nothing() {
    let mut it = item();
    let mut r = req();
    r.icon = Some("/x/a.png".to_string());
    r.tooltip = Some("New".to_string());
    let e = it.update(&r, false, Err("missing".to_string()), 5);
    assert_eq!(e, Err("missing".to_string()));
    assert_eq!(it.tooltip, "Tip");
    assert_eq!(it.icon, "media-record");
}

#[test]
fn update_is_idempotent() {
    let mut it = item();
    let mut r = req();
    r.tooltip = Some("X".to_string());
    r.show_duration = Some(true);
    it.update(&r, false, Ok(Vec::new()), 1000).unwrap();
    let once = it.clone();
    it.update(&r, false, Ok(Vec::new()), 9000).unwrap();
    assert_eq!(it.tooltip, once.tooltip);
    assert_eq!(it.started_at, Some(1000));
    assert_eq!(once.started_at, Some(1000));
    assert!(it.show_duration);
}

#[test]
fn update_empty_request_is_identity() {
    let mut it = item();
    it.update(&req(), false, Ok(Vec::new()), 7).unwrap();
    let fresh = item();
    assert_eq!(it.tooltip, fresh.tooltip);
    assert_eq!(it.icon, fresh.icon);
    assert_eq!(it.on_click, fresh.on_click);
    assert_eq!(it.pid, fresh.pid);
    assert_eq!(it.show_duration, fresh.show_duration);
    assert_eq!(it.started_at, fresh.started_at);
}

#[test]
fn timer_off_keeps_start() {
    let mut it = item();
    let mut r = req();
    r.show_duration = Some(true);
    it.update(&r, false, Ok(Vec::new()), 10).unwrap();
    r.show_duration = Some(false);
    it.update(&r, false, Ok(Vec::new()), 20).unwrap();
    assert!(!it.show_duration);
    assert_eq!(it.started_at, Some(10));
}

#[test]
fn set_duration_text_sets_description() {
    let mut it = item();
    it.set_duration_text("00:00:05".to_string());
    assert_eq!(it.description, "00:00:05");
}

#[test]
fn tick_without_timer() {
    let mut it = item();
    assert!(!it.tick(5000));
    assert_eq!(it.description, "");
    assert_eq!(it.started_at, None);
}

#[test]
fn tick_starts_then_counts() {
    let mut it = item();
    it.show_duration = true;
    assert!(!it.tick(1_000));
    assert_eq!(it.started_at, Some(1_000));
    assert!(it.tick(3_662_999_999_999 + 1_000));
    assert_eq!(it.description, "01:01:02");
    // A clock reading before the start counts as no time.
    assert!(it.tick(10));
    assert_eq!(it.description, "00:00:00");
}

#[test]
fn title_and_tool_tip() {
    let it = item();
    assert_eq!(it.title(), "Tip");
    let mut it2 = Item::new("b".to_string(), "", "", "", false, Ok(Vec::new())).unwrap();
    assert_eq!(it2.title(), "b");
    it2.set_duration_text("00:00:01".to_string());
    let (name, px, title, desc) = it2.tool_tip();
    assert_eq!(name, "");
    assert!(px.is_empty());
    // Without a tooltip, the elapsed time is the hover title.
    assert_eq!(title, "00:00:01");
    assert_eq!(desc, "");
    let (_, _, title, desc) = Item::new("c".to_string(), "", "", "", false, Ok(Vec::new())).unwrap().tool_tip();
    assert_eq!(title, "c");
    assert_eq!(desc, "");
}

#[test]
fn tool_tip_with_tooltip_and_timer() {
    let mut it = item();
    it.set_duration_text("00:02:00".to_string());
    let (_, _, title, desc) = it.tool_tip();
    assert_eq!(title, "Tip");
    assert_eq!(desc, "00:02:00");
}

#[test]
fn click_command_cases() {
    assert_eq!(item().click_command(), Some("echo hi".to_string()));
    let it = Item::new("b".to_string(), "", "", "", false, Ok(Vec::new())).unwrap();
    assert_eq!(it.click_command(), None);
}
