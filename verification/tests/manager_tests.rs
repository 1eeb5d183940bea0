use systray::manager::{dead_pids, Manager, Step};
use systray::protocol::{ItemInfo, Request, Response};

fn request(cmd: &str, id: Option<&str>) -> Request {
    Request {
        cmd: cmd.to_string(),
        id: id.map(|s| s.to_string()),
        icon: None,
        tooltip: None,
        on_click: None,
        pid: None,
        show_duration: None,
    }
}

fn show(mgr: &mut Manager, id: &str, tooltip: &str, pid: Option<i32>) -> Step {
    let mut r = request("show", Some(id));
    r.tooltip = Some(tooltip.to_string());
    r.pid = pid;
    mgr.dispatch(r, false, Ok(Vec::new()), 0)
}

fn show_and_register(mgr: &mut Manager, id: &str, tooltip: &str, pid: Option<i32>) -> String {
    match show(mgr, id, tooltip, pid) {
        Step::Register { object_path, item: Ok(item) } => {
            let (resp, displaced) = mgr.register(object_path.clone(), item);
            assert_eq!(resp, Response::ok());
            assert_eq!(displaced, None);
            object_path
        }
        other => panic!("expected Register, got {:?}", other),
    }
}

fn reply(step: Step) -> Response {
    match step {
        Step::Reply(r) => r,
        other => panic!("expected Reply, got {:?}", other),
    }
}

#[test]
fn show_new_item_then_list() {
    let mut mgr = Manager::new();
    let path = show_and_register(&mut mgr, "a", "Tip", Some(7));
    assert_eq!(path, "/StatusNotifierItem/_0");
    let items = mgr.list();
    assert_eq!(items, vec![ItemInfo { id: "a".to_string(), icon: "".to_string(), tooltip: "Tip".to_string(), pid: Some(7) }]);
    let resp = reply(mgr.dispatch(request("list", None), false, Ok(Vec::new()), 0));
    assert!(resp.ok);
    assert_eq!(resp.items, Some(items));
}

#[test]
fn object_paths_are_numbered_in_turn() {
    let mut mgr = Manager::new();
    assert_eq!(show_and_register(&mut mgr, "a", "A", None), "/StatusNotifierItem/_0");
    assert_eq!(show_and_register(&mut mgr, "b", "B", None), "/StatusNotifierItem/_1");
    // A show that fails its icon check still uses up a number; the error is the
    // answer once the session bus was reached.
    let mut r = request("show", Some("c"));
    r.icon = Some("/nope/c.png".to_string());
    match mgr.dispatch(r, false, Err("missing".to_string()), 0) {
        Step::Register { object_path, item: Err(e) } => {
            assert_eq!(object_path, "/StatusNotifierItem/_2");
            assert_eq!(e, "missing");
        }
        other => panic!("expected Register with an error, got {:?}", other),
    }
    assert!(mgr.get("c").is_none());
    assert_eq!(show_and_register(&mut mgr, "d", "D", None), "/StatusNotifierItem/_3");
}

#[test]
fn show_existing_item_updates_it() {
    let mut mgr = Manager::new();
    show_and_register(&mut mgr, "a", "Tip", None);
    match show(&mut mgr, "a", "Other", Some(9)) {
        Step::Announce { object_path } => assert_eq!(object_path, "/StatusNotifierItem/_0"),
        other => panic!("expected Announce, got {:?}", other),
    }
    let it = mgr.get("a").unwrap();
    assert_eq!(it.tooltip, "Other");
    assert_eq!(it.pid, Some(9));
    assert_eq!(mgr.list().len(), 1);
}

#[test]
fn show_with_duration_starts_timer() {
    let mut mgr = Manager::new();
    let mut r = request("show", Some("t"));
    r.show_duration = Some(true);
    match mgr.dispatch(r, false, Ok(Vec::new()), 1234) {
        Step::Register { item: Ok(item), .. } => {
            assert!(item.show_duration);
            assert_eq!(item.started_at, Some(1234));
        }
        other => panic!("expected Register, got {:?}", other),
    }
}

#[test]
fn show_without_id() {
    let mut mgr = Manager::new();
    let resp = reply(mgr.dispatch(request("show", None), false, Ok(Vec::new()), 0));
    assert_eq!(resp, Response::err("id is required".to_string()));
}

#[test]
fn hide_removes_and_reports_empty() {
    let mut mgr = Manager::new();
    show_and_register(&mut mgr, "a", "A", None);
    show_and_register(&mut mgr, "b", "B", None);
    match mgr.dispatch(request("hide", Some("a")), false, Ok(Vec::new()), 0) {
        Step::Unregister { object_path, now_empty } => {
            assert_eq!(object_path, "/StatusNotifierItem/_0");
            assert!(!now_empty);
        }
        other => panic!("expected Unregister, got {:?}", other),
    }
    assert!(mgr.get("a").is_none());
    assert!(mgr.get("b").is_some());
    match mgr.hide_item("b") {
        Step::Unregister { now_empty, .. } => assert!(now_empty),
        other => panic!("expected Unregister, got {:?}", other),
    }
    assert!(mgr.list().is_empty());
}

#[test]
fn hide_unknown_id() {
    let mut mgr = Manager::new();
    show_and_register(&mut mgr, "a", "A", None);
    let resp = reply(mgr.hide_item("zz"));
    assert_eq!(resp, Response::err("no item with id \"zz\"".to_string()));
    assert_eq!(mgr.list().len(), 1);
}

#[test]
fn hide_without_id() {
    let mut mgr = Manager::new();
    let resp = reply(mgr.dispatch(request("hide", None), false, Ok(Vec::new()), 0));
    assert_eq!(resp, Response::err("id is required for hide".to_string()));
}

#[test]
fn unknown_command() {
    let mut mgr = Manager::new();
    show_and_register(&mut mgr, "a", "A", None);
    let resp = reply(mgr.dispatch(request("frob", Some("a")), false, Ok(Vec::new()), 0));
    assert_eq!(resp, Response::err("unknown command \"frob\"".to_string()));
    assert_eq!(mgr.list().len(), 1);
}

#[test]
fn hide_after_register_restores() {
    let mut mgr = Manager::new();
    show_and_register(&mut mgr, "a", "A", None);
    let before = mgr.list();
    show_and_register(&mut mgr, "b", "B", None);
    mgr.hide_item("b");
    assert_eq!(mgr.list(), before);
}

#[test]
fn register_replaces_same_id() {
    let mut mgr = Manager::new();
    show_and_register(&mut mgr, "a", "A", None);
    let item = systray::item::Item::new("a".to_string(), "", "Z", "", false, Ok(Vec::new())).unwrap();
    let (_, displaced) = mgr.register("/StatusNotifierItem/_9".to_string(), item);
    assert_eq!(displaced, Some("/StatusNotifierItem/_0".to_string()));
    assert_eq!(mgr.list().len(), 1);
    assert_eq!(mgr.get("a").unwrap().tooltip, "Z");
}

#[test]
fn hide_pid_removes_exactly_its_items() {
    let mut mgr = Manager::new();
    show_and_register(&mut mgr, "a", "A", Some(1));
    show_and_register(&mut mgr, "b", "B", Some(2));
    show_and_register(&mut mgr, "c", "C", Some(1));
    show_and_register(&mut mgr, "d", "D", None);
    assert_eq!(mgr.watched_pids(), vec![1, 2, 1]);
    let (paths, empty) = mgr.hide_pid(1);
    assert_eq!(paths, vec!["/StatusNotifierItem/_0".to_string(), "/StatusNotifierItem/_2".to_string()]);
    assert!(!empty);
    let ids: Vec<String> = mgr.list().into_iter().map(|i| i.id).collect();
    assert_eq!(ids, vec!["b".to_string(), "d".to_string()]);
    let (paths, empty) = mgr.hide_pid(5);
    assert!(paths.is_empty());
    assert!(!empty);
}

#[test]
fn hide_pid_last_items_reports_empty() {
    let mut mgr = Manager::new();
    show_and_register(&mut mgr, "a", "A", Some(3));
    let (paths, empty) = mgr.hide_pid(3);
    assert_eq!(paths.len(), 1);
    assert!(empty);
}

#[test]
fn tick_durations_updates_timed_items() {
    let mut mgr = Manager::new();
    show_and_register(&mut mgr, "plain", "P", None);
    let mut r = request("show", Some("timed"));
    r.show_duration = Some(true);
    match mgr.dispatch(r, false, Ok(Vec::new()), 0) {
        Step::Register { object_path, item: Ok(item) } => {
            mgr.register(object_path, item);
        }
        other => panic!("expected Register, got {:?}", other),
    }
    let changed = mgr.tick_durations(61_000_000_000);
    assert_eq!(changed, vec!["/StatusNotifierItem/_1".to_string()]);
    assert_eq!(mgr.get("timed").unwrap().description, "00:01:01");
    assert_eq!(mgr.get("plain").unwrap().description, "");
}

#[test]
fn dead_pids_keeps_order_of_dead_ones() {
    assert_eq!(dead_pids(&vec![1, 2, 3, 1], &vec![false, true, false, false]), vec![1, 3, 1]);
    assert_eq!(dead_pids(&vec![4, 5], &vec![true, true]), Vec::<i32>::new());
    assert_eq!(dead_pids(&vec![], &vec![]), Vec::<i32>::new());
}
