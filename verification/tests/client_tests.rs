use systray::client::{
    is_daemon_invocation,
    daemon_timeout_message, default_response, hide_request, hide_result, list_request, list_result, run_request,
    send_fallback, show_request, socket_path, status_to_code, ConnectMode,
};
use systray::protocol::{ItemInfo, Request, Response};

fn request(cmd: &str, id: Option<&str>) -> Request {
    Request { cmd: cmd.to_string(), id: id.map(|s| s.to_string()), icon: None, tooltip: None, on_click: None, pid: None, show_duration: None }
}

#[test]
fn default_response_list_is_empty_success() {
    let r = default_response(&list_request());
    assert!(r.ok);
    assert_eq!(r.items, Some(Vec::new()));
}

#[test]
fn default_response_hide_fails() {
    let r = default_response(&hide_request("x".to_string()));
    assert_eq!(r, Response::err("no item with id \"x\"".to_string()));
    let r = default_response(&request("hide", None));
    assert_eq!(r, Response::err("id is required for hide".to_string()));
}

#[test]
fn default_response_other() {
    let r = default_response(&request("show", Some("a")));
    assert_eq!(r, Response::err("daemon is not running".to_string()));
}

#[test]
fn fallback_by_mode() {
    assert_eq!(send_fallback(&list_request(), ConnectMode::StartIfMissing), None);
    assert_eq!(send_fallback(&list_request(), ConnectMode::NoStart), Some(Response::with_items(Vec::new())));
}

#[test]
fn show_needs_icon_or_tooltip() {
    let e = show_request("a".to_string(), None, None, None, None).unwrap_err();
    assert_eq!(e, "at least one of --icon or --tooltip is required");
    let r = show_request("a".to_string(), None, Some("t".to_string()), Some("c".to_string()), Some(4)).unwrap();
    assert_eq!(r.cmd, "show");
    assert_eq!(r.id, Some("a".to_string()));
    assert_eq!(r.tooltip, Some("t".to_string()));
    assert_eq!(r.on_click, Some("c".to_string()));
    assert_eq!(r.pid, Some(4));
    assert_eq!(r.show_duration, None);
    assert!(show_request("a".to_string(), Some("i".to_string()), None, None, None).is_ok());
}

#[test]
fn run_needs_something_to_show() {
    assert!(run_request("a".to_string(), None, None, false, None, 10).is_err());
    let r = run_request("a".to_string(), None, None, true, None, 10).unwrap();
    assert_eq!(r.pid, Some(10));
    assert_eq!(r.show_duration, Some(true));
    let r = run_request("a".to_string(), Some("media-record".to_string()), None, false, None, 10).unwrap();
    assert_eq!(r.show_duration, Some(false));
    assert_eq!(r.cmd, "show");
}

#[test]
fn hide_and_list_requests() {
    let r = hide_request("x".to_string());
    assert_eq!(r, Request { cmd: "hide".to_string(), ..request("hide", Some("x")) });
    assert_eq!(list_request(), request("list", None));
}

#[test]
fn hide_result_cases() {
    assert_eq!(hide_result(Response::ok()), Ok(()));
    assert_eq!(hide_result(Response::err("no".to_string())), Err("no".to_string()));
    let r = Response { ok: false, error: None, items: None };
    assert_eq!(hide_result(r), Err("hide failed".to_string()));
}

#[test]
fn list_result_cases() {
    let info = |id: &str| ItemInfo { id: id.to_string(), icon: String::new(), tooltip: String::new(), pid: None };
    let r = list_result(Response::with_items(vec![info("a"), info("b")])).unwrap();
    assert_eq!(r, vec!["a".to_string(), "b".to_string()]);
    assert_eq!(list_result(Response::ok()).unwrap(), Vec::<String>::new());
    assert_eq!(list_result(Response::err("bad".to_string())), Err("Some(\"bad\")".to_string()));
    assert_eq!(list_result(Response { ok: false, error: None, items: None }), Err("None".to_string()));
}

#[test]
fn exit_codes() {
    assert_eq!(status_to_code(Some(0), None), 0);
    assert_eq!(status_to_code(Some(3), None), 3);
    assert_eq!(status_to_code(None, Some(9)), 137);
    assert_eq!(status_to_code(None, Some(15)), 143);
    assert_eq!(status_to_code(None, None), 1);
}

#[test]
fn socket_paths() {
    assert_eq!(socket_path(Some("/run/user/1000".to_string()), 1000), "/run/user/1000/tray.sock");
    assert_eq!(socket_path(None, 1000), "/tmp/tray-1000/tray.sock");
    assert_eq!(socket_path(None, 0), "/tmp/tray-0/tray.sock");
}

#[test]
fn daemon_timeout_messages() {
    assert_eq!(daemon_timeout_message(None), "daemon did not start within 3s");
    assert_eq!(daemon_timeout_message(Some("refused".to_string())), "daemon did not start within 3s: refused");
}

#[test]
fn daemon_invocation() {
    let args = |v: &[&str]| v.iter().map(|s| s.to_string()).collect::<Vec<String>>();
    assert!(is_daemon_invocation(&args(&["tray", "daemon"])));
    assert!(!is_daemon_invocation(&args(&["tray"])));
    assert!(!is_daemon_invocation(&args(&["tray", "list", "daemon"])));
}

#[test]
fn list_without_daemon_prints_nothing_and_succeeds() {
    let resp = default_response(&list_request());
    assert_eq!(list_result(resp), Ok(Vec::new()));
}

#[test]
fn hide_without_daemon_fails() {
    let resp = default_response(&hide_request("gone".to_string()));
    assert_eq!(hide_result(resp), Err("no item with id \"gone\"".to_string()));
}
