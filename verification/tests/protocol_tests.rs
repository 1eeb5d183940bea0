use systray::protocol::{check_request_bytes, ItemInfo, Response, CMD_HIDE, CMD_LIST, CMD_SHOW};

#[test]
fn response_ok() {
    let r = Response::ok();
    assert!(r.ok);
    assert_eq!(r.error, None);
    assert_eq!(r.items, None);
}

#[test]
fn response_err() {
    let r = Response::err("boom".to_string());
    assert!(!r.ok);
    assert_eq!(r.error, Some("boom".to_string()));
    assert_eq!(r.items, None);
}

#[test]
fn response_with_items() {
    let info = ItemInfo { id: "a".to_string(), icon: "i".to_string(), tooltip: "t".to_string(), pid: Some(3) };
    let r = Response::with_items(vec![info.clone()]);
    assert!(r.ok);
    assert_eq!(r.error, None);
    assert_eq!(r.items, Some(vec![info]));
}

#[test]
fn command_names() {
    assert_eq!(CMD_SHOW, "show");
    assert_eq!(CMD_HIDE, "hide");
    assert_eq!(CMD_LIST, "list");
}

#[test]
fn request_bytes() {
    assert_eq!(check_request_bytes(b""), Err("empty request".to_string()));
    assert_eq!(check_request_bytes(b"{}"), Ok(()));
}
