use systray::runner::{Actions, Forwarder};

#[test]
fn no_signal_no_action() {
    let mut f = Forwarder::new();
    assert_eq!(f.step(0, 0), Actions { forward: None, kill: false });
    assert_eq!(f.step(0, 5000), Actions { forward: None, kill: false });
}

#[test]
fn forward_once_then_kill_after_grace() {
    let mut f = Forwarder::new();
    assert_eq!(f.step(2, 100), Actions { forward: Some(2), kill: false });
    // The same signal is not forwarded again.
    assert_eq!(f.step(2, 150), Actions { forward: None, kill: false });
    assert_eq!(f.step(15, 2099), Actions { forward: None, kill: false });
    assert_eq!(f.step(2, 2100), Actions { forward: None, kill: true });
    // Killed once only.
    assert_eq!(f.step(2, 9000), Actions { forward: None, kill: false });
    assert!(f.forwarded);
    assert_eq!(f.kill_deadline, None);
}
