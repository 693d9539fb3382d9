use tinyshell::close_flow::{CloseFlow, ConfirmedClose};

#[test]
fn close_is_asked_once_until_answered() {
    let mut flow = CloseFlow::new();
    assert!(flow.request());
    assert!(flow.prompt_open);
    assert!(!flow.request());
    flow.prompt_closed();
    assert!(flow.request());
}

#[test]
fn window_should_close_only_after_finishing() {
    let mut flow = CloseFlow::new();
    assert_eq!(flow.window_should_close(), (false, true));
    assert_eq!(flow.window_should_close(), (false, false));
    assert!(flow.finalize());
    assert_eq!(flow.window_should_close(), (true, false));
}

#[test]
fn confirming_before_sync_waits_for_it() {
    let mut flow = CloseFlow::new();
    assert!(flow.request());
    assert_eq!(flow.confirmed(7), ConfirmedClose::AwaitSync);
    assert_eq!(flow.pending_window, Some(7));
    assert!(!flow.prompt_open);
    assert!(!flow.request());
    flow.sync_finished();
    assert_eq!(flow.approve_pending(), Some(7));
    assert_eq!(flow.pending_window, None);
    assert_eq!(flow.approve_pending(), None);
}

#[test]
fn confirming_after_sync_finishes_now() {
    let mut flow = CloseFlow::new();
    assert!(flow.request());
    flow.sync_finished();
    assert_eq!(flow.confirmed(3), ConfirmedClose::FinishNow);
    assert_eq!(flow.pending_window, None);
    assert!(flow.finalize());
    assert!(!flow.finalize());
    assert!(!flow.request());
}

#[test]
fn cancelling_keeps_the_window() {
    let mut flow = CloseFlow::new();
    assert!(flow.request());
    assert_eq!(flow.confirmed(5), ConfirmedClose::AwaitSync);
    flow.cancelled();
    assert_eq!(flow.pending_window, None);
    assert!(!flow.prompt_open);
    assert!(flow.request());
}

#[test]
fn failed_approval_lets_the_user_ask_again() {
    let mut flow = CloseFlow::new();
    assert!(flow.request());
    flow.approval_failed();
    assert!(!flow.prompt_open);
    assert!(flow.request());
}
