use pano::error::AppError;
use pano::listener::{
    accept_action, line_action, AcceptEvent, Lifecycle, LineAction, LineEvent, Phase, StartStep,
    TeardownPlan, WorkerAction, POLL_INTERVAL_MS,
};

#[test]
fn fresh_listener_binds() {
    let l = Lifecycle::new();
    assert_eq!(l.phase, Phase::Idle);
    assert!(!l.worker);
    assert_eq!(l.plan_start(false), StartStep::Bind);
}

#[test]
fn stale_file_is_removed_before_binding() {
    let l = Lifecycle::new();
    assert_eq!(l.plan_start(true), StartStep::RemoveStaleThenBind);
}

#[test]
fn second_start_is_refused() {
    let mut l = Lifecycle::new();
    l.started();
    assert_eq!(l.phase, Phase::Running);
    assert!(l.worker);
    assert_eq!(l.plan_start(false), StartStep::AlreadyStarted);
    assert_eq!(l.plan_start(true), StartStep::AlreadyStarted);
}

#[test]
fn teardown_after_start_joins_and_removes() {
    let mut l = Lifecycle::new();
    l.started();
    let plan = l.teardown(true);
    assert_eq!(plan, TeardownPlan { signal: true, join: true, remove_file: true });
    assert_eq!(l.phase, Phase::Stopped);
    assert!(!l.worker);
}

#[test]
fn teardown_is_idempotent() {
    let mut l = Lifecycle::new();
    l.started();
    l.teardown(true);
    let again = l.teardown(false);
    assert_eq!(again, TeardownPlan { signal: true, join: false, remove_file: false });
    assert_eq!(l.plan_start(false), StartStep::AlreadyStarted);
}

#[test]
fn teardown_without_start() {
    let mut l = Lifecycle::new();
    let plan = l.teardown(false);
    assert_eq!(plan, TeardownPlan { signal: true, join: false, remove_file: false });
    let plan = l.teardown(true);
    assert_eq!(plan, TeardownPlan { signal: true, join: false, remove_file: true });
}

#[test]
fn worker_accept_decisions() {
    assert_eq!(accept_action(false, AcceptEvent::Connection), WorkerAction::ReadConnection);
    assert_eq!(accept_action(false, AcceptEvent::WouldBlock), WorkerAction::Sleep);
    assert_eq!(accept_action(false, AcceptEvent::Failed), WorkerAction::LogAndRetry);
    assert_eq!(accept_action(true, AcceptEvent::Connection), WorkerAction::Exit);
    assert_eq!(accept_action(true, AcceptEvent::WouldBlock), WorkerAction::Exit);
    assert_eq!(accept_action(true, AcceptEvent::Failed), WorkerAction::Exit);
    assert_eq!(POLL_INTERVAL_MS, 100);
}

#[test]
fn worker_line_decisions() {
    assert_eq!(line_action(false, LineEvent::Line), LineAction::Handle);
    assert_eq!(line_action(false, LineEvent::Failed), LineAction::LogAndClose);
    assert_eq!(line_action(true, LineEvent::Line), LineAction::Stop);
    assert_eq!(line_action(true, LineEvent::Failed), LineAction::Stop);
}

#[test]
fn error_messages() {
    assert_eq!(AppError::Window("no display".to_string()).message(), "Window error: no display");
    assert_eq!(AppError::WebView("x".to_string()).message(), "WebView error: x");
    assert_eq!(AppError::Ipc("denied".to_string()).message(), "IPC error: denied");
    assert_eq!(AppError::Ipc(String::new()).message(), "IPC error: ");
}
