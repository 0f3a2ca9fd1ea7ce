use led_control::lifecycle::{exit_status, on_stop_signal, StopAction};

#[test]
fn signals_escalate() {
    assert_eq!(on_stop_signal(1), StopAction::ShutDownGracefully);
    assert_eq!(on_stop_signal(2), StopAction::Warn);
    assert_eq!(on_stop_signal(3), StopAction::ExitNow);
    assert_eq!(on_stop_signal(4), StopAction::ExitNow);
}

#[test]
fn exit_statuses() {
    assert_eq!(exit_status(StopAction::ShutDownGracefully), Some(0));
    assert_eq!(exit_status(StopAction::Warn), None);
    assert_eq!(exit_status(StopAction::ExitNow), Some(1));
}
