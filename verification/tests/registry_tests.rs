use scrcpy_core::registry::{
    HostOs, PollAction, PollOutcome, SessionRegistry, StopPlan, poll_action, stop_plan,
};

#[test]
fn stop_on_empty_registry_is_a_noop_success() {
    let mut reg = SessionRegistry::new();
    assert_eq!(reg.stop("device1"), None);
    assert_eq!(reg.active_count(), 0);
    assert_eq!(reg.handle_of("device1"), None);
}

#[test]
fn start_twice_keeps_exactly_one_entry() {
    let mut reg = SessionRegistry::new();
    assert_eq!(reg.start("device1", 11), None);
    assert_eq!(reg.active_count(), 1);
    let prior = reg.start("device1", 22);
    assert_eq!(prior, Some(11));
    assert_eq!(reg.active_count(), 1);
    assert_eq!(reg.handle_of("device1"), Some(22));
}

#[test]
fn sessions_for_distinct_devices_coexist() {
    let mut reg = SessionRegistry::new();
    reg.start("a", 1);
    reg.start("b", 2);
    assert_eq!(reg.active_count(), 2);
    assert!(reg.is_running("a"));
    assert!(reg.is_running("b"));
    assert_eq!(reg.stop("a"), Some(1));
    assert_eq!(reg.active_count(), 1);
    assert!(!reg.is_running("a"));
    assert!(reg.is_running("b"));
}

#[test]
fn stop_is_idempotent() {
    let mut reg = SessionRegistry::new();
    reg.start("a", 1);
    assert_eq!(reg.stop("a"), Some(1));
    assert_eq!(reg.stop("a"), None);
    assert_eq!(reg.active_count(), 0);
}

#[test]
fn poll_rules() {
    assert!(matches!(poll_action(false, PollOutcome::Running), PollAction::NotifyOnly));
    assert!(matches!(poll_action(true, PollOutcome::Running), PollAction::KeepWaiting));
    assert!(matches!(poll_action(true, PollOutcome::Exited), PollAction::RemoveAndNotify));
    assert!(matches!(poll_action(true, PollOutcome::CheckFailed), PollAction::RemoveAndNotify));
}

#[test]
fn stop_plans_by_platform() {
    assert!(matches!(stop_plan(HostOs::Windows, Some(7)), StopPlan::TaskKill(7)));
    assert!(matches!(stop_plan(HostOs::Linux, Some(7)), StopPlan::Signal(7)));
    assert!(matches!(stop_plan(HostOs::MacOs, Some(7)), StopPlan::Signal(7)));
    assert!(matches!(stop_plan(HostOs::Linux, None), StopPlan::ForceKill));
}
