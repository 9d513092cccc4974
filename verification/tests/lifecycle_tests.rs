use hypanel_core::errors::SupervisorError;
use hypanel_core::lifecycle::MonitorVerdict;
use hypanel_core::lifecycle::PollObservation;
use hypanel_core::lifecycle::STOP_POLL_BUDGET;
use hypanel_core::lifecycle::StopAction;
use hypanel_core::lifecycle::StopPhase;
use hypanel_core::lifecycle::begin_stop;
use hypanel_core::lifecycle::finish_exit;
use hypanel_core::lifecycle::finish_stop;
use hypanel_core::lifecycle::monitor_poll;
use hypanel_core::lifecycle::prepare_command;
use hypanel_core::lifecycle::stop_failure;
use hypanel_core::lifecycle::stop_success;
use hypanel_core::registry::ProcessHandle;
use hypanel_core::registry::Registry;
use hypanel_core::registry::ServerStatus;

#[test]
fn stop_of_absent_instance_fails_without_events() {
    let reg = Registry::new();
    let id = String::from("ghost");
    match begin_stop(&reg, &id) {
        Err(SupervisorError::NotRunning) => {}
        other => panic!("expected NotRunning, got {:?}", other.map(|p| p.1)),
    }
}

#[test]
fn graceful_stop_ends_in_stopped_status() {
    let mut reg = Registry::new();
    let id = String::from("inst-1");
    assert!(reg.register(ProcessHandle::new(id.clone(), 31)).is_ok());
    let (mut protocol, stopping) = begin_stop(&reg, &id).expect("instance is running");
    assert_eq!(stopping.status, ServerStatus::Stopping);
    assert_eq!(stopping.instance_id, "inst-1");
    assert_eq!(protocol.next(false), StopAction::SignalGraceful(31));
    assert_eq!(protocol.next(true), StopAction::Finish);
    assert_eq!(protocol.phase, StopPhase::Done);
    let stopped = finish_stop(&mut reg, &protocol).expect("first remover emits");
    assert_eq!(stopped.status, ServerStatus::Stopped);
    assert_eq!(reg.status(&id).status, ServerStatus::Stopped);
}

#[test]
fn ignored_signal_is_escalated_within_budget() {
    let mut reg = Registry::new();
    let id = String::from("stubborn");
    assert!(reg.register(ProcessHandle::new(id.clone(), 77)).is_ok());
    let (mut protocol, _) = begin_stop(&reg, &id).expect("instance is running");
    assert_eq!(protocol.next(false), StopAction::SignalGraceful(77));
    for _ in 0..STOP_POLL_BUDGET {
        assert_eq!(protocol.next(false), StopAction::PollWait);
    }
    assert_eq!(protocol.next(false), StopAction::ForceKill(77));
    assert_eq!(protocol.next(false), StopAction::Finish);
    assert_eq!(protocol.phase, StopPhase::Done);
    assert!(finish_stop(&mut reg, &protocol).is_some());
    assert_eq!(reg.status(&id).status, ServerStatus::Stopped);
}

#[test]
fn stop_does_not_emit_twice_after_monitor_cleanup() {
    let mut reg = Registry::new();
    let id = String::from("inst-1");
    assert!(reg.register(ProcessHandle::new(id.clone(), 8)).is_ok());
    let (mut protocol, _) = begin_stop(&reg, &id).expect("instance is running");
    protocol.next(false);
    // the exit monitor wins the race and cleans up first
    assert!(finish_exit(&mut reg, &id).is_some());
    protocol.next(true);
    assert_eq!(finish_stop(&mut reg, &protocol), None);
}

#[test]
fn monitor_disengages_once_entry_is_gone() {
    let mut reg = Registry::new();
    let id = String::from("inst-1");
    assert!(reg.register(ProcessHandle::new(id.clone(), 3)).is_ok());
    assert_eq!(
        monitor_poll(&reg, &id, PollObservation::StillRunning),
        MonitorVerdict::KeepWatching
    );
    assert_eq!(
        monitor_poll(&reg, &id, PollObservation::Exited),
        MonitorVerdict::CleanupNow
    );
    let (stopped, exited_id) = finish_exit(&mut reg, &id).expect("first cleanup emits");
    assert_eq!(stopped.status, ServerStatus::Stopped);
    assert_eq!(exited_id, "inst-1");
    assert_eq!(reg.status(&id).status, ServerStatus::Stopped);
    // a second cleanup neither emits nor finds anything to do
    assert_eq!(finish_exit(&mut reg, &id), None);
    assert_eq!(
        monitor_poll(&reg, &id, PollObservation::Exited),
        MonitorVerdict::Disengage
    );
}

#[test]
fn wait_errors_are_treated_as_exits() {
    let mut reg = Registry::new();
    let id = String::from("inst-1");
    assert!(reg.register(ProcessHandle::new(id.clone(), 3)).is_ok());
    assert_eq!(
        monitor_poll(&reg, &id, PollObservation::WaitError),
        MonitorVerdict::CleanupNow
    );
}

#[test]
fn commands_end_in_exactly_one_added_newline() {
    assert_eq!(prepare_command("stop"), "stop\n");
    assert_eq!(prepare_command("stop\n"), "stop\n");
    assert_eq!(prepare_command(""), "\n");
    assert_eq!(prepare_command("say hello"), "say hello\n");
}

#[test]
fn stop_result_envelopes() {
    let ok = stop_success();
    assert!(ok.success);
    assert_eq!(ok.error, None);
    let err = stop_failure(&SupervisorError::NotRunning);
    assert!(!err.success);
    assert_eq!(err.error.as_deref(), Some("Server is not running"));
}
