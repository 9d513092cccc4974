use hypanel_core::registry::ProcessHandle;
use hypanel_core::registry::Registry;
use hypanel_core::registry::ServerStatus;

#[test]
fn a_default_registry_is_empty() {
    let reg = Registry::default();
    assert!(reg.status_all().is_empty());
}

#[test]
fn absent_instance_reports_stopped() {
    let reg = Registry::new();
    let id = String::from("never-started");
    let info = reg.status(&id);
    assert_eq!(info.status, ServerStatus::Stopped);
    assert_eq!(info.instance_id, "never-started");
    assert_eq!(info.pid, None);
    assert_eq!(info.started_at, None);
}

#[test]
fn registered_instance_reports_running() {
    let mut reg = Registry::new();
    let id = String::from("inst-1");
    let handle = ProcessHandle::new(id.clone(), 4242);
    assert!(reg.register(handle).is_ok());
    let info = reg.status(&id);
    assert_eq!(info.status, ServerStatus::Running);
    assert_eq!(info.pid, Some(4242));
    assert!(info.started_at.is_some());
}

#[test]
fn second_start_with_same_id_is_rejected() {
    let mut reg = Registry::new();
    let id = String::from("inst-1");
    assert!(reg.register(ProcessHandle::new(id.clone(), 1)).is_ok());
    let second = reg.register(ProcessHandle::new(id.clone(), 2));
    assert!(matches!(
        second,
        Err(hypanel_core::errors::SupervisorError::AlreadyRunning)
    ));
    let all = reg.status_all();
    assert_eq!(all.len(), 1);
    assert_eq!(all[0].pid, Some(1));
}

#[test]
fn removal_is_idempotent() {
    let mut reg = Registry::new();
    let id = String::from("inst-1");
    assert!(reg.register(ProcessHandle::new(id.clone(), 7)).is_ok());
    assert!(reg.remove(&id));
    assert!(!reg.remove(&id));
    assert_eq!(reg.status(&id).status, ServerStatus::Stopped);
}

#[test]
fn removal_keeps_other_instances() {
    let mut reg = Registry::new();
    let a = String::from("a");
    let b = String::from("b");
    assert!(reg.register(ProcessHandle::new(a.clone(), 1)).is_ok());
    assert!(reg.register(ProcessHandle::new(b.clone(), 2)).is_ok());
    assert!(reg.remove(&a));
    assert_eq!(reg.status(&a).status, ServerStatus::Stopped);
    assert_eq!(reg.status(&b).status, ServerStatus::Running);
}

#[test]
fn lookup_copies_the_handle() {
    let mut reg = Registry::new();
    let id = String::from("inst-1");
    assert!(reg.register(ProcessHandle::new(id.clone(), 99)).is_ok());
    let h = reg.lookup(&id).expect("handle expected");
    assert_eq!(h.pid, 99);
    assert_eq!(h.instance_id, "inst-1");
    assert!(h.stdin_open);
    assert!(reg.lookup(&String::from("other")).is_none());
}

#[test]
fn stdin_closure_blocks_sending() {
    let mut reg = Registry::new();
    let id = String::from("inst-1");
    assert!(reg.register(ProcessHandle::new(id.clone(), 5)).is_ok());
    assert!(reg.can_send(&id));
    assert!(reg.mark_stdin_closed(&id));
    assert!(!reg.can_send(&id));
    assert_eq!(reg.status(&id).status, ServerStatus::Running);
    assert!(!reg.can_send(&String::from("absent")));
}

#[test]
fn status_all_lists_in_registration_order() {
    let mut reg = Registry::new();
    assert!(reg.register(ProcessHandle::new(String::from("a"), 1)).is_ok());
    assert!(reg.register(ProcessHandle::new(String::from("b"), 2)).is_ok());
    let all = reg.status_all();
    assert_eq!(all.len(), 2);
    assert_eq!(all[0].instance_id, "a");
    assert_eq!(all[1].instance_id, "b");
    assert!(all.iter().all(|s| s.status == ServerStatus::Running));
}
