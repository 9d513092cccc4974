use hypanel_core::errors::SupervisorError;
use hypanel_core::launch::plan_launch;
use hypanel_core::launch::start_failure;
use hypanel_core::launch::start_success;
use hypanel_core::registry::ProcessHandle;
use hypanel_core::registry::Registry;

#[test]
fn full_command_assembly() {
    let reg = Registry::new();
    let id = String::from("inst-1");
    let plan = plan_launch(
        &reg,
        &id,
        "/srv/inst",
        &Some(String::from("/opt/jdk/bin/java")),
        &Some(String::from("-Xmx4G -Xms1G")),
        &Some(String::from("--port 5520")),
        true,
        true,
        true,
    )
    .expect("launch must be planned");
    assert_eq!(plan.program, "/opt/jdk/bin/java");
    assert_eq!(plan.working_dir, "/srv/inst/Server");
    assert_eq!(
        plan.args,
        vec![
            String::from("-Xmx4G"),
            String::from("-Xms1G"),
            String::from("-XX:AOTCache=/srv/inst/Server/HytaleServer.aot"),
            String::from("-jar"),
            String::from("/srv/inst/Server/HytaleServer.jar"),
            String::from("--assets"),
            String::from("/srv/inst/Assets.zip"),
            String::from("--port"),
            String::from("5520"),
        ]
    );
}

#[test]
fn minimal_command_uses_defaults() {
    let reg = Registry::new();
    let id = String::from("inst-1");
    let plan = plan_launch(&reg, &id, "/srv/inst", &None, &None, &None, true, true, false)
        .expect("launch must be planned");
    assert_eq!(plan.program, "java");
    assert_eq!(
        plan.args,
        vec![
            String::from("-jar"),
            String::from("/srv/inst/Server/HytaleServer.jar"),
            String::from("--assets"),
            String::from("/srv/inst/Assets.zip"),
        ]
    );
}

#[test]
fn running_instance_cannot_be_started_again() {
    let mut reg = Registry::new();
    let id = String::from("inst-1");
    assert!(reg.register(ProcessHandle::new(id.clone(), 1)).is_ok());
    let r = plan_launch(&reg, &id, "/srv/inst", &None, &None, &None, true, true, false);
    assert!(matches!(r, Err(SupervisorError::AlreadyRunning)));
}

#[test]
fn missing_artifacts_are_named_in_order() {
    let reg = Registry::new();
    let id = String::from("inst-1");
    match plan_launch(&reg, &id, "/srv/inst", &None, &None, &None, false, false, false) {
        Err(SupervisorError::ArtifactMissing(p)) => {
            assert_eq!(p, "/srv/inst/Server/HytaleServer.jar")
        }
        other => panic!("expected missing jar, got {:?}", other.map(|p| p.program)),
    }
    match plan_launch(&reg, &id, "/srv/inst", &None, &None, &None, true, false, false) {
        Err(SupervisorError::ArtifactMissing(p)) => assert_eq!(p, "/srv/inst/Assets.zip"),
        other => panic!("expected missing assets, got {:?}", other.map(|p| p.program)),
    }
}

#[test]
fn start_result_envelopes() {
    let ok = start_success(321);
    assert!(ok.success);
    assert_eq!(ok.pid, Some(321));
    assert_eq!(ok.error, None);
    let err = start_failure(&SupervisorError::SpawnFailed(String::from("no such file")));
    assert!(!err.success);
    assert_eq!(err.pid, None);
    assert_eq!(err.error.as_deref(), Some("Failed to start server: no such file"));
}

#[test]
fn error_messages() {
    assert_eq!(
        SupervisorError::AlreadyRunning.message(),
        "Server is already running"
    );
    assert_eq!(
        SupervisorError::ArtifactMissing(String::from("/x/y")).message(),
        "Server file not found: /x/y"
    );
    assert_eq!(
        SupervisorError::WriteFailed.message(),
        "Failed to write to server stdin"
    );
    assert_eq!(
        SupervisorError::WaitFailed.message(),
        "Failed to wait on server process"
    );
    assert_eq!(
        SupervisorError::SignalFailed.message(),
        "Failed to signal server process"
    );
}
