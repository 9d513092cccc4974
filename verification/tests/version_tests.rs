use hypanel_core::version::Instance;
use hypanel_core::version::VersionSettings;
use hypanel_core::version::setting_flag;
use hypanel_core::version::version_check_all;
use hypanel_core::version::version_check_for;

fn instance(id: &str, installed: Option<&str>) -> Instance {
    Instance {
        id: String::from(id),
        name: format!("name-{}", id),
        path: String::from("/srv"),
        java_path: None,
        jvm_args: None,
        server_args: None,
        created_at: String::from("2025-01-01T00:00:00Z"),
        updated_at: String::from("2025-01-01T00:00:00Z"),
        auth_status: None,
        auth_persistence: None,
        auth_profile_name: None,
        installed_version: installed.map(String::from),
    }
}

#[test]
fn update_flag_needs_both_versions() {
    let available = Some(String::from("0.2.0"));
    let outdated = version_check_for(&instance("a", Some("0.1.0")), &available);
    assert!(outdated.update_available);
    assert!(!outdated.version_unknown);

    let current = version_check_for(&instance("b", Some("0.2.0")), &available);
    assert!(!current.update_available);

    let unknown = version_check_for(&instance("c", None), &available);
    assert!(!unknown.update_available);
    assert!(unknown.version_unknown);

    let no_remote = version_check_for(&instance("d", Some("0.1.0")), &None);
    assert!(!no_remote.update_available);
}

#[test]
fn report_carries_identity_and_versions() {
    let r = version_check_for(&instance("a", Some("0.1.0")), &Some(String::from("0.2.0")));
    assert_eq!(r.instance_id, "a");
    assert_eq!(r.instance_name, "name-a");
    assert_eq!(r.installed_version.as_deref(), Some("0.1.0"));
    assert_eq!(r.available_version.as_deref(), Some("0.2.0"));
}

#[test]
fn all_instances_are_reported_in_order() {
    let instances = vec![
        instance("a", Some("0.1.0")),
        instance("b", None),
        instance("c", Some("0.2.0")),
    ];
    let rs = version_check_all(&instances, &Some(String::from("0.2.0")));
    assert_eq!(rs.len(), 3);
    assert_eq!(rs[0].instance_id, "a");
    assert!(rs[0].update_available);
    assert!(rs[1].version_unknown);
    assert!(!rs[2].update_available);
}

#[test]
fn settings_defaults_and_flags() {
    let d = VersionSettings::default();
    assert!(d.check_on_startup);
    assert!(!d.check_periodic);
    assert!(d.check_on_server_start);

    assert!(setting_flag(&Some(String::from("true")), false));
    assert!(!setting_flag(&Some(String::from("false")), true));
    assert!(!setting_flag(&Some(String::from("TRUE")), true));
    assert!(setting_flag(&None, true));
    assert!(!setting_flag(&None, false));
}
