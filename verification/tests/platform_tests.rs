use hypanel_core::network::firewall_info_for;
use hypanel_core::network::make_rule_name;
use hypanel_core::network::ufw_rule_present;
use hypanel_core::network::ufw_status_active;
use hypanel_core::network::windows_firewall_enabled_output;
use hypanel_core::platform::DownloaderStatus;
use hypanel_core::platform::HostOs;
use hypanel_core::platform::downloader_info_from_path;
use hypanel_core::platform::downloader_status_from_path;
use hypanel_core::platform::get_downloader_executable;
use hypanel_core::platform::get_os;
use hypanel_core::platform::hytale_launcher_subpath;
use hypanel_core::platform::resolve_system_paths;
use hypanel_core::platform::server_files_status;
use hypanel_core::platform::which_output_path;

#[test]
fn os_names() {
    assert_eq!(get_os(HostOs::Windows), "windows");
    assert_eq!(get_os(HostOs::Linux), "linux");
    assert_eq!(get_os(HostOs::MacOs), "macos");
    assert_eq!(get_os(HostOs::Unknown), "unknown");
}

#[test]
fn downloader_executable_names() {
    assert_eq!(
        get_downloader_executable(HostOs::Windows),
        "hytale-downloader-windows-amd64.exe"
    );
    assert_eq!(
        get_downloader_executable(HostOs::MacOs),
        "hytale-downloader-darwin-amd64"
    );
    assert_eq!(
        get_downloader_executable(HostOs::Linux),
        "hytale-downloader-linux-amd64"
    );
}

#[test]
fn launcher_subpath() {
    assert_eq!(
        hytale_launcher_subpath("/home/me/.local/share"),
        "/home/me/.local/share/Hytale/install/release/package/game/latest"
    );
}

#[test]
fn system_paths_resolution() {
    let r = resolve_system_paths(&Some(String::from("/base")), true, false);
    assert_eq!(r.hytale_launcher_path.as_deref(), Some("/base"));
    assert_eq!(r.server_path.as_deref(), Some("/base/Server"));
    assert_eq!(r.assets_path, None);
    assert!(!r.exists);
    let both = resolve_system_paths(&Some(String::from("/base")), true, true);
    assert!(both.exists);
    assert_eq!(both.assets_path.as_deref(), Some("/base/Assets.zip"));
    let none = resolve_system_paths(&None, true, true);
    assert!(!none.exists);
    assert_eq!(none.hytale_launcher_path, None);
}

#[test]
fn downloader_reports() {
    let found = downloader_info_from_path(Some(String::from("/opt/cli")));
    assert!(found.available);
    assert_eq!(found.path.as_deref(), Some("/opt/cli"));
    assert_eq!(found.cli_version, None);
    let missing = downloader_info_from_path(None);
    assert!(!missing.available);

    let status: DownloaderStatus = downloader_status_from_path(None);
    assert!(!status.available);
    assert_eq!(status.error, None);
}

#[test]
fn which_output_parsing() {
    assert_eq!(
        which_output_path("/usr/bin/tool\n/other/line\n").as_deref(),
        Some("/usr/bin/tool")
    );
    assert_eq!(which_output_path("  padded  \nrest").as_deref(), Some("padded"));
    assert_eq!(which_output_path("\nsecond"), None);
    assert_eq!(which_output_path(""), None);
}

#[test]
fn server_files_report() {
    let r = server_files_status("/d", true, true, false);
    assert!(r.exists);
    assert!(r.has_server_jar);
    assert!(!r.has_assets);
    assert_eq!(r.server_path.as_deref(), Some("/d/Server/HytaleServer.jar"));
    let gone = server_files_status("/d", false, true, true);
    assert!(!gone.exists);
    assert_eq!(gone.server_path, None);
    let no_jar = server_files_status("/d", true, false, true);
    assert!(!no_jar.exists);
    assert!(no_jar.has_assets);
}

#[test]
fn firewall_output_classifiers() {
    assert!(windows_firewall_enabled_output("True\nFalse\nTrue"));
    assert!(!windows_firewall_enabled_output("False\nFalse"));
    assert!(ufw_status_active("Status: active\n"));
    assert!(!ufw_status_active("Status: inactive\n"));
    assert!(ufw_rule_present("[ 1] 5520/udp ALLOW IN Anywhere", 5520));
    assert!(!ufw_rule_present("[ 1] 5520/tcp ALLOW IN Anywhere", 5520));
}

#[test]
fn firewall_report_on_linux_with_ufw() {
    let info = firewall_info_for(
        HostOs::Linux,
        5520,
        "My Server",
        false,
        true,
        &Some(String::from("ufw")),
    );
    assert_eq!(info.os, "linux");
    assert_eq!(info.rule_name, "HyPanel - My Server");
    assert!(info.firewall_enabled);
    assert!(info.rule_exists);
    assert_eq!(info.command_to_add, "sudo ufw allow 5520/udp comment 'HyPanel - My Server'");
    assert_eq!(info.command_to_remove, "sudo ufw delete allow 5520/udp");
    assert_eq!(info.error, None);
}

#[test]
fn firewall_report_without_a_firewall() {
    let info = firewall_info_for(HostOs::Linux, 5520, "S", false, false, &None);
    assert!(!info.firewall_enabled);
    assert!(!info.rule_exists);
    assert_eq!(info.error.as_deref(), Some("No supported firewall detected"));
}

#[test]
fn firewall_report_on_windows() {
    let info = firewall_info_for(HostOs::Windows, 5520, "S", true, false, &None);
    assert_eq!(info.firewall_type.as_deref(), Some("Windows Firewall"));
    assert!(info.firewall_enabled);
    assert_eq!(
        info.command_to_add,
        "New-NetFirewallRule -DisplayName \"HyPanel - S\" -Direction Inbound -Protocol UDP -LocalPort 5520 -Action Allow"
    );
    assert_eq!(
        info.command_to_remove,
        "Remove-NetFirewallRule -DisplayName \"HyPanel - S\""
    );
    assert_eq!(make_rule_name("S"), "HyPanel - S");
}
