//! Host-dependent names and path resolution.
//!
//! Which operating system the supervisor runs on is a plain value handed
//! in by the embedding program; everything derived from it — executable
//! names, installation paths, availability reports — is specified here.

use vstd::prelude::*;
use vstd::string::StringExecFns;

use crate::text::find_first;
use crate::text::find_first_sub;
use crate::text::str_to_chars;
use crate::text::subvec;
use crate::text::trim_chars;
use crate::text::trim_spec;
use crate::launch::join_path;

verus! {

/// The operating system the supervisor runs on.
#[derive(Debug, Clone, Copy, PartialEq, Eq, Structural)]
pub enum HostOs {
    Windows,
    Linux,
    MacOs,
    Unknown,
}

/// The name each host goes by.
pub open spec fn os_name_spec(host: HostOs) -> Seq<char> {
    match host {
        HostOs::Windows => "windows"@,
        HostOs::Linux => "linux"@,
        HostOs::MacOs => "macos"@,
        HostOs::Unknown => "unknown"@,
    }
}

/// The name of the running operating system.
pub fn get_os(host: HostOs) -> (r: String)
    ensures
        r@ == os_name_spec(host),
{
    match host {
        HostOs::Windows => String::from_str("windows"),
        HostOs::Linux => String::from_str("linux"),
        HostOs::MacOs => String::from_str("macos"),
        HostOs::Unknown => String::from_str("unknown"),
    }
}

/// The download utility's executable name on each host; hosts without a
/// build of their own use the Linux one.
pub open spec fn downloader_executable_spec(host: HostOs) -> Seq<char> {
    match host {
        HostOs::Windows => "hytale-downloader-windows-amd64.exe"@,
        HostOs::MacOs => "hytale-downloader-darwin-amd64"@,
        HostOs::Linux => "hytale-downloader-linux-amd64"@,
        HostOs::Unknown => "hytale-downloader-linux-amd64"@,
    }
}

/// The download utility's executable name for this host.
pub fn get_downloader_executable(host: HostOs) -> (r: String)
    ensures
        r@ == downloader_executable_spec(host),
{
    match host {
        HostOs::Windows => String::from_str("hytale-downloader-windows-amd64.exe"),
        HostOs::MacOs => String::from_str("hytale-downloader-darwin-amd64"),
        HostOs::Linux => String::from_str("hytale-downloader-linux-amd64"),
        HostOs::Unknown => String::from_str("hytale-downloader-linux-amd64"),
    }
}

/// The game installation under a platform's data directory.
pub open spec fn launcher_subpath_spec(data_root: Seq<char>) -> Seq<char> {
    data_root + "/Hytale/install/release/package/game/latest"@
}

/// The launcher's game directory under the given platform data root.
pub fn hytale_launcher_subpath(data_root: &str) -> (r: String)
    ensures
        r@ == launcher_subpath_spec(data_root@),
{
    let mut s = String::from_str(data_root);
    s.append("/Hytale/install/release/package/game/latest");
    s
}

/// Where the launcher-installed server lives, if it does.
#[derive(Debug, Clone, PartialEq, Eq)]
pub struct SystemPaths {
    pub hytale_launcher_path: Option<String>,
    pub server_path: Option<String>,
    pub assets_path: Option<String>,
    pub exists: bool,
}

/// Assembles the system-paths report from the detected launcher path and
/// the two existence checks the embedding program ran under it.
pub fn resolve_system_paths(
    launcher_path: &Option<String>,
    server_exists: bool,
    assets_exists: bool,
) -> (r: SystemPaths)
    ensures
        match launcher_path {
            Some(base) => {
                &&& match r.hytale_launcher_path {
                    Some(p) => p@ == base@,
                    None => false,
                }
                &&& match r.server_path {
                    Some(p) => server_exists && p@ == join_path(base@, "Server"@),
                    None => !server_exists,
                }
                &&& match r.assets_path {
                    Some(p) => assets_exists && p@ == join_path(base@, "Assets.zip"@),
                    None => !assets_exists,
                }
                &&& r.exists == (server_exists && assets_exists)
            },
            None => r.hytale_launcher_path is None && r.server_path is None
                && r.assets_path is None && !r.exists,
        },
{
    match launcher_path {
        Some(base) => {
            let server_path = if server_exists {
                Some(crate::launch::join_path_str(base.as_str(), "Server"))
            } else {
                None
            };
            let assets_path = if assets_exists {
                Some(crate::launch::join_path_str(base.as_str(), "Assets.zip"))
            } else {
                None
            };
            SystemPaths {
                hytale_launcher_path: Some(base.clone()),
                server_path,
                assets_path,
                exists: server_exists && assets_exists,
            }
        },
        None => SystemPaths {
            hytale_launcher_path: None,
            server_path: None,
            assets_path: None,
            exists: false,
        },
    }
}

/// What is known of the download utility without running it.
#[derive(Debug, Clone, PartialEq, Eq)]
pub struct DownloaderInfo {
    pub available: bool,
    pub cli_version: Option<String>,
    pub game_version: Option<String>,
    pub path: Option<String>,
    pub error: Option<String>,
}

/// The availability report for a looked-up downloader path; versions are
/// only filled by running the utility, which happens elsewhere.
pub fn downloader_info_from_path(path: Option<String>) -> (r: DownloaderInfo)
    ensures
        r.available == (path is Some),
        crate::text::opt_string_eq(r.path, path),
        r.cli_version is None,
        r.game_version is None,
        r.error is None,
{
    let available = path.is_some();
    DownloaderInfo { available, cli_version: None, game_version: None, path, error: None }
}

/// Whether the download utility was found on the search path.
#[derive(Debug, Clone, PartialEq, Eq)]
pub struct DownloaderStatus {
    pub available: bool,
    pub path: Option<String>,
    pub error: Option<String>,
}

/// The availability report for a search-path lookup result.
pub fn downloader_status_from_path(path: Option<String>) -> (r: DownloaderStatus)
    ensures
        r.available == (path is Some),
        crate::text::opt_string_eq(r.path, path),
        r.error is None,
{
    let available = path.is_some();
    DownloaderStatus { available, path, error: None }
}

/// The first line of a command's output.
pub open spec fn first_line_spec(s: Seq<char>) -> Seq<char> {
    match find_first(s, "\n"@) {
        Some(i) => s.take(i),
        None => s,
    }
}

/// The path a `which`-style lookup printed: its first output line,
/// trimmed; nothing when that line is empty.
pub fn which_output_path(output: &str) -> (r: Option<String>)
    ensures
        ({
            let t = trim_spec(first_line_spec(output@));
            match r {
                Some(p) => t.len() > 0 && p@ == t,
                None => t.len() == 0,
            }
        }),
{
    let v = str_to_chars(output);
    let line = match find_first_sub(&v, &str_to_chars("\n")) {
        Some(i) => {
            let h = subvec(&v, 0, i);
            proof {
                assert(h@ =~= v@.take(i as int));
            }
            h
        },
        None => {
            let h = subvec(&v, 0, v.len());
            proof {
                assert(h@ =~= v@);
            }
            h
        },
    };
    proof {
        assert(line@ == first_line_spec(output@));
    }
    let trimmed = trim_chars(&line);
    if trimmed.len() == 0 {
        None
    } else {
        Some(crate::text::chars_to_string(&trimmed))
    }
}

/// Whether a directory holds the downloaded server files.
#[derive(Debug, Clone, PartialEq, Eq)]
pub struct ServerFilesStatus {
    pub exists: bool,
    pub has_server_jar: bool,
    pub has_assets: bool,
    pub server_path: Option<String>,
}

/// Assembles the server-files report from the existence checks the
/// embedding program ran; the main artifact is the indicator.
pub fn server_files_status(base_path: &str, base_exists: bool, has_jar: bool, has_assets: bool) -> (
    r: ServerFilesStatus)
    ensures
        !base_exists ==> !r.exists && !r.has_server_jar && !r.has_assets
            && r.server_path is None,
        base_exists ==> r.exists == has_jar && r.has_server_jar == has_jar && r.has_assets
            == has_assets && match r.server_path {
            Some(p) => has_jar && p@ == crate::launch::server_jar_path_spec(base_path@),
            None => !has_jar,
        },
{
    if !base_exists {
        return ServerFilesStatus {
            exists: false,
            has_server_jar: false,
            has_assets: false,
            server_path: None,
        };
    }
    let server_path = if has_jar {
        let d = crate::launch::join_path_str(base_path, "Server");
        Some(crate::launch::join_path_str(d.as_str(), "HytaleServer.jar"))
    } else {
        None
    };
    ServerFilesStatus { exists: has_jar, has_server_jar: has_jar, has_assets, server_path }
}

} // verus!
