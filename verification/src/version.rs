//! Version tracking: comparing what an instance has installed with what
//! the download utility reports as available.
//!
//! Reading the database and running the utility stay with the embedding
//! program; the comparison rule — an update is available exactly when
//! both versions are known and differ — and the settings defaults are
//! specified here.

use vstd::prelude::*;

use vstd::string::StringExecFns;

use crate::text::clone_opt_string;
use crate::text::opt_string_eq;

verus! {

/// When version checks run.
#[derive(Debug, Clone, PartialEq, Eq, Structural)]
pub struct VersionSettings {
    pub check_on_startup: bool,
    pub check_periodic: bool,
    pub check_on_server_start: bool,
}

impl Default for VersionSettings {
    /// Checks run at startup and before a server start, not periodically.
    fn default() -> (r: Self)
        ensures
            r.check_on_startup,
            !r.check_periodic,
            r.check_on_server_start,
    {
        VersionSettings {
            check_on_startup: true,
            check_periodic: false,
            check_on_server_start: true,
        }
    }
}

/// One stored server installation, as the persistent store describes it.
#[derive(Debug, Clone, PartialEq, Eq)]
pub struct Instance {
    pub id: String,
    pub name: String,
    pub path: String,
    pub java_path: Option<String>,
    pub jvm_args: Option<String>,
    pub server_args: Option<String>,
    pub created_at: String,
    pub updated_at: String,
    pub auth_status: Option<String>,
    pub auth_persistence: Option<String>,
    pub auth_profile_name: Option<String>,
    pub installed_version: Option<String>,
}

/// The version report for one instance.
#[derive(Debug, Clone, PartialEq, Eq)]
pub struct VersionCheckResult {
    pub instance_id: String,
    pub instance_name: String,
    pub installed_version: Option<String>,
    pub available_version: Option<String>,
    pub update_available: bool,
    pub version_unknown: bool,
}

/// The payload published when updates are found.
#[derive(Debug, Clone, PartialEq, Eq)]
pub struct VersionUpdateEvent {
    pub results: Vec<VersionCheckResult>,
    pub available_version: String,
}

/// An update is available exactly when both versions are known and differ.
pub open spec fn update_available_spec(
    installed: Option<String>,
    available: Option<String>,
) -> bool {
    match (installed, available) {
        (Some(a), Some(b)) => a@ != b@,
        _ => false,
    }
}

/// The version report of one instance against the available version.
pub fn version_check_for(instance: &Instance, available: &Option<String>) -> (r:
    VersionCheckResult)
    ensures
        r.instance_id@ == instance.id@,
        r.instance_name@ == instance.name@,
        opt_string_eq(r.installed_version, instance.installed_version),
        opt_string_eq(r.available_version, *available),
        r.version_unknown == (instance.installed_version is None),
        r.update_available == update_available_spec(instance.installed_version, *available),
{
    let version_unknown = instance.installed_version.is_none();
    let update_available = match (&instance.installed_version, available) {
        (Some(a), Some(b)) => !(*a == *b),
        _ => false,
    };
    VersionCheckResult {
        instance_id: instance.id.clone(),
        instance_name: instance.name.clone(),
        installed_version: clone_opt_string(&instance.installed_version),
        available_version: clone_opt_string(available),
        update_available,
        version_unknown,
    }
}

/// The version reports of every stored instance, in order.
pub fn version_check_all(instances: &Vec<Instance>, available: &Option<String>) -> (r: Vec<
    VersionCheckResult,
>)
    ensures
        r@.len() == instances@.len(),
        forall|i: int|
            0 <= i < r@.len() ==> {
                let c = #[trigger] r@[i];
                let inst = instances@[i];
                c.instance_id@ == inst.id@ && c.instance_name@ == inst.name@ && opt_string_eq(
                    c.installed_version,
                    inst.installed_version,
                ) && opt_string_eq(c.available_version, *available) && c.version_unknown == (
                inst.installed_version is None) && c.update_available == update_available_spec(
                    inst.installed_version,
                    *available,
                )
            },
{
    let n = instances.len();
    let mut r: Vec<VersionCheckResult> = Vec::new();
    let mut k: usize = 0;
    while k < n
        invariant
            k <= n == instances@.len(),
            r@.len() == k,
            forall|i: int|
                0 <= i < k ==> {
                    let c = #[trigger] r@[i];
                    let inst = instances@[i];
                    c.instance_id@ == inst.id@ && c.instance_name@ == inst.name@ && opt_string_eq(
                        c.installed_version,
                        inst.installed_version,
                    ) && opt_string_eq(c.available_version, *available) && c.version_unknown == (
                    inst.installed_version is None) && c.update_available
                        == update_available_spec(inst.installed_version, *available)
                },
        decreases n - k,
    {
        let c = version_check_for(&instances[k], available);
        r.push(c);
        k += 1;
    }
    r
}

/// Reads one stored boolean setting: `true` means on, any other stored
/// text means off, and an absent setting means the given default.
pub fn setting_flag(value: &Option<String>, default_on: bool) -> (r: bool)
    ensures
        r == (match value {
            Some(v) => v@ == "true"@,
            None => default_on,
        }),
{
    match value {
        Some(v) => *v == String::from_str("true"),
        None => default_on,
    }
}

} // verus!
