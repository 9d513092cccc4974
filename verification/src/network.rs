//! Firewall reporting: classifying what the platform's firewall tools
//! printed and assembling the per-host report.
//!
//! Running those tools is the embedding program's work; the rule naming,
//! the output classifiers and the command strings offered to the
//! operator are specified here.

use vstd::prelude::*;
use vstd::string::StringExecFns;

use crate::platform::HostOs;
use crate::platform::os_name_spec;
use crate::text::contains_seq;
use crate::text::contains_sub;
use crate::text::dec_digits_spec;
use crate::text::str_to_chars;
use crate::text::u32_to_string;

verus! {

/// The firewall state for one port, as reported to the caller.
#[derive(Debug, Clone, PartialEq, Eq)]
pub struct FirewallInfo {
    pub os: String,
    pub firewall_type: Option<String>,
    pub firewall_enabled: bool,
    pub rule_exists: bool,
    pub rule_name: String,
    pub port: u16,
    pub command_to_add: String,
    pub command_to_remove: String,
    pub error: Option<String>,
}

/// The outcome of adding or removing a firewall rule.
#[derive(Debug, Clone, PartialEq, Eq)]
pub struct FirewallResult {
    pub success: bool,
    pub message: String,
    pub error: Option<String>,
}

/// The display name of the rule managed for one server.
pub open spec fn rule_name_spec(server_name: Seq<char>) -> Seq<char> {
    "HyPanel - "@ + server_name
}

/// Builds the display name of the rule managed for one server.
pub fn make_rule_name(server_name: &str) -> (r: String)
    ensures
        r@ == rule_name_spec(server_name@),
{
    let mut s = String::from_str("HyPanel - ");
    s.append(server_name);
    s
}

/// A firewall-profile listing reports some profile enabled.
pub fn windows_firewall_enabled_output(stdout: &str) -> (r: bool)
    ensures
        r == contains_seq(stdout@, "True"@),
{
    let v = str_to_chars(stdout);
    contains_sub(&v, &str_to_chars("True"))
}

/// A ufw status listing reports the firewall active.
pub fn ufw_status_active(stdout: &str) -> (r: bool)
    ensures
        r == contains_seq(stdout@, "Status: active"@),
{
    let v = str_to_chars(stdout);
    contains_sub(&v, &str_to_chars("Status: active"))
}

/// A numbered ufw listing mentions a UDP rule for the port.
pub fn ufw_rule_present(stdout: &str, port: u16) -> (r: bool)
    ensures
        r == contains_seq(stdout@, dec_digits_spec(port as nat) + "/udp"@),
{
    let mut pat = u32_to_string(port as u32);
    pat.append("/udp");
    let v = str_to_chars(stdout);
    contains_sub(&v, &str_to_chars(pat.as_str()))
}

/// The command that adds the rule on Windows.
pub open spec fn windows_add_cmd_spec(rule: Seq<char>, port: nat) -> Seq<char> {
    "New-NetFirewallRule -DisplayName \""@ + rule
        + "\" -Direction Inbound -Protocol UDP -LocalPort "@ + dec_digits_spec(port)
        + " -Action Allow"@
}

/// The command that removes the rule on Windows.
pub open spec fn windows_remove_cmd_spec(rule: Seq<char>) -> Seq<char> {
    "Remove-NetFirewallRule -DisplayName \""@ + rule + "\""@
}

/// The command that adds the rule under ufw.
pub open spec fn ufw_add_cmd_spec(rule: Seq<char>, port: nat) -> Seq<char> {
    "sudo ufw allow "@ + dec_digits_spec(port) + "/udp comment '"@ + rule + "'"@
}

/// The command that removes the rule under ufw.
pub open spec fn ufw_remove_cmd_spec(port: nat) -> Seq<char> {
    "sudo ufw delete allow "@ + dec_digits_spec(port) + "/udp"@
}

/// The command that adds the rule under iptables.
pub open spec fn iptables_add_cmd_spec(rule: Seq<char>, port: nat) -> Seq<char> {
    "sudo iptables -A INPUT -p udp --dport "@ + dec_digits_spec(port)
        + " -j ACCEPT -m comment --comment \""@ + rule + "\""@
}

/// The command that removes the rule under iptables.
pub open spec fn iptables_remove_cmd_spec(port: nat) -> Seq<char> {
    "sudo iptables -D INPUT -p udp --dport "@ + dec_digits_spec(port) + " -j ACCEPT"@
}

/// The manual edit offered on macOS.
pub open spec fn macos_add_cmd_spec(port: nat) -> Seq<char> {
    "# Add to /etc/pf.conf:\npass in proto udp from any to any port "@ + dec_digits_spec(port)
}

/// Assembles the firewall report for one port on one host.
///
/// On Windows the caller supplies what the profile listing and the rule
/// query showed; on Linux, which firewall was detected and whether its
/// rule listing mentioned the port.  macOS and unknown hosts get fixed
/// reports asking for manual configuration.
pub fn firewall_info_for(
    host: HostOs,
    port: u16,
    server_name: &str,
    windows_enabled: bool,
    rule_exists: bool,
    linux_firewall: &Option<String>,
) -> (r: FirewallInfo)
    ensures
        r.os@ == os_name_spec(host),
        r.rule_name@ == rule_name_spec(server_name@),
        r.port == port,
        match host {
            HostOs::Windows => {
                &&& match r.firewall_type {
                    Some(t) => t@ == "Windows Firewall"@,
                    None => false,
                }
                &&& r.firewall_enabled == windows_enabled
                &&& r.rule_exists == rule_exists
                &&& r.command_to_add@ == windows_add_cmd_spec(
                    rule_name_spec(server_name@),
                    port as nat,
                )
                &&& r.command_to_remove@ == windows_remove_cmd_spec(rule_name_spec(server_name@))
                &&& r.error is None
            },
            HostOs::Linux => {
                &&& crate::text::opt_string_eq(r.firewall_type, *linux_firewall)
                &&& r.firewall_enabled == (linux_firewall is Some)
                &&& match linux_firewall {
                    Some(kind) => {
                        if kind@ == "ufw"@ {
                            r.rule_exists == rule_exists && r.command_to_add@ == ufw_add_cmd_spec(
                                rule_name_spec(server_name@),
                                port as nat,
                            ) && r.command_to_remove@ == ufw_remove_cmd_spec(port as nat)
                                && r.error is None
                        } else if kind@ == "iptables"@ {
                            r.rule_exists == rule_exists && r.command_to_add@
                                == iptables_add_cmd_spec(rule_name_spec(server_name@), port as nat)
                                && r.command_to_remove@ == iptables_remove_cmd_spec(port as nat)
                                && r.error is None
                        } else {
                            !r.rule_exists && r.command_to_add@ == Seq::<char>::empty()
                                && r.command_to_remove@ == Seq::<char>::empty()
                                && r.error is None
                        }
                    },
                    None => !r.rule_exists && r.command_to_add@ == Seq::<char>::empty()
                        && r.command_to_remove@ == Seq::<char>::empty() && match r.error {
                        Some(m) => m@ == "No supported firewall detected"@,
                        None => false,
                    },
                }
            },
            HostOs::MacOs => {
                &&& match r.firewall_type {
                    Some(t) => t@ == "macOS Firewall"@,
                    None => false,
                }
                &&& r.firewall_enabled
                &&& !r.rule_exists
                &&& r.command_to_add@ == macos_add_cmd_spec(port as nat)
                &&& r.command_to_remove@ == "# Remove the rule from /etc/pf.conf"@
                &&& match r.error {
                    Some(m) => m@ == "macOS firewall requires manual configuration"@,
                    None => false,
                }
            },
            HostOs::Unknown => {
                &&& r.firewall_type is None
                &&& !r.firewall_enabled
                &&& !r.rule_exists
                &&& r.command_to_add@ == Seq::<char>::empty()
                &&& r.command_to_remove@ == Seq::<char>::empty()
                &&& match r.error {
                    Some(m) => m@ == "Unsupported operating system"@,
                    None => false,
                }
            },
        },
{
    let os = crate::platform::get_os(host);
    let rule_name = make_rule_name(server_name);
    let port_digits = u32_to_string(port as u32);
    match host {
        HostOs::Windows => {
            let mut add = String::from_str("New-NetFirewallRule -DisplayName \"");
            add.append(rule_name.as_str());
            add.append("\" -Direction Inbound -Protocol UDP -LocalPort ");
            add.append(port_digits.as_str());
            add.append(" -Action Allow");
            let mut remove = String::from_str("Remove-NetFirewallRule -DisplayName \"");
            remove.append(rule_name.as_str());
            remove.append("\"");
            FirewallInfo {
                os,
                firewall_type: Some(String::from_str("Windows Firewall")),
                firewall_enabled: windows_enabled,
                rule_exists,
                rule_name,
                port,
                command_to_add: add,
                command_to_remove: remove,
                error: None,
            }
        },
        HostOs::Linux => {
            match linux_firewall {
                Some(kind) => {
                    if *kind == String::from_str("ufw") {
                        let mut add = String::from_str("sudo ufw allow ");
                        add.append(port_digits.as_str());
                        add.append("/udp comment '");
                        add.append(rule_name.as_str());
                        add.append("'");
                        let mut remove = String::from_str("sudo ufw delete allow ");
                        remove.append(port_digits.as_str());
                        remove.append("/udp");
                        FirewallInfo {
                            os,
                            firewall_type: Some(kind.clone()),
                            firewall_enabled: true,
                            rule_exists,
                            rule_name,
                            port,
                            command_to_add: add,
                            command_to_remove: remove,
                            error: None,
                        }
                    } else if *kind == String::from_str("iptables") {
                        let mut add = String::from_str("sudo iptables -A INPUT -p udp --dport ");
                        add.append(port_digits.as_str());
                        add.append(" -j ACCEPT -m comment --comment \"");
                        add.append(rule_name.as_str());
                        add.append("\"");
                        let mut remove = String::from_str(
                            "sudo iptables -D INPUT -p udp --dport ",
                        );
                        remove.append(port_digits.as_str());
                        remove.append(" -j ACCEPT");
                        FirewallInfo {
                            os,
                            firewall_type: Some(kind.clone()),
                            firewall_enabled: true,
                            rule_exists,
                            rule_name,
                            port,
                            command_to_add: add,
                            command_to_remove: remove,
                            error: None,
                        }
                    } else {
                        FirewallInfo {
                            os,
                            firewall_type: Some(kind.clone()),
                            firewall_enabled: true,
                            rule_exists: false,
                            rule_name,
                            port,
                            command_to_add: String::new(),
                            command_to_remove: String::new(),
                            error: None,
                        }
                    }
                },
                None => FirewallInfo {
                    os,
                    firewall_type: None,
                    firewall_enabled: false,
                    rule_exists: false,
                    rule_name,
                    port,
                    command_to_add: String::new(),
                    command_to_remove: String::new(),
                    error: Some(String::from_str("No supported firewall detected")),
                },
            }
        },
        HostOs::MacOs => {
            let mut add = String::from_str(
                "# Add to /etc/pf.conf:\npass in proto udp from any to any port ",
            );
            add.append(port_digits.as_str());
            FirewallInfo {
                os,
                firewall_type: Some(String::from_str("macOS Firewall")),
                firewall_enabled: true,
                rule_exists: false,
                rule_name,
                port,
                command_to_add: add,
                command_to_remove: String::from_str("# Remove the rule from /etc/pf.conf"),
                error: Some(String::from_str("macOS firewall requires manual configuration")),
            }
        },
        HostOs::Unknown => FirewallInfo {
            os,
            firewall_type: None,
            firewall_enabled: false,
            rule_exists: false,
            rule_name,
            port,
            command_to_add: String::new(),
            command_to_remove: String::new(),
            error: Some(String::from_str("Unsupported operating system")),
        },
    }
}

} // verus!
