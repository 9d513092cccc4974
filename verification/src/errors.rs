//! The error taxonomy of the supervisor.

use vstd::prelude::*;

verus! {

/// Why a supervisor operation could not be carried out.
///
/// Precondition failures (`AlreadyRunning`, `ArtifactMissing`) are returned
/// to the caller before any registry mutation; runtime failures terminate
/// only the loop they occur in.
#[derive(Debug, Clone, PartialEq, Eq)]
pub enum SupervisorError {
    /// A start was requested for an instance that is already in the registry.
    AlreadyRunning,
    /// A stop or command was requested for an instance that is not running.
    NotRunning,
    /// A required launch artifact was not found; carries its path.
    ArtifactMissing(String),
    /// The OS process could not be spawned; carries the reason.
    SpawnFailed(String),
    /// Writing to the child's standard input failed.
    WriteFailed,
    /// Waiting on the child process failed.
    WaitFailed,
    /// Delivering a termination signal failed.
    SignalFailed,
}

impl SupervisorError {
    /// A human-readable description, as surfaced to callers.
    pub fn message(&self) -> (r: String)
        ensures
            r@ == self.message_spec(),
    {
        match self {
            SupervisorError::AlreadyRunning => String::from_str("Server is already running"),
            SupervisorError::NotRunning => String::from_str("Server is not running"),
            SupervisorError::ArtifactMissing(p) => {
                let mut s = String::from_str("Server file not found: ");
                s.append(p.as_str());
                s
            },
            SupervisorError::SpawnFailed(r) => {
                let mut s = String::from_str("Failed to start server: ");
                s.append(r.as_str());
                s
            },
            SupervisorError::WriteFailed => String::from_str("Failed to write to server stdin"),
            SupervisorError::WaitFailed => String::from_str("Failed to wait on server process"),
            SupervisorError::SignalFailed => String::from_str("Failed to signal server process"),
        }
    }

    /// What `message` returns, as a sequence of characters.
    pub open spec fn message_spec(&self) -> Seq<char> {
        match self {
            SupervisorError::AlreadyRunning => "Server is already running"@,
            SupervisorError::NotRunning => "Server is not running"@,
            SupervisorError::ArtifactMissing(p) => "Server file not found: "@ + p@,
            SupervisorError::SpawnFailed(r) => "Failed to start server: "@ + r@,
            SupervisorError::WriteFailed => "Failed to write to server stdin"@,
            SupervisorError::WaitFailed => "Failed to wait on server process"@,
            SupervisorError::SignalFailed => "Failed to signal server process"@,
        }
    }
}

} // verus!
