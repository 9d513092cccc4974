//! The termination protocol and the exit monitor's decisions.
//!
//! Stopping an instance is a state machine: signal gracefully, poll for
//! exit under a bounded budget, escalate to a forced kill, then reclaim
//! the registry entry.  The embedding program performs each `StopAction`
//! (signals, sleeps, process polls) and feeds back what it observed; all
//! decisions, and the guarantee that the sequence finishes within its
//! budget, live here.

use vstd::prelude::*;

use crate::errors::SupervisorError;
use crate::registry::Registry;
use crate::registry::ServerStatus;
use crate::registry::ServerStatusInfo;
use crate::text::chars_to_string;
use crate::text::str_to_chars;

verus! {

/// Milliseconds between two polls of the exit monitor.
pub const EXIT_POLL_INTERVAL_MS: u64 = 500;

/// Milliseconds between two polls while a stop waits for a graceful exit.
pub const STOP_POLL_INTERVAL_MS: u64 = 200;

/// How many stop polls fit in the ten-second termination timeout.
pub const STOP_POLL_BUDGET: u32 = 50;

/// Milliseconds a stop waits in all for a graceful exit before escalating.
pub const STOP_TIMEOUT_MS: u64 = 10000;

/// The wait budget covers exactly the termination timeout: the polls of
/// one stop sequence, at their interval, add up to ten seconds.
pub proof fn lemma_budget_covers_timeout()
    ensures
        STOP_POLL_BUDGET * STOP_POLL_INTERVAL_MS == STOP_TIMEOUT_MS,
{
}

/// Where the stop sequence stands.
#[derive(Debug, Clone, Copy, PartialEq, Eq, Structural)]
pub enum StopPhase {
    /// The graceful signal has not been sent yet.
    Signaling,
    /// Waiting for the process to exit on the graceful signal.
    Waiting,
    /// The wait budget ran out; the forced kill has been requested.
    Killing,
    /// Nothing is left to do but reclaim the registry entry.
    Done,
}

/// What the embedding program must do next; it carries the pid to act on.
#[derive(Debug, Clone, Copy, PartialEq, Eq, Structural)]
pub enum StopAction {
    /// Deliver the cooperative termination signal.
    SignalGraceful(u32),
    /// Sleep one poll interval, then check the process again.
    PollWait,
    /// Deliver the forceful, non-cooperative kill signal.
    ForceKill(u32),
    /// The sequence is over; reclaim the registry entry.
    Finish,
}

/// One stop sequence for one instance.
#[derive(Debug)]
pub struct StopProtocol {
    pub instance_id: String,
    pub pid: u32,
    pub polls_remaining: u32,
    pub phase: StopPhase,
}

impl StopProtocol {
    /// How many more steps the protocol can take before it is done.
    pub open spec fn fuel(self) -> int {
        match self.phase {
            StopPhase::Signaling => self.polls_remaining + 3,
            StopPhase::Waiting => self.polls_remaining + 2,
            StopPhase::Killing => 1,
            StopPhase::Done => 0,
        }
    }

    /// The state after one step, given whether the process was seen to exit.
    pub open spec fn step_spec(self, exited: bool) -> StopProtocol {
        match self.phase {
            StopPhase::Signaling => StopProtocol { phase: StopPhase::Waiting, ..self },
            StopPhase::Waiting => if exited {
                StopProtocol { phase: StopPhase::Done, ..self }
            } else if self.polls_remaining > 0 {
                StopProtocol { polls_remaining: (self.polls_remaining - 1) as u32, ..self }
            } else {
                StopProtocol { phase: StopPhase::Killing, ..self }
            },
            StopPhase::Killing => StopProtocol { phase: StopPhase::Done, ..self },
            StopPhase::Done => self,
        }
    }

    /// The action one step asks of the embedding program.
    pub open spec fn action_spec(self, exited: bool) -> StopAction {
        match self.phase {
            StopPhase::Signaling => StopAction::SignalGraceful(self.pid),
            StopPhase::Waiting => if exited {
                StopAction::Finish
            } else if self.polls_remaining > 0 {
                StopAction::PollWait
            } else {
                StopAction::ForceKill(self.pid)
            },
            StopPhase::Killing => StopAction::Finish,
            StopPhase::Done => StopAction::Finish,
        }
    }

    /// Advances the protocol one step.
    ///
    /// Each step strictly consumes fuel, so the sequence always finishes;
    /// a delivery failure of either signal does not stall it (the caller
    /// reports only whether the process exited).
    pub fn next(&mut self, exited: bool) -> (a: StopAction)
        requires
            old(self).phase != StopPhase::Done,
        ensures
            *final(self) == old(self).step_spec(exited),
            a == old(self).action_spec(exited),
            final(self).fuel() < old(self).fuel(),
    {
        match self.phase {
            StopPhase::Signaling => {
                self.phase = StopPhase::Waiting;
                StopAction::SignalGraceful(self.pid)
            },
            StopPhase::Waiting => {
                if exited {
                    self.phase = StopPhase::Done;
                    StopAction::Finish
                } else if self.polls_remaining > 0 {
                    self.polls_remaining = self.polls_remaining - 1;
                    StopAction::PollWait
                } else {
                    self.phase = StopPhase::Killing;
                    StopAction::ForceKill(self.pid)
                }
            },
            StopPhase::Killing => {
                self.phase = StopPhase::Done;
                StopAction::Finish
            },
            StopPhase::Done => StopAction::Finish,
        }
    }
}

/// The protocol after consuming one observation per step, stopping early
/// once it is done.
pub open spec fn run_steps(p: StopProtocol, observations: Seq<bool>) -> StopProtocol
    decreases observations.len(),
{
    if observations.len() == 0 || p.phase == StopPhase::Done {
        p
    } else {
        run_steps(p.step_spec(observations[0]), observations.skip(1))
    }
}

/// The stop sequence finishes within its fuel, whatever the process does:
/// any run at least `fuel` observations long ends in `Done`, even one
/// where the process never exits and the forced kill is taken.
pub proof fn lemma_stop_completes(p: StopProtocol, observations: Seq<bool>)
    requires
        observations.len() >= p.fuel(),
    ensures
        run_steps(p, observations).phase == StopPhase::Done,
    decreases observations.len(),
{
    if observations.len() == 0 {
    } else if p.phase == StopPhase::Done {
    } else {
        assert(p.step_spec(observations[0]).fuel() < p.fuel());
        lemma_stop_completes(p.step_spec(observations[0]), observations.skip(1));
    }
}

/// When the process has ignored the graceful signal for the whole wait
/// budget, the next action is the forced kill, and the sequence is done
/// one step later.
pub proof fn lemma_force_kill_on_timeout(p: StopProtocol)
    requires
        p.phase == StopPhase::Waiting,
        p.polls_remaining == 0,
    ensures
        p.action_spec(false) == StopAction::ForceKill(p.pid),
        p.step_spec(false).step_spec(false).phase == StopPhase::Done,
{
}

/// Starts the stop sequence for `id`.
///
/// Fails with `NotRunning`, and yields no status event, exactly when the
/// identifier is absent; otherwise returns the protocol and the
/// `Stopping` status event to publish.
pub fn begin_stop(registry: &Registry, id: &String) -> (r: Result<
    (StopProtocol, ServerStatusInfo),
    SupervisorError,
>)
    requires
        registry.wf(),
    ensures
        match r {
            Ok(p) => registry.contains_id(id@) && p.0.instance_id@ == id@ && p.0.pid
                == registry.handle_of(id@).pid && p.0.phase == StopPhase::Signaling
                && p.0.polls_remaining == STOP_POLL_BUDGET && p.1.status == ServerStatus::Stopping
                && p.1.instance_id@ == id@ && p.1.pid is None && p.1.started_at is None,
            Err(e) => e == SupervisorError::NotRunning && !registry.contains_id(id@),
        },
{
    match registry.lookup(id) {
        Some(h) => {
            let protocol = StopProtocol {
                instance_id: id.clone(),
                pid: h.pid,
                polls_remaining: STOP_POLL_BUDGET,
                phase: StopPhase::Signaling,
            };
            let event = ServerStatusInfo {
                status: ServerStatus::Stopping,
                instance_id: id.clone(),
                pid: None,
                started_at: None,
            };
            Ok((protocol, event))
        },
        None => Err(SupervisorError::NotRunning),
    }
}

/// Ends the stop sequence: reclaims the registry entry and, when this
/// call was the one that removed it, yields the `Stopped` status event.
///
/// Removal is idempotent with the exit monitor's cleanup; whichever runs
/// first emits, so `Stopped` is published exactly once.
pub fn finish_stop(registry: &mut Registry, protocol: &StopProtocol) -> (r: Option<
    ServerStatusInfo,
>)
    requires
        old(registry).wf(),
        protocol.phase == StopPhase::Done,
    ensures
        final(registry).wf(),
        !final(registry).contains_id(protocol.instance_id@),
        forall|other: Seq<char>|
            other != protocol.instance_id@ ==> #[trigger] final(registry).contains_id(other)
                == old(registry).contains_id(other),
        match r {
            Some(ev) => old(registry).contains_id(protocol.instance_id@) && ev.status
                == ServerStatus::Stopped && ev.instance_id@ == protocol.instance_id@
                && ev.pid is None && ev.started_at is None,
            None => !old(registry).contains_id(protocol.instance_id@),
        },
{
    let was_present = registry.remove(&protocol.instance_id);
    if was_present {
        Some(
            ServerStatusInfo {
                status: ServerStatus::Stopped,
                instance_id: protocol.instance_id.clone(),
                pid: None,
                started_at: None,
            },
        )
    } else {
        None
    }
}

/// What one exit-monitor poll observed of the OS process.
#[derive(Debug, Clone, Copy, PartialEq, Eq, Structural)]
pub enum PollObservation {
    /// The process has not terminated.
    StillRunning,
    /// The process has terminated, normally or not.
    Exited,
    /// Waiting on the process failed; the process is treated as gone.
    WaitError,
}

/// What the exit monitor must do after one poll.
#[derive(Debug, Clone, Copy, PartialEq, Eq, Structural)]
pub enum MonitorVerdict {
    /// The entry is gone (an explicit stop owns it); leave silently.
    Disengage,
    /// Still running: sleep one interval and poll again.
    KeepWatching,
    /// The process ended unattended: clean up and publish.
    CleanupNow,
}

/// The monitor's decision from registry presence and the poll result.
pub open spec fn monitor_verdict_spec(present: bool, obs: PollObservation) -> MonitorVerdict {
    if !present {
        MonitorVerdict::Disengage
    } else if obs == PollObservation::StillRunning {
        MonitorVerdict::KeepWatching
    } else {
        MonitorVerdict::CleanupNow
    }
}

/// Decides one tick of the exit monitor for `id`.
pub fn monitor_poll(registry: &Registry, id: &String, obs: PollObservation) -> (v: MonitorVerdict)
    requires
        registry.wf(),
    ensures
        v == monitor_verdict_spec(registry.contains_id(id@), obs),
{
    if !registry.contains(id) {
        MonitorVerdict::Disengage
    } else if obs == PollObservation::StillRunning {
        MonitorVerdict::KeepWatching
    } else {
        MonitorVerdict::CleanupNow
    }
}

/// Cleans up after an unattended exit: removes the entry and, when this
/// call was the one that removed it, yields the `Stopped` status event
/// and the terminal exited event's payload.
pub fn finish_exit(registry: &mut Registry, id: &String) -> (r: Option<(ServerStatusInfo, String)>)
    requires
        old(registry).wf(),
    ensures
        final(registry).wf(),
        !final(registry).contains_id(id@),
        forall|other: Seq<char>|
            other != id@ ==> #[trigger] final(registry).contains_id(other) == old(
                registry,
            ).contains_id(other),
        match r {
            Some(ev) => old(registry).contains_id(id@) && ev.0.status == ServerStatus::Stopped
                && ev.0.instance_id@ == id@ && ev.0.pid is None && ev.0.started_at is None
                && ev.1@ == id@,
            None => !old(registry).contains_id(id@),
        },
{
    let was_present = registry.remove(id);
    if was_present {
        Some(
            (
                ServerStatusInfo {
                    status: ServerStatus::Stopped,
                    instance_id: id.clone(),
                    pid: None,
                    started_at: None,
                },
                id.clone(),
            ),
        )
    } else {
        None
    }
}

/// Once the registry entry for `id` is gone, every later monitor poll
/// disengages and a new stop reports `NotRunning`: the terminal events
/// for one process lifetime are published at most once, by whichever of
/// the exit monitor and the termination protocol removed the entry.
pub proof fn lemma_terminal_events_once(registry: Registry, id: Seq<char>, obs: PollObservation)
    requires
        !registry.contains_id(id),
    ensures
        monitor_verdict_spec(registry.contains_id(id), obs) == MonitorVerdict::Disengage,
{
}

/// The outcome envelope of a stop request.
#[derive(Debug, Clone, PartialEq, Eq)]
pub struct StopResult {
    pub success: bool,
    pub error: Option<String>,
}

/// A successful stop.
pub fn stop_success() -> (r: StopResult)
    ensures
        r.success,
        r.error is None,
{
    StopResult { success: true, error: None }
}

/// A failed stop, carrying the error's message.
pub fn stop_failure(err: &SupervisorError) -> (r: StopResult)
    ensures
        !r.success,
        match r.error {
            Some(m) => m@ == err.message_spec(),
            None => false,
        },
{
    StopResult { success: false, error: Some(err.message()) }
}

/// The text of a command with exactly the terminator the stdin writer
/// sends: itself when it already ends in a newline, else with one
/// appended.
pub open spec fn with_newline_spec(s: Seq<char>) -> Seq<char> {
    if s.len() > 0 && s[s.len() - 1] == '\n' {
        s
    } else {
        s.push('\n')
    }
}

/// Prepares one operator command for the stdin writer.
pub fn prepare_command(text: &str) -> (r: String)
    ensures
        r@ == with_newline_spec(text@),
        r@.len() > 0,
        r@[r@.len() - 1] == '\n',
{
    let mut v = str_to_chars(text);
    let n = v.len();
    if n == 0 || v[n - 1] != '\n' {
        v.push('\n');
    }
    chars_to_string(&v)
}

} // verus!
