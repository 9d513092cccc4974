//! The process registry: the single source of truth for "is instance X
//! running".
//!
//! The registry maps instance identifiers to process handles; keys are
//! unique and an identifier is present exactly while a started process
//! has neither been stopped nor observed to exit.  The embedding program
//! serialises access (one registry behind one lock); every operation here
//! is a plain value-level step with an exact contract.

use vstd::prelude::*;

use crate::errors::SupervisorError;

verus! {

/// The derived run state of one instance.
#[derive(Debug, Clone, Copy, PartialEq, Eq, Structural)]
pub enum ServerStatus {
    Stopped,
    Starting,
    Running,
    Stopping,
}

/// A point-in-time status report for one instance.
#[derive(Debug, Clone, PartialEq, Eq)]
pub struct ServerStatusInfo {
    pub status: ServerStatus,
    pub instance_id: String,
    pub pid: Option<u32>,
    pub started_at: Option<String>,
}

/// The supervisor's exclusive-ownership record for one live OS process.
///
/// The OS process itself is owned by the embedding program; the handle
/// carries what status queries and the stop sequence need: the process
/// id, the start timestamp, and whether the command channel is open.
#[derive(Debug)]
pub struct ProcessHandle {
    pub pid: u32,
    pub instance_id: String,
    pub started_at: String,
    pub stdin_open: bool,
}

impl ProcessHandle {
    /// A fresh handle for a process spawned now; its command channel is open.
    pub fn new(instance_id: String, pid: u32) -> (r: ProcessHandle)
        ensures
            r.instance_id@ == instance_id@,
            r.pid == pid,
            r.stdin_open,
    {
        ProcessHandle {
            pid,
            instance_id,
            started_at: crate::clock::now_rfc3339(),
            stdin_open: true,
        }
    }
}

/// The transient `Starting` status event published before a spawn.
pub fn starting_event(instance_id: &String) -> (r: ServerStatusInfo)
    ensures
        r.status == ServerStatus::Starting,
        r.instance_id@ == instance_id@,
        r.pid is None,
        r.started_at is None,
{
    ServerStatusInfo {
        status: ServerStatus::Starting,
        instance_id: instance_id.clone(),
        pid: None,
        started_at: None,
    }
}

/// The `Running` status event published once a handle is registered.
pub fn running_event(handle: &ProcessHandle) -> (r: ServerStatusInfo)
    ensures
        r.status == ServerStatus::Running,
        r.instance_id@ == handle.instance_id@,
        r.pid == Some(handle.pid),
        match r.started_at {
            Some(s) => s@ == handle.started_at@,
            None => false,
        },
{
    ServerStatusInfo {
        status: ServerStatus::Running,
        instance_id: handle.instance_id.clone(),
        pid: Some(handle.pid),
        started_at: Some(handle.started_at.clone()),
    }
}

/// The `Stopped` status event published when a start attempt fails after
/// the `Starting` announcement.
pub fn stopped_event(instance_id: &String) -> (r: ServerStatusInfo)
    ensures
        r.status == ServerStatus::Stopped,
        r.instance_id@ == instance_id@,
        r.pid is None,
        r.started_at is None,
{
    ServerStatusInfo {
        status: ServerStatus::Stopped,
        instance_id: instance_id.clone(),
        pid: None,
        started_at: None,
    }
}

/// The number of entries of `s` whose instance identifier is `id`.
pub open spec fn count_id(s: Seq<ProcessHandle>, id: Seq<char>) -> int
    decreases s.len(),
{
    if s.len() == 0 {
        0
    } else {
        (if s[0].instance_id@ == id {
            1int
        } else {
            0int
        }) + count_id(s.skip(1), id)
    }
}

/// The mapping from instance identifier to process handle.
pub struct Registry {
    entries: Vec<ProcessHandle>,
}

impl View for Registry {
    type V = Seq<ProcessHandle>;

    closed spec fn view(&self) -> Seq<ProcessHandle> {
        self.entries@
    }
}

impl Default for Registry {
    /// An empty registry, as `new` builds one.
    fn default() -> (r: Registry)
        ensures
            r.wf(),
            r@.len() == 0,
    {
        Registry::new()
    }
}

impl Registry {
    /// Identifiers are unique: the registry is a map.
    pub open spec fn wf(self) -> bool {
        forall|i: int, j: int|
            0 <= i < j < self@.len() ==> self@[i].instance_id@ != self@[j].instance_id@
    }

    /// The identifier is present: its instance is running.
    pub open spec fn contains_id(self, id: Seq<char>) -> bool {
        exists|i: int| 0 <= i < self@.len() && self@[i].instance_id@ == id
    }

    /// The position of the entry for `id`, when present.
    pub open spec fn index_of(self, id: Seq<char>) -> int {
        choose|i: int| 0 <= i < self@.len() && self@[i].instance_id@ == id
    }

    /// The handle registered for `id`, when present.
    pub open spec fn handle_of(self, id: Seq<char>) -> ProcessHandle {
        self@[self.index_of(id)]
    }

    /// An empty registry: nothing is running.
    pub fn new() -> (r: Registry)
        ensures
            r.wf(),
            r@.len() == 0,
    {
        Registry { entries: Vec::new() }
    }

    /// The position of the entry for `id`, or the length when absent.
    fn find_index(&self, id: &String) -> (r: usize)
        ensures
            r <= self@.len(),
            r < self@.len() ==> self@[r as int].instance_id@ == id@ && self.contains_id(id@)
                && forall|t: int| 0 <= t < r ==> self@[t].instance_id@ != id@,
            r == self@.len() ==> !self.contains_id(id@),
    {
        let n = self.entries.len();
        let mut k: usize = 0;
        while k < n
            invariant
                k <= n == self@.len(),
                forall|t: int| 0 <= t < k ==> self@[t].instance_id@ != id@,
            decreases n - k,
        {
            if self.entries[k].instance_id == *id {
                return k;
            }
            k += 1;
        }
        n
    }

    /// Inserts a handle for its instance identifier.
    ///
    /// Fails with `AlreadyRunning`, mutating nothing, when the identifier
    /// is already present; otherwise the registry grows by exactly this
    /// entry.
    pub fn register(&mut self, handle: ProcessHandle) -> (r: Result<(), SupervisorError>)
        requires
            old(self).wf(),
        ensures
            final(self).wf(),
            match r {
                Ok(()) => {
                    &&& !old(self).contains_id(handle.instance_id@)
                    &&& final(self)@ == old(self)@.push(handle)
                    &&& final(self).contains_id(handle.instance_id@)
                    &&& final(self).handle_of(handle.instance_id@) == handle
                },
                Err(e) => e == SupervisorError::AlreadyRunning && old(self).contains_id(
                    handle.instance_id@,
                ) && final(self)@ == old(self)@,
            },
    {
        let k = self.find_index(&handle.instance_id);
        if k < self.entries.len() {
            return Err(SupervisorError::AlreadyRunning);
        }
        let ghost id = handle.instance_id@;
        let ghost pre = self@;
        self.entries.push(handle);
        proof {
            assert(self@[pre.len() as int].instance_id@ == id);
            assert(self.contains_id(id));
            let w = self.index_of(id);
            assert(self@[w].instance_id@ == id);
            assert(w == pre.len() as int);
        }
        Ok(())
    }

    /// Removes the entry for `id`, reporting whether one was present.
    ///
    /// Removing an absent identifier is a no-op: removal is idempotent.
    pub fn remove(&mut self, id: &String) -> (was_present: bool)
        requires
            old(self).wf(),
        ensures
            final(self).wf(),
            was_present == old(self).contains_id(id@),
            !final(self).contains_id(id@),
            forall|other: Seq<char>|
                other != id@ ==> #[trigger] final(self).contains_id(other) == old(
                    self,
                ).contains_id(other),
            was_present ==> final(self)@ == old(self)@.remove(old(self).index_of(id@)),
            !was_present ==> final(self)@ == old(self)@,
    {
        let k = self.find_index(id);
        if k < self.entries.len() {
            let ghost pre = self@;
            self.entries.remove(k);
            proof {
                assert(pre[old(self).index_of(id@)].instance_id@ == id@);
                assert(old(self).index_of(id@) == k as int);
                assert forall|t: int|
                    0 <= t < self@.len() implies self@[t].instance_id@ != id@ by {
                    if t < k {
                        assert(self@[t] == pre[t]);
                    } else {
                        assert(self@[t] == pre[t + 1]);
                    }
                }
                assert forall|other: Seq<char>|
                    other != id@ && old(self).contains_id(other) implies self.contains_id(
                    other,
                ) by {
                    let w = choose|i: int|
                        0 <= i < pre.len() && pre[i].instance_id@ == other;
                    if w < k {
                        assert(self@[w] == pre[w]);
                    } else {
                        assert(w != k);
                        assert(self@[w - 1] == pre[w]);
                    }
                }
                assert forall|other: Seq<char>|
                    other != id@ && self.contains_id(other) implies old(self).contains_id(
                    other,
                ) by {
                    let w = choose|i: int|
                        0 <= i < self@.len() && self@[i].instance_id@ == other;
                    if w < k {
                        assert(pre[w] == self@[w]);
                    } else {
                        assert(pre[w + 1] == self@[w]);
                    }
                }
            }
            true
        } else {
            false
        }
    }

    /// Whether the instance is currently registered.
    pub fn contains(&self, id: &String) -> (r: bool)
        ensures
            r == self.contains_id(id@),
    {
        let k = self.find_index(id);
        k < self.entries.len()
    }

    /// A field-for-field copy of the handle registered for `id`.
    pub fn lookup(&self, id: &String) -> (r: Option<ProcessHandle>)
        requires
            self.wf(),
        ensures
            match r {
                Some(h) => self.contains_id(id@) && h.instance_id@ == id@ && h.pid
                    == self.handle_of(id@).pid && h.started_at@ == self.handle_of(
                    id@,
                ).started_at@ && h.stdin_open == self.handle_of(id@).stdin_open,
                None => !self.contains_id(id@),
            },
    {
        let k = self.find_index(id);
        if k < self.entries.len() {
            proof {
                let w = self.index_of(id@);
                assert(self@[w].instance_id@ == id@);
                assert(w == k as int);
            }
            let h = &self.entries[k];
            Some(
                ProcessHandle {
                    pid: h.pid,
                    instance_id: h.instance_id.clone(),
                    started_at: h.started_at.clone(),
                    stdin_open: h.stdin_open,
                },
            )
        } else {
            None
        }
    }

    /// The status of one instance: `Running` with its pid and start time
    /// while the identifier is registered, `Stopped` otherwise.
    pub fn status(&self, id: &String) -> (r: ServerStatusInfo)
        requires
            self.wf(),
        ensures
            r.instance_id@ == id@,
            r.status == (if self.contains_id(id@) {
                ServerStatus::Running
            } else {
                ServerStatus::Stopped
            }),
            self.contains_id(id@) ==> r.pid == Some(self.handle_of(id@).pid) && match r.started_at {
                Some(s) => s@ == self.handle_of(id@).started_at@,
                None => false,
            },
            !self.contains_id(id@) ==> r.pid is None && r.started_at is None,
    {
        match self.lookup(id) {
            Some(h) => ServerStatusInfo {
                status: ServerStatus::Running,
                instance_id: id.clone(),
                pid: Some(h.pid),
                started_at: Some(h.started_at),
            },
            None => ServerStatusInfo {
                status: ServerStatus::Stopped,
                instance_id: id.clone(),
                pid: None,
                started_at: None,
            },
        }
    }

    /// A point-in-time copy of every entry's status, in registration order.
    pub fn status_all(&self) -> (r: Vec<ServerStatusInfo>)
        requires
            self.wf(),
        ensures
            r@.len() == self@.len(),
            forall|i: int|
                0 <= i < r@.len() ==> (#[trigger] r@[i]).status == ServerStatus::Running
                    && r@[i].instance_id@ == self@[i].instance_id@ && r@[i].pid == Some(
                    self@[i].pid,
                ) && match r@[i].started_at {
                    Some(s) => s@ == self@[i].started_at@,
                    None => false,
                },
    {
        let n = self.entries.len();
        let mut r: Vec<ServerStatusInfo> = Vec::new();
        let mut k: usize = 0;
        while k < n
            invariant
                k <= n == self@.len(),
                r@.len() == k,
                forall|i: int|
                    0 <= i < k ==> (#[trigger] r@[i]).status == ServerStatus::Running
                        && r@[i].instance_id@ == self@[i].instance_id@ && r@[i].pid == Some(
                        self@[i].pid,
                    ) && match r@[i].started_at {
                        Some(s) => s@ == self@[i].started_at@,
                        None => false,
                    },
            decreases n - k,
        {
            let h = &self.entries[k];
            r.push(
                ServerStatusInfo {
                    status: ServerStatus::Running,
                    instance_id: h.instance_id.clone(),
                    pid: Some(h.pid),
                    started_at: Some(h.started_at.clone()),
                },
            );
            k += 1;
        }
        r
    }

    /// Whether a command can be enqueued: the instance is running and its
    /// command channel is still open.
    pub fn can_send(&self, id: &String) -> (r: bool)
        requires
            self.wf(),
        ensures
            r == (self.contains_id(id@) && self.handle_of(id@).stdin_open),
    {
        match self.lookup(id) {
            Some(h) => h.stdin_open,
            None => false,
        }
    }

    /// Records that the instance's stdin has closed; its handle keeps
    /// everything else.  Reports whether the instance was present.
    pub fn mark_stdin_closed(&mut self, id: &String) -> (was_present: bool)
        requires
            old(self).wf(),
        ensures
            final(self).wf(),
            was_present == old(self).contains_id(id@),
            final(self)@.len() == old(self)@.len(),
            forall|i: int|
                0 <= i < final(self)@.len() ==> {
                    let h = #[trigger] final(self)@[i];
                    let g = old(self)@[i];
                    h.instance_id@ == g.instance_id@ && h.pid == g.pid && h.started_at@
                        == g.started_at@ && h.stdin_open == (g.stdin_open && g.instance_id@ != id@)
                },
    {
        let k = self.find_index(id);
        if k < self.entries.len() {
            let pid = self.entries[k].pid;
            let old_id = self.entries[k].instance_id.clone();
            let started = self.entries[k].started_at.clone();
            let replacement = ProcessHandle {
                pid,
                instance_id: old_id,
                started_at: started,
                stdin_open: false,
            };
            self.entries.set(k, replacement);
            proof {
                assert forall|i: int| 0 <= i < self@.len() && i != k implies self@[i] == old(
                    self,
                )@[i] by {}
            }
            true
        } else {
            false
        }
    }
}

/// Appending one entry raises its identifier's count by one and leaves
/// every other identifier's count unchanged.
pub proof fn lemma_count_push(s: Seq<ProcessHandle>, h: ProcessHandle, id: Seq<char>)
    ensures
        count_id(s.push(h), id) == count_id(s, id) + (if h.instance_id@ == id {
            1int
        } else {
            0int
        }),
    decreases s.len(),
{
    let c = s.push(h);
    if s.len() == 0 {
        assert(c.skip(1) =~= Seq::<ProcessHandle>::empty());
        assert(c[0] == h);
        assert(count_id(Seq::<ProcessHandle>::empty(), id) == 0);
        assert(count_id(c.skip(1), id) == 0);
    } else {
        assert(c.skip(1) =~= s.skip(1).push(h));
        assert(c[0] == s[0]);
        lemma_count_push(s.skip(1), h, id);
        assert(count_id(c.skip(1), id) == count_id(s.skip(1).push(h), id));
    }
}

/// An identifier occurs in a sequence exactly as often as its count says:
/// zero times when no entry carries it.
pub proof fn lemma_count_absent(s: Seq<ProcessHandle>, id: Seq<char>)
    requires
        forall|i: int| 0 <= i < s.len() ==> s[i].instance_id@ != id,
    ensures
        count_id(s, id) == 0,
    decreases s.len(),
{
    if s.len() > 0 {
        assert forall|i: int| 0 <= i < s.skip(1).len() implies s.skip(1)[i].instance_id@ != id by {
            assert(s.skip(1)[i] == s[i + 1]);
        }
        lemma_count_absent(s.skip(1), id);
    }
}

/// A start that found its identifier free, followed at once by a second
/// start with the same identifier, fails the second time with
/// `AlreadyRunning` (the identifier is now present, which is exactly
/// `register`'s error case) and leaves exactly one entry for it.
pub proof fn lemma_second_start_rejected(before: Registry, h: ProcessHandle, after: Registry)
    requires
        before.wf(),
        !before.contains_id(h.instance_id@),
        after@ == before@.push(h),
    ensures
        after.contains_id(h.instance_id@),
        count_id(after@, h.instance_id@) == 1,
{
    assert(after@[before@.len() as int] == h);
    assert forall|i: int|
        0 <= i < before@.len() implies before@[i].instance_id@ != h.instance_id@ by {}
    lemma_count_absent(before@, h.instance_id@);
    lemma_count_push(before@, h, h.instance_id@);
}

} // verus!
