use vstd::prelude::*;

use crate::error::{AppError, ErrorKind, Result};
use crate::process::{
    derive_health_state, health_state, InstanceProcess, InstanceRuntimeInfo, InstanceState,
};
use crate::monitor::{snapshot_of, LiveSnapshot};
use crate::registry::{keys_distinct, entries_map, lemma_entry_in_map, Registry};

verus! {

/// Whether `e` is a process error with message `msg`.
pub open spec fn process_error(e: AppError, msg: Seq<char>) -> bool {
    e.kind == ErrorKind::Process && e.message@ == msg
}

/// The refusal while the application shuts down.
pub open spec fn shutting_down_msg() -> Seq<char> {
    "Application shutting down"@
}

/// The refusal while a guard holds the instance.
pub open spec fn busy_msg() -> Seq<char> {
    "Another operation is in progress"@
}

/// The refusal to stop an instance that is already stopping.
pub open spec fn already_stopping_msg() -> Seq<char> {
    "Instance is already stopping"@
}

/// The refusal to stop an instance that is still starting.
pub open spec fn still_starting_msg() -> Seq<char> {
    "Instance is still starting"@
}

/// Each instance occupies at most one slot; the variant is its lifecycle phase.
#[derive(Debug)]
pub enum Slot {
    /// A create/read/update/delete operation holds the instance (guard held).
    Guarded,
    /// Launch in progress.
    Starting,
    /// Process running (healthy or unhealthy).
    Live(InstanceProcess),
    /// Shutdown in progress; keeps what the exit handler needs to kill it.
    Stopping { pid: u32, executable_path: String, port: u16, dashboard_enabled: bool },
}

/// The slot of `id` in `m`, if any.
pub open spec fn slot_of(m: Map<Seq<char>, Slot>, id: Seq<char>) -> Option<Slot> {
    if m.contains_key(id) {
        Some(m[id])
    } else {
        None
    }
}

/// Result of attempting to move a slot to `Stopping`.
#[derive(Debug)]
pub enum StopTransition {
    /// `Live` was moved to `Stopping`.
    Started { pid: u32, exe: String },
    /// The slot was already `Stopping`.
    AlreadyStopping,
    /// The slot is `Starting`.
    StillStarting,
    /// The slot is `Guarded`.
    Guarded,
    /// No slot exists.
    NotRunning,
}

/// What the exit handler needs to shut one instance down.
#[derive(Debug)]
pub struct ShutdownTarget {
    pub id: String,
    pub pid: u32,
    pub port: u16,
    pub executable_path: String,
}

/// A process that a launch produced.
#[derive(Debug)]
pub struct LaunchedProcess {
    pub pid: u32,
    pub executable_path: String,
    pub port: u16,
    pub dashboard_enabled: bool,
}

/// How a launch ended, once its slot has been settled.
#[derive(Debug)]
pub enum LaunchFinish {
    /// The instance is live on `port`; `Running` is to be announced.
    Running { port: u16 },
    /// The launch failed; the slot is gone and `Stopped` is to be announced.
    Failed(AppError),
    /// The application is shutting down; the slot is gone and `error` is
    /// the start's result. A process that started anyway is handed back to
    /// be killed.
    ShuttingDown { orphan: Option<LaunchedProcess>, error: AppError },
}

/// A hold on one instance that keeps lifecycle operations away from it.
/// It is given back with [`ProcessState::release_guard`].
#[derive(Debug)]
pub struct InstanceGuard {
    pub instance_id: String,
}

/// The Stopping slot that a Live process turns into.
pub open spec fn stopping_of(p: InstanceProcess) -> Slot {
    Slot::Stopping {
        pid: p.pid,
        executable_path: p.executable_path,
        port: p.port,
        dashboard_enabled: p.dashboard_enabled,
    }
}

/// The user-visible runtime info of a slot (`None` for a guard).
pub open spec fn runtime_info_of(s: Slot) -> Option<InstanceRuntimeInfo> {
    match s {
        Slot::Guarded => None,
        Slot::Starting => Some(InstanceRuntimeInfo::Starting),
        Slot::Live(p) => Some(
            InstanceRuntimeInfo::Live {
                state: health_state(p.health_failure_count),
                port: p.port,
                dashboard_enabled: p.dashboard_enabled,
            },
        ),
        Slot::Stopping { port, dashboard_enabled, .. } => Some(
            InstanceRuntimeInfo::Stopping { port, dashboard_enabled },
        ),
    }
}

/// Whether a slot counts as active (live or starting).
pub open spec fn is_active_slot(s: Slot) -> bool {
    s is Live || s is Starting
}

/// Whether a shutdown target carries what a slot holds.
pub open spec fn target_matches(t: ShutdownTarget, s: Slot) -> bool {
    match s {
        Slot::Live(p) => t.pid == p.pid && t.port == p.port && t.executable_path == p.executable_path,
        Slot::Stopping { pid, executable_path, port, .. } => t.pid == pid && t.port == port
            && t.executable_path == executable_path,
        _ => false,
    }
}

/// The process-tracking state: one slot per instance, and whether the
/// application is shutting down.
pub struct ProcessState {
    slots: Registry<Slot>,
    shutting_down: bool,
}

impl ProcessState {
    /// Well-formedness: every instance holds at most one slot.
    pub closed spec fn wf(&self) -> bool {
        self.slots.wf()
    }

    /// The slots, by instance id.
    pub closed spec fn slots(&self) -> Map<Seq<char>, Slot> {
        self.slots.view()
    }

    /// Whether the application is shutting down.
    pub closed spec fn shutting_down(&self) -> bool {
        self.shutting_down
    }

    /// No slots, not shutting down.
    pub fn new() -> (s: ProcessState)
        ensures
            s.wf(),
            s.slots() == Map::<Seq<char>, Slot>::empty(),
            !s.shutting_down(),
    {
        ProcessState { slots: Registry::new(), shutting_down: false }
    }

    /// Reject if the application is shutting down.
    pub fn check_active(&self) -> (r: Result<()>)
        ensures
            r is Ok <==> !self.shutting_down(),
            r matches Err(e) ==> process_error(e, shutting_down_msg()),
    {
        if self.shutting_down {
            return Err(AppError::process("Application shutting down"));
        }
        Ok(())
    }

    /// Reject if `id` already occupies a slot: a guard means another
    /// operation is in progress, any other slot means the instance runs.
    pub fn check_slot_vacant(&self, id: &str) -> (r: Result<()>)
        requires
            self.wf(),
        ensures
            match slot_of(self.slots(), id@) {
                None => r is Ok,
                Some(Slot::Guarded) => r matches Err(e) && process_error(e, busy_msg()),
                Some(_) => r matches Err(e) && e.kind == ErrorKind::InstanceRunning && e.message@ == "Instance is already running"@,
            },
    {
        match self.slots.get(id) {
            None => Ok(()),
            Some(Slot::Guarded) => Err(AppError::process("Another operation is in progress")),
            Some(_) => Err(AppError::instance_running()),
        }
    }

    /// Move a `Live` slot to `Stopping`; only that case changes the state.
    pub fn transition_to_stopping(&mut self, id: &str) -> (r: StopTransition)
        requires
            old(self).wf(),
        ensures
            final(self).wf(),
            final(self).shutting_down() == old(self).shutting_down(),
            match slot_of(old(self).slots(), id@) {
                Some(Slot::Live(p)) => {
                    &&& r == (StopTransition::Started { pid: p.pid, exe: p.executable_path })
                    &&& final(self).slots() == old(self).slots().insert(id@, stopping_of(p))
                },
                Some(Slot::Stopping { .. }) => r is AlreadyStopping && final(self).slots()
                    == old(self).slots(),
                Some(Slot::Starting) => r is StillStarting && final(self).slots()
                    == old(self).slots(),
                Some(Slot::Guarded) => r is Guarded && final(self).slots() == old(self).slots(),
                None => r is NotRunning && final(self).slots() == old(self).slots(),
            },
    {
        let next = match self.slots.get(id) {
            Some(Slot::Live(p)) => {
                let pid = p.pid;
                let exe = p.executable_path.clone();
                Some(
                    (
                        Slot::Stopping {
                            pid,
                            executable_path: p.executable_path.clone(),
                            port: p.port,
                            dashboard_enabled: p.dashboard_enabled,
                        },
                        StopTransition::Started { pid, exe },
                    ),
                )
            },
            Some(Slot::Stopping { .. }) => None,
            Some(Slot::Starting) => None,
            Some(Slot::Guarded) => None,
            None => None,
        };
        match next {
            Some((slot, outcome)) => {
                self.slots.insert(id.to_string(), slot);
                outcome
            },
            None => match self.slots.get(id) {
                Some(Slot::Stopping { .. }) => StopTransition::AlreadyStopping,
                Some(Slot::Starting) => StopTransition::StillStarting,
                Some(Slot::Guarded) => StopTransition::Guarded,
                _ => StopTransition::NotRunning,
            },
        }
    }

    /// Move a `Stopping` slot back to a fresh `Live` process (after a failed
    /// shutdown). Returns whether it did; any other slot is left as it is.
    pub fn revert_stop(&mut self, id: &str) -> (reverted: bool)
        requires
            old(self).wf(),
        ensures
            final(self).wf(),
            final(self).shutting_down() == old(self).shutting_down(),
            match slot_of(old(self).slots(), id@) {
                Some(Slot::Stopping { pid, executable_path, port, dashboard_enabled }) => {
                    &&& reverted
                    &&& final(self).slots() == old(self).slots().insert(
                        id@,
                        Slot::Live(InstanceProcess::fresh(pid, executable_path, port, dashboard_enabled)),
                    )
                },
                Some(_) => !reverted && final(self).slots() == old(self).slots(),
                None => !reverted && final(self).slots() == old(self).slots(),
            },
    {
        let stopping = match self.slots.get(id) {
            Some(Slot::Stopping { pid, executable_path, port, dashboard_enabled }) => Some(
                (*pid, executable_path.clone(), *port, *dashboard_enabled),
            ),
            _ => None,
        };
        match stopping {
            Some((pid, executable_path, port, dashboard_enabled)) => {
                self.slots.insert(
                    id.to_string(),
                    Slot::Live(InstanceProcess::new(pid, executable_path, port, dashboard_enabled)),
                );
                true
            },
            None => false,
        }
    }

    /// The port of a live instance; `None` in every other phase.
    pub fn get_port(&self, id: &str) -> (r: Option<u16>)
        requires
            self.wf(),
        ensures
            r == match slot_of(self.slots(), id@) {
                Some(Slot::Live(p)) => Some(p.port),
                _ => None,
            },
    {
        match self.slots.get(id) {
            Some(Slot::Live(p)) => Some(p.port),
            _ => None,
        }
    }

    /// The runtime info of every tracked instance that is not merely guarded,
    /// each id once.
    pub fn get_runtime_info(&self) -> (r: Vec<(String, InstanceRuntimeInfo)>)
        requires
            self.wf(),
        ensures
            keys_distinct(r@),
            forall|k: Seq<char>|
                #[trigger] entries_map(r@).contains_key(k) <==> (self.slots().contains_key(k)
                    && runtime_info_of(self.slots()[k]) is Some),
            forall|k: Seq<char>|
                #[trigger] entries_map(r@).contains_key(k) ==> Some(entries_map(r@)[k])
                    == runtime_info_of(self.slots()[k]),
    {
        let n = self.slots.len();
        let mut out: Vec<(String, InstanceRuntimeInfo)> = Vec::new();
        let mut i: usize = 0;
        proof {
            self.slots.lemma_positions();
        }
        while i < n
            invariant
                self.wf(),
                n == self.slots.spec_len(),
                i <= n,
                keys_distinct(out@),
                forall|j: int|
                    0 <= j < out@.len() ==> exists|a: int|
                        0 <= a < i && #[trigger] out@[j].0@ == self.slots.key_at(a),
                forall|a: int|
                    0 <= a < i && runtime_info_of(self.slots()[self.slots.key_at(a)]) is Some
                        ==> #[trigger] crate::registry::has_key(out@, self.slots.key_at(a)),
                forall|j: int|
                    0 <= j < out@.len() ==> self.slots().contains_key(#[trigger] out@[j].0@)
                        && Some(out@[j].1) == runtime_info_of(self.slots()[out@[j].0@]),
                forall|a: int|
                    0 <= a < self.slots.spec_len() ==> #[trigger] self.slots().contains_key(
                        self.slots.key_at(a),
                    ),
                forall|a: int, b: int|
                    0 <= a < self.slots.spec_len() && 0 <= b < self.slots.spec_len() && a != b
                        ==> #[trigger] self.slots.key_at(a) != #[trigger] self.slots.key_at(b),
                forall|k: Seq<char>|
                    #[trigger] self.slots().contains_key(k) ==> exists|a: int|
                        0 <= a < self.slots.spec_len() && #[trigger] self.slots.key_at(a) == k,
            decreases n - i,
        {
            let (id, slot) = self.slots.entry_at(i);
            let info = match slot {
                Slot::Guarded => None,
                Slot::Starting => Some(InstanceRuntimeInfo::Starting),
                Slot::Live(p) => Some(
                    InstanceRuntimeInfo::Live {
                        state: derive_health_state(p),
                        port: p.port,
                        dashboard_enabled: p.dashboard_enabled,
                    },
                ),
                Slot::Stopping { port, dashboard_enabled, .. } => Some(
                    InstanceRuntimeInfo::Stopping { port: *port, dashboard_enabled: *dashboard_enabled },
                ),
            };
            let ghost old_out = out@;
            match info {
                Some(info) => {
                    out.push((id.clone(), info));
                    proof {
                        let t = out@;
                        assert forall|x: int, y: int|
                            0 <= x < t.len() && 0 <= y < t.len() && x != y implies (#[trigger] t[x]).0@
                            != (#[trigger] t[y]).0@ by {
                            if x < old_out.len() && y < old_out.len() {
                                assert(t[x] == old_out[x] && t[y] == old_out[y]);
                            } else if x < old_out.len() {
                                assert(t[x] == old_out[x]);
                                let a = choose|a: int| 0 <= a < i && #[trigger] old_out[x].0@ == self.slots.key_at(a);
                                assert(self.slots.key_at(a) != self.slots.key_at(i as int));
                            } else {
                                assert(t[y] == old_out[y]);
                                let a = choose|a: int| 0 <= a < i && #[trigger] old_out[y].0@ == self.slots.key_at(a);
                                assert(self.slots.key_at(a) != self.slots.key_at(i as int));
                            }
                        }
                        assert forall|j: int| 0 <= j < t.len() implies exists|a: int|
                            0 <= a < i + 1 && #[trigger] t[j].0@ == self.slots.key_at(a) by {
                            if j < old_out.len() {
                                assert(t[j] == old_out[j]);
                            } else {
                                assert(t[j].0@ == self.slots.key_at(i as int));
                            }
                        }
                        assert forall|a: int|
                            0 <= a < i + 1 && runtime_info_of(self.slots()[self.slots.key_at(a)]) is Some
                            implies #[trigger] crate::registry::has_key(t, self.slots.key_at(a)) by {
                            if a < i {
                                assert(crate::registry::has_key(old_out, self.slots.key_at(a)));
                                let j = choose|j: int| 0 <= j < old_out.len() && (#[trigger] old_out[j]).0@ == self.slots.key_at(a);
                                assert(t[j] == old_out[j]);
                            } else {
                                assert(t[old_out.len() as int].0@ == self.slots.key_at(a));
                            }
                        }
                        assert forall|j: int| 0 <= j < t.len() implies self.slots().contains_key(#[trigger] t[j].0@)
                            && Some(t[j].1) == runtime_info_of(self.slots()[t[j].0@]) by {
                            if j < old_out.len() {
                                assert(t[j] == old_out[j]);
                            }
                        }
                    }
                },
                None => {},
            }
            i = i + 1;
        }
        proof {
            let t = out@;
            assert forall|k: Seq<char>|
                #[trigger] entries_map(t).contains_key(k) <==> (self.slots().contains_key(k)
                    && runtime_info_of(self.slots()[k]) is Some) by {
                if entries_map(t).contains_key(k) {
                    let j = choose|j: int| 0 <= j < t.len() && (#[trigger] t[j]).0@ == k;
                }
                if self.slots().contains_key(k) && runtime_info_of(self.slots()[k]) is Some {
                    let a = choose|a: int| 0 <= a < self.slots.spec_len() && #[trigger] self.slots.key_at(a) == k;
                    assert(crate::registry::has_key(t, self.slots.key_at(a)));
                }
            }
            assert forall|k: Seq<char>|
                #[trigger] entries_map(t).contains_key(k) implies Some(entries_map(t)[k])
                    == runtime_info_of(self.slots()[k]) by {
                let j = choose|j: int| 0 <= j < t.len() && (#[trigger] t[j]).0@ == k;
                lemma_entry_in_map(t, j);
            }
        }
        out
    }

    /// Ids of instances that are live or starting, each once.
    pub fn get_active_ids(&self) -> (r: Vec<String>)
        requires
            self.wf(),
        ensures
            forall|x: int, y: int|
                0 <= x < r@.len() && 0 <= y < r@.len() && x != y ==> (#[trigger] r@[x])@ != (
                #[trigger] r@[y])@,
            forall|k: Seq<char>|
                (exists|j: int| 0 <= j < r@.len() && (#[trigger] r@[j])@ == k) <==> (
                self.slots().contains_key(k) && is_active_slot(self.slots()[k])),
    {
        let n = self.slots.len();
        let mut out: Vec<String> = Vec::new();
        let mut i: usize = 0;
        proof {
            self.slots.lemma_positions();
        }
        while i < n
            invariant
                self.wf(),
                n == self.slots.spec_len(),
                i <= n,
                forall|x: int, y: int|
                    0 <= x < out@.len() && 0 <= y < out@.len() && x != y ==> (#[trigger] out@[x])@
                        != (#[trigger] out@[y])@,
                forall|j: int|
                    0 <= j < out@.len() ==> exists|a: int|
                        0 <= a < i && (#[trigger] out@[j])@ == self.slots.key_at(a),
                forall|a: int|
                    0 <= a < i && is_active_slot(self.slots()[self.slots.key_at(a)]) ==> exists|j: int|
                        0 <= j < out@.len() && (#[trigger] out@[j])@ == #[trigger] self.slots.key_at(a),
                forall|j: int|
                    0 <= j < out@.len() ==> self.slots().contains_key((#[trigger] out@[j])@)
                        && is_active_slot(self.slots()[out@[j]@]),
                forall|a: int|
                    0 <= a < self.slots.spec_len() ==> #[trigger] self.slots().contains_key(
                        self.slots.key_at(a),
                    ),
                forall|a: int, b: int|
                    0 <= a < self.slots.spec_len() && 0 <= b < self.slots.spec_len() && a != b
                        ==> #[trigger] self.slots.key_at(a) != #[trigger] self.slots.key_at(b),
                forall|k: Seq<char>|
                    #[trigger] self.slots().contains_key(k) ==> exists|a: int|
                        0 <= a < self.slots.spec_len() && #[trigger] self.slots.key_at(a) == k,
            decreases n - i,
        {
            let (id, slot) = self.slots.entry_at(i);
            let active = match slot {
                Slot::Live(_) => true,
                Slot::Starting => true,
                _ => false,
            };
            let ghost old_out = out@;
            if active {
                out.push(id.clone());
                proof {
                    let t = out@;
                    assert forall|x: int, y: int|
                        0 <= x < t.len() && 0 <= y < t.len() && x != y implies (#[trigger] t[x])@ != (
                        #[trigger] t[y])@ by {
                        if x < old_out.len() && y < old_out.len() {
                            assert(t[x] == old_out[x] && t[y] == old_out[y]);
                        } else if x < old_out.len() {
                            assert(t[x] == old_out[x]);
                            let a = choose|a: int| 0 <= a < i && (#[trigger] old_out[x])@ == self.slots.key_at(a);
                            assert(self.slots.key_at(a) != self.slots.key_at(i as int));
                        } else {
                            assert(t[y] == old_out[y]);
                            let a = choose|a: int| 0 <= a < i && (#[trigger] old_out[y])@ == self.slots.key_at(a);
                            assert(self.slots.key_at(a) != self.slots.key_at(i as int));
                        }
                    }
                    assert forall|j: int| 0 <= j < t.len() implies exists|a: int|
                        0 <= a < i + 1 && (#[trigger] t[j])@ == self.slots.key_at(a) by {
                        if j < old_out.len() {
                            assert(t[j] == old_out[j]);
                        } else {
                            assert(t[j]@ == self.slots.key_at(i as int));
                        }
                    }
                    assert forall|a: int|
                        0 <= a < i + 1 && is_active_slot(self.slots()[self.slots.key_at(a)])
                        implies exists|j: int| 0 <= j < t.len() && (#[trigger] t[j])@ == #[trigger] self.slots.key_at(a) by {
                        if a < i {
                            let j = choose|j: int| 0 <= j < old_out.len() && (#[trigger] old_out[j])@ == self.slots.key_at(a);
                            assert(t[j] == old_out[j]);
                        } else {
                            assert(t[old_out.len() as int]@ == self.slots.key_at(a));
                        }
                    }
                    assert forall|j: int| 0 <= j < t.len() implies self.slots().contains_key((#[trigger] t[j])@)
                        && is_active_slot(self.slots()[t[j]@]) by {
                        if j < old_out.len() {
                            assert(t[j] == old_out[j]);
                        }
                    }
                }
            }
            i = i + 1;
        }
        proof {
            assert forall|k: Seq<char>|
                (exists|j: int| 0 <= j < out@.len() && (#[trigger] out@[j])@ == k) <==> (
                self.slots().contains_key(k) && is_active_slot(self.slots()[k])) by {
                if self.slots().contains_key(k) && is_active_slot(self.slots()[k]) {
                    let a = choose|a: int| 0 <= a < self.slots.spec_len() && #[trigger] self.slots.key_at(a) == k;
                    assert(is_active_slot(self.slots()[self.slots.key_at(a)]));
                }
            }
        }
        out
    }

    /// Enter shutdown: every slot is taken out, and live or stopping
    /// instances are handed back as targets to kill. Starting and guarded
    /// slots are discarded.
    pub fn drain_for_shutdown(&mut self) -> (targets: Vec<ShutdownTarget>)
        requires
            old(self).wf(),
        ensures
            final(self).wf(),
            final(self).shutting_down(),
            final(self).slots() == Map::<Seq<char>, Slot>::empty(),
            forall|x: int, y: int|
                0 <= x < targets@.len() && 0 <= y < targets@.len() && x != y ==> (
                #[trigger] targets@[x]).id@ != (#[trigger] targets@[y]).id@,
            forall|j: int|
                0 <= j < targets@.len() ==> old(self).slots().contains_key((#[trigger] targets@[j]).id@)
                    && target_matches(targets@[j], old(self).slots()[targets@[j].id@]),
            forall|k: Seq<char>|
                old(self).slots().contains_key(k) && (old(self).slots()[k] is Live || old(
                    self,
                ).slots()[k] is Stopping) ==> exists|j: int|
                    0 <= j < targets@.len() && (#[trigger] targets@[j]).id@ == k,
    {
        self.shutting_down = true;
        let all = self.slots.drain();
        let ghost m = entries_map(all@);
        let n = all.len();
        let mut targets: Vec<ShutdownTarget> = Vec::new();
        let mut i: usize = 0;
        while i < n
            invariant
                n == all@.len(),
                i <= n,
                keys_distinct(all@),
                m == entries_map(all@),
                forall|x: int, y: int|
                    0 <= x < targets@.len() && 0 <= y < targets@.len() && x != y ==> (
                    #[trigger] targets@[x]).id@ != (#[trigger] targets@[y]).id@,
                forall|j: int|
                    0 <= j < targets@.len() ==> exists|a: int|
                        0 <= a < i && (#[trigger] targets@[j]).id@ == all@[a].0@,
                forall|j: int|
                    0 <= j < targets@.len() ==> m.contains_key((#[trigger] targets@[j]).id@)
                        && target_matches(targets@[j], m[targets@[j].id@]),
                forall|a: int|
                    0 <= a < i && (all@[a].1 is Live || all@[a].1 is Stopping) ==> exists|j: int|
                        0 <= j < targets@.len() && (#[trigger] targets@[j]).id@ == (#[trigger] all@[a]).0@,
            decreases n - i,
        {
            let entry = &all[i];
            proof {
                lemma_entry_in_map(all@, i as int);
            }
            let ghost old_t = targets@;
            let pushed = match &entry.1 {
                Slot::Live(p) => {
                    targets.push(
                        ShutdownTarget {
                            id: entry.0.clone(),
                            pid: p.pid,
                            port: p.port,
                            executable_path: p.executable_path.clone(),
                        },
                    );
                    true
                },
                Slot::Stopping { pid, executable_path, port, .. } => {
                    targets.push(
                        ShutdownTarget {
                            id: entry.0.clone(),
                            pid: *pid,
                            port: *port,
                            executable_path: executable_path.clone(),
                        },
                    );
                    true
                },
                _ => false,
            };
            proof {
                if pushed {
                    let t = targets@;
                    assert(t.len() == old_t.len() + 1);
                    assert forall|j: int| 0 <= j < old_t.len() implies t[j] == old_t[j] by {}
                    assert forall|x: int, y: int|
                        0 <= x < t.len() && 0 <= y < t.len() && x != y implies (#[trigger] t[x]).id@ != (
                        #[trigger] t[y]).id@ by {
                        if x < old_t.len() && y < old_t.len() {
                            assert(t[x] == old_t[x] && t[y] == old_t[y]);
                        } else if x < old_t.len() {
                            assert(t[x] == old_t[x]);
                            let a = choose|a: int| 0 <= a < i && (#[trigger] old_t[x]).id@ == all@[a].0@;
                            assert(all@[a].0@ != all@[i as int].0@);
                        } else {
                            assert(t[y] == old_t[y]);
                            let a = choose|a: int| 0 <= a < i && (#[trigger] old_t[y]).id@ == all@[a].0@;
                            assert(all@[a].0@ != all@[i as int].0@);
                        }
                    }
                    assert forall|j: int| 0 <= j < t.len() implies exists|a: int|
                        0 <= a < i + 1 && (#[trigger] t[j]).id@ == all@[a].0@ by {
                        if j < old_t.len() {
                            assert(t[j] == old_t[j]);
                        } else {
                            assert(t[j].id@ == all@[i as int].0@);
                        }
                    }
                    assert forall|j: int| 0 <= j < t.len() implies m.contains_key((#[trigger] t[j]).id@)
                        && target_matches(t[j], m[t[j].id@]) by {
                        if j < old_t.len() {
                            assert(t[j] == old_t[j]);
                        }
                    }
                    assert forall|a: int|
                        0 <= a < i + 1 && (all@[a].1 is Live || all@[a].1 is Stopping) implies exists|j: int|
                            0 <= j < t.len() && (#[trigger] t[j]).id@ == (#[trigger] all@[a]).0@ by {
                        if a < i {
                            let j = choose|j: int| 0 <= j < old_t.len() && (#[trigger] old_t[j]).id@ == all@[a].0@;
                            assert(t[j] == old_t[j]);
                        } else {
                            assert(t[old_t.len() as int].id@ == all@[a].0@);
                        }
                    }
                }
            }
            i = i + 1;
        }
        proof {
            assert forall|k: Seq<char>|
                m.contains_key(k) && (m[k] is Live || m[k] is Stopping) implies exists|j: int|
                    0 <= j < targets@.len() && (#[trigger] targets@[j]).id@ == k by {
                let a = choose|a: int| 0 <= a < all@.len() && (#[trigger] all@[a]).0@ == k;
                lemma_entry_in_map(all@, a);
            }
        }
        targets
    }

    /// Remove the slot of `id` if it is `Live`; returns whether it did.
    pub fn remove_if_live(&mut self, id: &str) -> (removed: bool)
        requires
            old(self).wf(),
        ensures
            final(self).wf(),
            final(self).shutting_down() == old(self).shutting_down(),
            removed == (slot_of(old(self).slots(), id@) matches Some(Slot::Live(_))),
            removed ==> final(self).slots() == old(self).slots().remove(id@),
            !removed ==> final(self).slots() == old(self).slots(),
    {
        let live = match self.slots.get(id) {
            Some(Slot::Live(_)) => true,
            _ => false,
        };
        if live {
            let _ = self.slots.remove(id);
        }
        live
    }

    /// Overwrite the monitoring fields of a `Live` slot (and its pid, when a
    /// new one is given). Returns the health states before and after, or
    /// `None` (and no change) when `id` is not live.
    pub fn update_live(
        &mut self,
        id: &str,
        health_failure_count: u32,
        next_health_check_at: Option<u64>,
        alive_failure_count: u32,
        next_alive_check_at: Option<u64>,
        new_pid: Option<u32>,
    ) -> (r: Option<(InstanceState, InstanceState)>)
        requires
            old(self).wf(),
        ensures
            final(self).wf(),
            final(self).shutting_down() == old(self).shutting_down(),
            match slot_of(old(self).slots(), id@) {
                Some(Slot::Live(p)) => {
                    &&& r == Some((health_state(p.health_failure_count), health_state(health_failure_count)))
                    &&& final(self).slots() == old(self).slots().insert(
                        id@,
                        Slot::Live(
                            InstanceProcess {
                                pid: match new_pid {
                                    Some(n) => n,
                                    None => p.pid,
                                },
                                health_failure_count,
                                next_health_check_at,
                                alive_failure_count,
                                next_alive_check_at,
                                ..p
                            },
                        ),
                    )
                },
                _ => r is None && final(self).slots() == old(self).slots(),
            },
    {
        let updated = match self.slots.get(id) {
            Some(Slot::Live(p)) => {
                let old_state = derive_health_state(p);
                let q = InstanceProcess {
                    pid: match new_pid {
                        Some(n) => n,
                        None => p.pid,
                    },
                    executable_path: p.executable_path.clone(),
                    port: p.port,
                    dashboard_enabled: p.dashboard_enabled,
                    health_failure_count,
                    next_health_check_at,
                    alive_failure_count,
                    next_alive_check_at,
                };
                let new_state = derive_health_state(&q);
                Some((q, old_state, new_state))
            },
            _ => None,
        };
        match updated {
            Some((q, old_state, new_state)) => {
                self.slots.insert(id.to_string(), Slot::Live(q));
                Some((old_state, new_state))
            },
            None => None,
        }
    }

    /// First phase of a monitoring round: a snapshot of every live
    /// instance (none while shutting down), each id once.
    pub fn snapshot_live(&self) -> (r: Vec<LiveSnapshot>)
        requires
            self.wf(),
        ensures
            self.shutting_down() ==> r@.len() == 0,
            forall|x: int, y: int|
                0 <= x < r@.len() && 0 <= y < r@.len() && x != y ==> (#[trigger] r@[x]).id@ != (
                #[trigger] r@[y]).id@,
            forall|j: int|
                0 <= j < r@.len() ==> self.slots().contains_key((#[trigger] r@[j]).id@)
                    && (self.slots()[r@[j].id@] matches Slot::Live(p) && snapshot_of(r@[j], p)),
            !self.shutting_down() ==> forall|k: Seq<char>|
                self.slots().contains_key(k) && self.slots()[k] is Live ==> exists|j: int|
                    0 <= j < r@.len() && (#[trigger] r@[j]).id@ == k,
    {
        let mut out: Vec<LiveSnapshot> = Vec::new();
        if self.shutting_down {
            return out;
        }
        let n = self.slots.len();
        let mut i: usize = 0;
        proof {
            self.slots.lemma_positions();
        }
        while i < n
            invariant
                self.wf(),
                n == self.slots.spec_len(),
                i <= n,
                forall|x: int, y: int|
                    0 <= x < out@.len() && 0 <= y < out@.len() && x != y ==> (#[trigger] out@[x]).id@
                        != (#[trigger] out@[y]).id@,
                forall|j: int|
                    0 <= j < out@.len() ==> exists|a: int|
                        0 <= a < i && (#[trigger] out@[j]).id@ == self.slots.key_at(a),
                forall|a: int|
                    0 <= a < i && self.slots()[self.slots.key_at(a)] is Live ==> exists|j: int|
                        0 <= j < out@.len() && (#[trigger] out@[j]).id@ == #[trigger] self.slots.key_at(a),
                forall|j: int|
                    0 <= j < out@.len() ==> self.slots().contains_key((#[trigger] out@[j]).id@)
                        && (self.slots()[out@[j].id@] matches Slot::Live(p) && snapshot_of(out@[j], p)),
                forall|a: int|
                    0 <= a < self.slots.spec_len() ==> #[trigger] self.slots().contains_key(
                        self.slots.key_at(a),
                    ),
                forall|a: int, b: int|
                    0 <= a < self.slots.spec_len() && 0 <= b < self.slots.spec_len() && a != b
                        ==> #[trigger] self.slots.key_at(a) != #[trigger] self.slots.key_at(b),
                forall|k: Seq<char>|
                    #[trigger] self.slots().contains_key(k) ==> exists|a: int|
                        0 <= a < self.slots.spec_len() && #[trigger] self.slots.key_at(a) == k,
            decreases n - i,
        {
            let (id, slot) = self.slots.entry_at(i);
            let ghost old_out = out@;
            if let Slot::Live(p) = slot {
                out.push(
                    LiveSnapshot {
                        id: id.clone(),
                        port: p.port,
                        pid: p.pid,
                        executable_path: p.executable_path.clone(),
                        dashboard_enabled: p.dashboard_enabled,
                        next_health_check_at: p.next_health_check_at,
                        health_failure_count: p.health_failure_count,
                        alive_failure_count: p.alive_failure_count,
                        next_alive_check_at: p.next_alive_check_at,
                    },
                );
                proof {
                    let t = out@;
                    assert forall|x: int, y: int|
                        0 <= x < t.len() && 0 <= y < t.len() && x != y implies (#[trigger] t[x]).id@ != (
                        #[trigger] t[y]).id@ by {
                        if x < old_out.len() && y < old_out.len() {
                            assert(t[x] == old_out[x] && t[y] == old_out[y]);
                        } else if x < old_out.len() {
                            assert(t[x] == old_out[x]);
                            let a = choose|a: int| 0 <= a < i && (#[trigger] old_out[x]).id@ == self.slots.key_at(a);
                            assert(self.slots.key_at(a) != self.slots.key_at(i as int));
                        } else {
                            assert(t[y] == old_out[y]);
                            let a = choose|a: int| 0 <= a < i && (#[trigger] old_out[y]).id@ == self.slots.key_at(a);
                            assert(self.slots.key_at(a) != self.slots.key_at(i as int));
                        }
                    }
                    assert forall|j: int| 0 <= j < t.len() implies exists|a: int|
                        0 <= a < i + 1 && (#[trigger] t[j]).id@ == self.slots.key_at(a) by {
                        if j < old_out.len() {
                            assert(t[j] == old_out[j]);
                        } else {
                            assert(t[j].id@ == self.slots.key_at(i as int));
                        }
                    }
                    assert forall|a: int|
                        0 <= a < i + 1 && self.slots()[self.slots.key_at(a)] is Live implies exists|j: int|
                            0 <= j < t.len() && (#[trigger] t[j]).id@ == #[trigger] self.slots.key_at(a) by {
                        if a < i {
                            let j = choose|j: int| 0 <= j < old_out.len() && (#[trigger] old_out[j]).id@ == self.slots.key_at(a);
                            assert(t[j] == old_out[j]);
                        } else {
                            assert(t[old_out.len() as int].id@ == self.slots.key_at(a));
                        }
                    }
                    assert forall|j: int| 0 <= j < t.len() implies self.slots().contains_key((#[trigger] t[j]).id@)
                        && (self.slots()[t[j].id@] matches Slot::Live(p) && snapshot_of(t[j], p)) by {
                        if j < old_out.len() {
                            assert(t[j] == old_out[j]);
                        }
                    }
                }
            }
            i = i + 1;
        }
        proof {
            assert forall|k: Seq<char>|
                self.slots().contains_key(k) && self.slots()[k] is Live implies exists|j: int|
                    0 <= j < out@.len() && (#[trigger] out@[j]).id@ == k by {
                let a = choose|a: int| 0 <= a < self.slots.spec_len() && #[trigger] self.slots.key_at(a) == k;
                assert(self.slots()[self.slots.key_at(a)] is Live);
            }
        }
        out
    }

    /// Hold `id` for a create/read/update/delete operation: refused while
    /// shutting down or when the instance already has a slot.
    pub fn acquire_guard(&mut self, id: &str) -> (r: Result<InstanceGuard>)
        requires
            old(self).wf(),
        ensures
            final(self).wf(),
            final(self).shutting_down() == old(self).shutting_down(),
            r is Ok <==> (!old(self).shutting_down() && !old(self).slots().contains_key(id@)),
            r matches Ok(g) ==> g.instance_id@ == id@ && final(self).slots() == old(self).slots().insert(
                id@,
                Slot::Guarded,
            ),
            r is Err ==> final(self).slots() == old(self).slots(),
            r matches Err(e) ==> (if old(self).shutting_down() {
                process_error(e, shutting_down_msg())
            } else if old(self).slots()[id@] is Guarded {
                process_error(e, busy_msg())
            } else {
                e.kind == ErrorKind::InstanceRunning && e.message@ == "Instance is already running"@
            }),
    {
        self.check_active()?;
        self.check_slot_vacant(id)?;
        self.slots.insert(id.to_string(), Slot::Guarded);
        Ok(InstanceGuard { instance_id: id.to_string() })
    }

    /// Give a guard back: the guarded instance's slot is removed.
    pub fn release_guard(&mut self, guard: InstanceGuard)
        requires
            old(self).wf(),
        ensures
            final(self).wf(),
            final(self).shutting_down() == old(self).shutting_down(),
            final(self).slots() == old(self).slots().remove(guard.instance_id@),
    {
        let _ = self.slots.remove(guard.instance_id.as_str());
    }

    /// First phase of a start: refused while shutting down or when the
    /// instance has a slot; otherwise the slot becomes `Starting` (to be
    /// announced as `Starting`).
    pub fn begin_start(&mut self, id: &str) -> (r: Result<()>)
        requires
            old(self).wf(),
        ensures
            final(self).wf(),
            final(self).shutting_down() == old(self).shutting_down(),
            r is Ok <==> (!old(self).shutting_down() && !old(self).slots().contains_key(id@)),
            r is Ok ==> final(self).slots() == old(self).slots().insert(id@, Slot::Starting),
            r is Err ==> final(self).slots() == old(self).slots(),
            r matches Err(e) ==> (if old(self).shutting_down() {
                process_error(e, shutting_down_msg())
            } else if old(self).slots()[id@] is Guarded {
                process_error(e, busy_msg())
            } else {
                e.kind == ErrorKind::InstanceRunning && e.message@ == "Instance is already running"@
            }),
    {
        self.check_active()?;
        self.check_slot_vacant(id)?;
        self.slots.insert(id.to_string(), Slot::Starting);
        Ok(())
    }

    /// Last phase of a start: settle the `Starting` slot with the launch's
    /// result. While shutting down the slot is dropped and a started process
    /// is handed back to be killed; otherwise success makes the slot `Live`
    /// and failure removes it.
    pub fn finish_launch(&mut self, id: &str, launch: Result<LaunchedProcess>) -> (r: LaunchFinish)
        requires
            old(self).wf(),
        ensures
            final(self).wf(),
            final(self).shutting_down() == old(self).shutting_down(),
            old(self).shutting_down() ==> {
                &&& final(self).slots() == old(self).slots().remove(id@)
                &&& r matches LaunchFinish::ShuttingDown { orphan, error }
                &&& process_error(error, shutting_down_msg())
                &&& match launch {
                    Ok(p) => orphan == Some(p),
                    Err(_) => orphan is None,
                }
            },
            !old(self).shutting_down() ==> match launch {
                Ok(p) => {
                    &&& r == (LaunchFinish::Running { port: p.port })
                    &&& final(self).slots() == old(self).slots().insert(
                        id@,
                        Slot::Live(InstanceProcess::fresh(p.pid, p.executable_path, p.port, p.dashboard_enabled)),
                    )
                },
                Err(e) => r == LaunchFinish::Failed(e) && final(self).slots() == old(
                    self,
                ).slots().remove(id@),
            },
    {
        if self.shutting_down {
            let _ = self.slots.remove(id);
            return match launch {
                Ok(p) => LaunchFinish::ShuttingDown {
                    orphan: Some(p),
                    error: AppError::process("Application shutting down"),
                },
                Err(_) => LaunchFinish::ShuttingDown {
                    orphan: None,
                    error: AppError::process("Application shutting down"),
                },
            };
        }
        match launch {
            Ok(p) => {
                let port = p.port;
                self.slots.insert(
                    id.to_string(),
                    Slot::Live(InstanceProcess::new(p.pid, p.executable_path, p.port, p.dashboard_enabled)),
                );
                LaunchFinish::Running { port }
            },
            Err(e) => {
                let _ = self.slots.remove(id);
                LaunchFinish::Failed(e)
            },
        }
    }

    /// First phase of a stop: a live instance becomes `Stopping` (announced
    /// as `Stopping`) and its pid and executable are handed out for the
    /// shutdown; every other phase is refused.
    pub fn begin_stop(&mut self, id: &str) -> (r: Result<(u32, String)>)
        requires
            old(self).wf(),
        ensures
            final(self).wf(),
            final(self).shutting_down() == old(self).shutting_down(),
            old(self).shutting_down() ==> (r matches Err(e) && process_error(e, shutting_down_msg())
                && final(self).slots() == old(self).slots()),
            !old(self).shutting_down() ==> match slot_of(old(self).slots(), id@) {
                Some(Slot::Live(p)) => {
                    &&& r == Ok::<(u32, String), AppError>((p.pid, p.executable_path))
                    &&& final(self).slots() == old(self).slots().insert(id@, stopping_of(p))
                },
                Some(Slot::Stopping { .. }) => (r matches Err(e) && process_error(e, already_stopping_msg())
                    && final(self).slots() == old(self).slots()),
                Some(Slot::Starting) => (r matches Err(e) && process_error(e, still_starting_msg())
                    && final(self).slots() == old(self).slots()),
                Some(Slot::Guarded) => (r matches Err(e) && process_error(e, busy_msg()) && final(self).slots()
                    == old(self).slots()),
                None => (r matches Err(e) && e.kind == ErrorKind::InstanceNotRunning && e.message@ == "Instance is not running"@
                    && final(self).slots() == old(self).slots()),
            },
    {
        self.check_active()?;
        match self.transition_to_stopping(id) {
            StopTransition::Started { pid, exe } => Ok((pid, exe)),
            StopTransition::AlreadyStopping => Err(AppError::process("Instance is already stopping")),
            StopTransition::StillStarting => Err(AppError::process("Instance is still starting")),
            StopTransition::Guarded => Err(AppError::process("Another operation is in progress")),
            StopTransition::NotRunning => Err(AppError::instance_not_running()),
        }
    }

    /// After a failed shutdown: a `Stopping` slot goes back to `Live`, so the
    /// user can retry. Returns whether `Running` is to be announced.
    pub fn revert_stopping_to_live(&mut self, id: &str) -> (announce_running: bool)
        requires
            old(self).wf(),
        ensures
            final(self).wf(),
            final(self).shutting_down() == old(self).shutting_down(),
            match slot_of(old(self).slots(), id@) {
                Some(Slot::Stopping { pid, executable_path, port, dashboard_enabled }) => {
                    &&& announce_running
                    &&& final(self).slots() == old(self).slots().insert(
                        id@,
                        Slot::Live(InstanceProcess::fresh(pid, executable_path, port, dashboard_enabled)),
                    )
                },
                Some(_) => !announce_running && final(self).slots() == old(self).slots(),
                None => !announce_running && final(self).slots() == old(self).slots(),
            },
    {
        self.revert_stop(id)
    }

    /// Last phase of a stop: the slot is removed (announced as `Stopped`).
    pub fn finalize_stop(&mut self, id: &str)
        requires
            old(self).wf(),
        ensures
            final(self).wf(),
            final(self).shutting_down() == old(self).shutting_down(),
            final(self).slots() == old(self).slots().remove(id@),
    {
        let _ = self.slots.remove(id);
    }

    /// First phase of a restart. A live instance becomes `Stopping` and its
    /// pid and executable are handed out; an instance without a slot goes
    /// straight to `Starting` (`Ok(None)`); every other phase is refused.
    pub fn begin_restart(&mut self, id: &str) -> (r: Result<Option<(u32, String)>>)
        requires
            old(self).wf(),
        ensures
            final(self).wf(),
            final(self).shutting_down() == old(self).shutting_down(),
            old(self).shutting_down() ==> (r matches Err(e) && process_error(e, shutting_down_msg())
                && final(self).slots() == old(self).slots()),
            !old(self).shutting_down() ==> match slot_of(old(self).slots(), id@) {
                Some(Slot::Live(p)) => {
                    &&& r == Ok::<Option<(u32, String)>, AppError>(Some((p.pid, p.executable_path)))
                    &&& final(self).slots() == old(self).slots().insert(id@, stopping_of(p))
                },
                Some(Slot::Starting) => (r matches Err(e) && e.kind == ErrorKind::InstanceRunning && e.message@ == "Instance is already running"@
                    && final(self).slots() == old(self).slots()),
                Some(Slot::Stopping { .. }) => (r matches Err(e) && process_error(e, already_stopping_msg())
                    && final(self).slots() == old(self).slots()),
                Some(Slot::Guarded) => (r matches Err(e) && process_error(e, busy_msg()) && final(self).slots()
                    == old(self).slots()),
                None => r == Ok::<Option<(u32, String)>, AppError>(None) && final(self).slots()
                    == old(self).slots().insert(id@, Slot::Starting),
            },
    {
        self.check_active()?;
        match self.transition_to_stopping(id) {
            StopTransition::Started { pid, exe } => Ok(Some((pid, exe))),
            StopTransition::StillStarting => Err(AppError::instance_running()),
            StopTransition::Guarded => Err(AppError::process("Another operation is in progress")),
            StopTransition::AlreadyStopping => Err(AppError::process("Instance is already stopping")),
            StopTransition::NotRunning => {
                self.slots.insert(id.to_string(), Slot::Starting);
                Ok(None)
            },
        }
    }

    /// Middle phase of a restart, after a successful shutdown: the slot goes
    /// from `Stopping` to `Starting` in one step. While shutting down the
    /// slot is dropped instead (announced as `Stopped`) and the restart fails.
    pub fn resume_restart(&mut self, id: &str) -> (r: Result<()>)
        requires
            old(self).wf(),
        ensures
            final(self).wf(),
            final(self).shutting_down() == old(self).shutting_down(),
            r is Ok <==> !old(self).shutting_down(),
            r is Ok ==> final(self).slots() == old(self).slots().insert(id@, Slot::Starting),
            r matches Err(e) ==> (process_error(e, shutting_down_msg()) && final(self).slots() == old(
                self,
            ).slots().remove(id@)),
    {
        if self.shutting_down {
            let _ = self.slots.remove(id);
            return Err(AppError::process("Application shutting down"));
        }
        self.slots.insert(id.to_string(), Slot::Starting);
        Ok(())
    }
}

/// A guard taken on a vacant instance and given back leaves the slots as
/// they were.
pub proof fn law_guard_round_trip(m: Map<Seq<char>, Slot>, id: Seq<char>)
    requires
        !m.contains_key(id),
    ensures
        m.insert(id, Slot::Guarded).remove(id) == m,
{
    assert(m.insert(id, Slot::Guarded).remove(id) =~= m);
}

/// Stopping a live instance and then reverting the failed stop gives back a
/// live slot with the same process (pid, executable, port, dashboard) and
/// fresh monitoring counters; a process that had fresh counters is
/// restored exactly.
pub proof fn law_stop_then_revert(m: Map<Seq<char>, Slot>, id: Seq<char>, p: InstanceProcess)
    requires
        m.contains_key(id),
        m[id] == Slot::Live(p),
    ensures
        ({
            let stopping = m.insert(id, stopping_of(p));
            let reverted = stopping.insert(
                id,
                Slot::Live(InstanceProcess::fresh(p.pid, p.executable_path, p.port, p.dashboard_enabled)),
            );
            &&& slot_of(stopping, id) == Some(
                Slot::Stopping {
                    pid: p.pid,
                    executable_path: p.executable_path,
                    port: p.port,
                    dashboard_enabled: p.dashboard_enabled,
                },
            )
            &&& reverted == m.insert(
                id,
                Slot::Live(InstanceProcess::fresh(p.pid, p.executable_path, p.port, p.dashboard_enabled)),
            )
            &&& (p == InstanceProcess::fresh(p.pid, p.executable_path, p.port, p.dashboard_enabled)
                ==> reverted == m)
        }),
{
    let stopping = m.insert(id, stopping_of(p));
    let q = InstanceProcess::fresh(p.pid, p.executable_path, p.port, p.dashboard_enabled);
    assert(stopping.insert(id, Slot::Live(q)) =~= m.insert(id, Slot::Live(q)));
    if p == q {
        assert(m.insert(id, Slot::Live(q)) =~= m);
    }
}

/// A stop that went through leaves the instance without a slot, whatever
/// it had before; all other instances keep theirs.
pub proof fn law_stop_then_finalize(m: Map<Seq<char>, Slot>, id: Seq<char>, p: InstanceProcess)
    requires
        m.contains_key(id),
        m[id] == Slot::Live(p),
    ensures
        m.insert(id, stopping_of(p)).remove(id) == m.remove(id),
        !m.insert(id, stopping_of(p)).remove(id).contains_key(id),
{
    assert(m.insert(id, stopping_of(p)).remove(id) =~= m.remove(id));
}

/// A restart of an instance without a slot, and a restart of a live
/// instance whose shutdown went through, both end with the instance
/// `Starting` and every other slot unchanged.
pub proof fn law_restart_reaches_starting(m: Map<Seq<char>, Slot>, id: Seq<char>)
    requires
        !m.contains_key(id) || m[id] is Live,
    ensures
        ({
            let after_first = if !m.contains_key(id) {
                m.insert(id, Slot::Starting)
            } else {
                m.insert(id, stopping_of(m[id]->Live_0))
            };
            let after_resume = if !m.contains_key(id) {
                after_first
            } else {
                after_first.insert(id, Slot::Starting)
            };
            after_resume == m.insert(id, Slot::Starting)
        }),
{
    if m.contains_key(id) {
        assert(m.insert(id, stopping_of(m[id]->Live_0)).insert(id, Slot::Starting) =~= m.insert(
            id,
            Slot::Starting,
        ));
    }
}


/// What is reported of each phase: a guarded instance is not reported; a
/// starting one is reported as starting; only a live process is reported
/// live, with its own port and dashboard flag, unhealthy exactly when its
/// failed health checks reached the threshold; a stopping one with the
/// port and flag it had.
pub proof fn law_runtime_info(s: Slot)
    ensures
        (runtime_info_of(s) is None) <==> (s is Guarded),
        (runtime_info_of(s) == Some(InstanceRuntimeInfo::Starting)) <==> (s is Starting),
        (runtime_info_of(s) matches Some(InstanceRuntimeInfo::Live { .. })) <==> (s is Live),
        s matches Slot::Live(p) ==> (runtime_info_of(s) matches Some(
            InstanceRuntimeInfo::Live { state, port, dashboard_enabled },
        ) && port == p.port && dashboard_enabled == p.dashboard_enabled && (state
            == InstanceState::Unhealthy <==> p.health_failure_count >= crate::process::UNHEALTHY_THRESHOLD) && (state
            == InstanceState::Running <==> p.health_failure_count < crate::process::UNHEALTHY_THRESHOLD)),
        s matches Slot::Stopping { port, dashboard_enabled, .. } ==> runtime_info_of(s) == Some(
            InstanceRuntimeInfo::Stopping { port, dashboard_enabled },
        ),
{
}

} // verus!
