use vstd::prelude::*;

use crate::manager::{slot_of, ProcessState, Slot};
use crate::process::{
    backoff_secs, calculate_backoff, health_state, InstanceProcess, InstanceState,
    ALIVE_EXIT_THRESHOLD, MAX_BACKOFF_SECS,
};

verus! {

/// Snapshot of one live instance, taken for a monitoring round.
#[derive(Debug)]
pub struct LiveSnapshot {
    pub id: String,
    pub port: u16,
    pub pid: u32,
    pub executable_path: String,
    pub dashboard_enabled: bool,
    pub next_health_check_at: Option<u64>,
    pub health_failure_count: u32,
    pub alive_failure_count: u32,
    pub next_alive_check_at: Option<u64>,
}

/// Whether a snapshot copies a live process.
pub open spec fn snapshot_of(e: LiveSnapshot, p: InstanceProcess) -> bool {
    &&& e.port == p.port
    &&& e.pid == p.pid
    &&& e.executable_path == p.executable_path
    &&& e.dashboard_enabled == p.dashboard_enabled
    &&& e.next_health_check_at == p.next_health_check_at
    &&& e.health_failure_count == p.health_failure_count
    &&& e.alive_failure_count == p.alive_failure_count
    &&& e.next_alive_check_at == p.next_alive_check_at
}

/// Outcome of evaluating one instance in a monitoring round.
#[derive(Debug)]
pub enum MonitorOutcome {
    /// The process is dead; its slot is to be removed.
    Dead { id: String },
    /// The process is alive; its monitoring fields are to be updated.
    Alive {
        id: String,
        health_failure_count: u32,
        next_health_check_at: Option<u64>,
        alive_failure_count: u32,
        next_alive_check_at: Option<u64>,
        new_pid: Option<u32>,
    },
}

/// What a liveness probe observed.
#[derive(Debug)]
pub enum LivenessProbe {
    /// Only the tracked pid was checked (no retry: a failed check is death).
    Direct { alive: bool },
    /// The tracked pid was checked, and the owner of the instance's port was
    /// looked up; `owner_expected_alive` tells whether that owner is alive and
    /// runs the expected executable.
    PortLookup { alive: bool, port_owner: Option<u32>, owner_expected_alive: bool },
}

/// Milliseconds of the backoff after `count` consecutive failures.
pub open spec fn backoff_ms(count: u32) -> u64 {
    (backoff_secs(count) * 1000) as u64
}

/// Whether a backoff deadline lies ahead of `now`.
pub open spec fn waiting(next_at: Option<u64>, now: u64) -> bool {
    next_at matches Some(t) && now < t
}

/// The result of a liveness probe: `None` for death, otherwise the new
/// failure count, retry deadline and replacement pid.
pub open spec fn probe_result(
    e: LiveSnapshot,
    now: u64,
    probe: LivenessProbe,
) -> Option<(u32, Option<u64>, Option<u32>)> {
    match probe {
        LivenessProbe::Direct { alive } => if alive {
            Some((0, None, None))
        } else {
            None
        },
        LivenessProbe::PortLookup { alive, port_owner, owner_expected_alive } => {
            if alive {
                Some((0, None, None))
            } else if port_owner matches Some(np) && np != e.pid && owner_expected_alive {
                Some((0, None, port_owner))
            } else if e.alive_failure_count + 1 >= ALIVE_EXIT_THRESHOLD {
                None
            } else {
                let c = (e.alive_failure_count + 1) as u32;
                Some((c, Some((now + backoff_ms(c)) as u64), None))
            }
        },
    }
}

/// Largest `now` for which deadlines cannot overflow.
pub open spec fn time_ok(now: u64) -> bool {
    now + MAX_BACKOFF_SECS * 1000 <= u64::MAX
}

/// Backoff before the next health check after `failure_count` failures.
pub fn calculate_health_backoff(failure_count: u32) -> (secs: u64)
    ensures
        secs == backoff_secs(failure_count),
{
    calculate_backoff(failure_count)
}

/// Backoff before the next liveness probe after `failure_count` failures.
pub fn calculate_liveness_backoff(failure_count: u32) -> (secs: u64)
    ensures
        secs == backoff_secs(failure_count),
{
    calculate_backoff(failure_count)
}

/// Probe a process's liveness. A direct probe knows only alive or dead. A
/// port-lookup probe also accepts a different live process owning the port
/// as the instance's new pid, and counts failures, giving up after
/// [`ALIVE_EXIT_THRESHOLD`] and otherwise retrying after a backoff.
pub fn probe_liveness(entry: &LiveSnapshot, now: u64, probe: &LivenessProbe) -> (r: Option<(u32, Option<u64>, Option<u32>)>)
    requires
        time_ok(now),
        entry.alive_failure_count < u32::MAX,
    ensures
        r == probe_result(*entry, now, *probe),
{
    match probe {
        LivenessProbe::Direct { alive } => if *alive {
            Some((0, None, None))
        } else {
            None
        },
        LivenessProbe::PortLookup { alive, port_owner, owner_expected_alive } => {
            if *alive {
                return Some((0, None, None));
            }
            if let Some(np) = port_owner {
                if *np != entry.pid && *owner_expected_alive {
                    return Some((0, None, Some(*np)));
                }
            }
            let new_count = entry.alive_failure_count + 1;
            if new_count >= ALIVE_EXIT_THRESHOLD {
                None
            } else {
                let secs = calculate_liveness_backoff(new_count);
                Some((new_count, Some(now + secs * 1000), None))
            }
        },
    }
}

/// The liveness outcome: `None` when the process is to be taken as dead.
pub open spec fn liveness_result(e: LiveSnapshot, now: u64, probe: LivenessProbe) -> Option<
    MonitorOutcome,
> {
    if e.dashboard_enabled && waiting(e.next_alive_check_at, now) {
        Some(
            MonitorOutcome::Alive {
                id: e.id,
                health_failure_count: e.health_failure_count,
                next_health_check_at: e.next_health_check_at,
                alive_failure_count: e.alive_failure_count,
                next_alive_check_at: e.next_alive_check_at,
                new_pid: None,
            },
        )
    } else {
        match probe_result(e, now, probe) {
            None => None,
            Some((afc, nac, np)) => if !e.dashboard_enabled && nac is Some {
                None
            } else {
                Some(
                    MonitorOutcome::Alive {
                        id: e.id,
                        health_failure_count: e.health_failure_count,
                        next_health_check_at: e.next_health_check_at,
                        alive_failure_count: afc,
                        next_alive_check_at: nac,
                        new_pid: np,
                    },
                )
            },
        }
    }
}

/// Whether a liveness probe is due (no backoff pending for an instance with
/// a dashboard).
pub fn liveness_probe_due(entry: &LiveSnapshot, now: u64) -> (due: bool)
    ensures
        due == !(entry.dashboard_enabled && waiting(entry.next_alive_check_at, now)),
{
    if entry.dashboard_enabled {
        if let Some(next_at) = entry.next_alive_check_at {
            if now < next_at {
                return false;
            }
        }
    }
    true
}

/// Evaluate liveness of one instance. While a backoff is pending (only for
/// instances with a dashboard) the previous counters are kept and the probe
/// is ignored. An instance without a dashboard that would need a retry is
/// taken as dead.
pub fn evaluate_liveness(entry: &LiveSnapshot, now: u64, probe: &LivenessProbe) -> (r: Option<MonitorOutcome>)
    requires
        time_ok(now),
        entry.alive_failure_count < u32::MAX,
    ensures
        r == liveness_result(*entry, now, *probe),
{
    if !liveness_probe_due(entry, now) {
        return Some(
            MonitorOutcome::Alive {
                id: entry.id.clone(),
                health_failure_count: entry.health_failure_count,
                next_health_check_at: entry.next_health_check_at,
                alive_failure_count: entry.alive_failure_count,
                next_alive_check_at: entry.next_alive_check_at,
                new_pid: None,
            },
        );
    }
    let (alive_failure_count, next_alive_check_at, new_pid) = match probe_liveness(entry, now, probe) {
        Some(t) => t,
        None => {
            return None;
        },
    };
    if !entry.dashboard_enabled && next_alive_check_at.is_some() {
        return None;
    }
    Some(
        MonitorOutcome::Alive {
            id: entry.id.clone(),
            health_failure_count: entry.health_failure_count,
            next_health_check_at: entry.next_health_check_at,
            alive_failure_count,
            next_alive_check_at,
            new_pid,
        },
    )
}

/// The health counters after a check: kept while a backoff is pending,
/// reset on success, otherwise one more failure with a backoff.
pub open spec fn health_result(e: LiveSnapshot, now: u64, healthy: bool) -> (u32, Option<u64>) {
    if waiting(e.next_health_check_at, now) {
        (e.health_failure_count, e.next_health_check_at)
    } else if healthy {
        (0, None)
    } else {
        let c = (e.health_failure_count + 1) as u32;
        (c, Some((now + backoff_ms(c)) as u64))
    }
}

/// Whether a health check is due.
pub fn health_check_due(entry: &LiveSnapshot, now: u64) -> (due: bool)
    ensures
        due == !waiting(entry.next_health_check_at, now),
{
    if let Some(next_at) = entry.next_health_check_at {
        if now < next_at {
            return false;
        }
    }
    true
}

/// Evaluate one instance's health from the result of its health check
/// (which is ignored while a backoff is pending).
pub fn evaluate_health(entry: &LiveSnapshot, now: u64, healthy: bool) -> (r: (u32, Option<u64>))
    requires
        time_ok(now),
        entry.health_failure_count < u32::MAX,
    ensures
        r == health_result(*entry, now, healthy),
{
    if !health_check_due(entry, now) {
        return (entry.health_failure_count, entry.next_health_check_at);
    }
    if healthy {
        (0, None)
    } else {
        let new_count = entry.health_failure_count + 1;
        let secs = calculate_health_backoff(new_count);
        (new_count, Some(now + secs * 1000))
    }
}

/// Whether evaluating `entry` needs the result of a health check: it is
/// alive, has a dashboard, and its check is due.
pub open spec fn wants_health(e: LiveSnapshot, now: u64, probe: LivenessProbe) -> bool {
    liveness_result(e, now, probe) is Some && e.dashboard_enabled && !waiting(
        e.next_health_check_at,
        now,
    )
}

/// The complete outcome for one instance.
pub open spec fn instance_result(e: LiveSnapshot, now: u64, probe: LivenessProbe, healthy: bool) -> MonitorOutcome {
    match liveness_result(e, now, probe) {
        None => MonitorOutcome::Dead { id: e.id },
        Some(o) => if !e.dashboard_enabled {
            o
        } else {
            let (hfc, nhc) = health_result(e, now, healthy);
            match o {
                MonitorOutcome::Alive { id, alive_failure_count, next_alive_check_at, new_pid, .. } =>
                    MonitorOutcome::Alive {
                    id,
                    health_failure_count: hfc,
                    next_health_check_at: nhc,
                    alive_failure_count,
                    next_alive_check_at,
                    new_pid,
                },
                MonitorOutcome::Dead { id } => MonitorOutcome::Dead { id },
            }
        },
    }
}

/// Whether the caller must run a health check before [`evaluate_instance`].
pub fn needs_health_check(entry: &LiveSnapshot, now: u64, probe: &LivenessProbe) -> (r: bool)
    requires
        time_ok(now),
        entry.alive_failure_count < u32::MAX,
    ensures
        r == wants_health(*entry, now, *probe),
{
    match evaluate_liveness(entry, now, probe) {
        None => false,
        Some(_) => entry.dashboard_enabled && health_check_due(entry, now),
    }
}

/// Evaluate one instance for a monitoring round: dead when its liveness
/// says so; otherwise alive, with health counters updated from `healthy`
/// when it has a dashboard (`healthy` matters only when
/// [`needs_health_check`] holds).
pub fn evaluate_instance(entry: &LiveSnapshot, now: u64, probe: &LivenessProbe, healthy: bool) -> (r: MonitorOutcome)
    requires
        time_ok(now),
        entry.alive_failure_count < u32::MAX,
        entry.health_failure_count < u32::MAX,
    ensures
        r == instance_result(*entry, now, *probe, healthy),
        !wants_health(*entry, now, *probe) ==> r == instance_result(*entry, now, *probe, true),
{
    match evaluate_liveness(entry, now, probe) {
        None => MonitorOutcome::Dead { id: entry.id.clone() },
        Some(o) => {
            if !entry.dashboard_enabled {
                return o;
            }
            let (health_failure_count, next_health_check_at) = evaluate_health(entry, now, healthy);
            match o {
                MonitorOutcome::Alive { id, alive_failure_count, next_alive_check_at, new_pid, .. } =>
                    MonitorOutcome::Alive {
                    id,
                    health_failure_count,
                    next_health_check_at,
                    alive_failure_count,
                    next_alive_check_at,
                    new_pid,
                },
                MonitorOutcome::Dead { id } => MonitorOutcome::Dead { id },
            }
        },
    }
}

/// A pending announcement: an instance id and its new state.
pub open spec fn event_view(e: (String, InstanceState)) -> (Seq<char>, InstanceState) {
    (e.0@, e.1)
}

/// What one outcome does to the slots, and the state change it announces.
/// Only `Live` slots are touched: a lifecycle operation may have moved the
/// slot on while the round was evaluated.
pub open spec fn outcome_effect(m: Map<Seq<char>, Slot>, o: MonitorOutcome) -> (
    Map<Seq<char>, Slot>,
    Option<(Seq<char>, InstanceState)>,
) {
    match o {
        MonitorOutcome::Dead { id } => match slot_of(m, id@) {
            Some(Slot::Live(_)) => (m.remove(id@), Some((id@, InstanceState::Stopped))),
            _ => (m, None),
        },
        MonitorOutcome::Alive {
            id,
            health_failure_count,
            next_health_check_at,
            alive_failure_count,
            next_alive_check_at,
            new_pid,
        } => match slot_of(m, id@) {
            Some(Slot::Live(p)) => {
                let q = InstanceProcess {
                    pid: match new_pid {
                        Some(n) => n,
                        None => p.pid,
                    },
                    health_failure_count,
                    next_health_check_at,
                    alive_failure_count,
                    next_alive_check_at,
                    ..p
                };
                let before = health_state(p.health_failure_count);
                let after = health_state(health_failure_count);
                let ev = if before == after {
                    None
                } else if after == InstanceState::Unhealthy {
                    Some((id@, InstanceState::Unhealthy))
                } else if after == InstanceState::Running && before == InstanceState::Unhealthy {
                    Some((id@, InstanceState::Running))
                } else {
                    None
                };
                (m.insert(id@, Slot::Live(q)), ev)
            },
            _ => (m, None),
        },
    }
}

/// Outcomes applied in order: the final slots and the announcements.
pub open spec fn apply_all(m: Map<Seq<char>, Slot>, os: Seq<MonitorOutcome>) -> (
    Map<Seq<char>, Slot>,
    Seq<(Seq<char>, InstanceState)>,
)
    decreases os.len(),
{
    if os.len() == 0 {
        (m, Seq::empty())
    } else {
        let (m1, evs) = apply_all(m, os.drop_last());
        let (m2, ev) = outcome_effect(m1, os.last());
        (
            m2,
            match ev {
                Some(e) => evs.push(e),
                None => evs,
            },
        )
    }
}

/// Apply a round's outcomes to the process state, in order. Returns the
/// state changes to announce.
pub fn apply_outcomes(state: &mut ProcessState, outcomes: &Vec<MonitorOutcome>) -> (events: Vec<(String, InstanceState)>)
    requires
        old(state).wf(),
    ensures
        final(state).wf(),
        final(state).shutting_down() == old(state).shutting_down(),
        (final(state).slots(), events@.map_values(|e: (String, InstanceState)| event_view(e)))
            == apply_all(old(state).slots(), outcomes@),
{
    let mut events: Vec<(String, InstanceState)> = Vec::new();
    let n = outcomes.len();
    let mut i: usize = 0;
    let ghost m0 = state.slots();
    while i < n
        invariant
            n == outcomes@.len(),
            i <= n,
            state.wf(),
            state.shutting_down() == old(state).shutting_down(),
            m0 == old(state).slots(),
            (state.slots(), events@.map_values(|e: (String, InstanceState)| event_view(e))) == apply_all(
                m0,
                outcomes@.take(i as int),
            ),
        decreases n - i,
    {
        let ghost evs0 = events@;
        let ghost m1 = state.slots();
        proof {
            assert(outcomes@.take(i + 1).drop_last() =~= outcomes@.take(i as int));
            assert(outcomes@.take(i + 1).last() == outcomes@[i as int]);
        }
        match &outcomes[i] {
            MonitorOutcome::Dead { id } => {
                if state.remove_if_live(id.as_str()) {
                    events.push((id.clone(), InstanceState::Stopped));
                }
            },
            MonitorOutcome::Alive {
                id,
                health_failure_count,
                next_health_check_at,
                alive_failure_count,
                next_alive_check_at,
                new_pid,
            } => {
                let changed = state.update_live(
                    id.as_str(),
                    *health_failure_count,
                    *next_health_check_at,
                    *alive_failure_count,
                    *next_alive_check_at,
                    *new_pid,
                );
                if let Some((before, after)) = changed {
                    if before != after {
                        match after {
                            InstanceState::Unhealthy => {
                                events.push((id.clone(), InstanceState::Unhealthy));
                            },
                            InstanceState::Running => {
                                if before == InstanceState::Unhealthy {
                                    events.push((id.clone(), InstanceState::Running));
                                }
                            },
                            _ => {},
                        }
                    }
                }
            },
        }
        proof {
            let f = |e: (String, InstanceState)| event_view(e);
            if events@.len() == evs0.len() + 1 {
                assert(events@.map_values(f) =~= evs0.map_values(f).push(f(events@.last())));
            } else {
                assert(events@ == evs0);
            }
        }
        i = i + 1;
    }
    proof {
        assert(outcomes@.take(n as int) =~= outcomes@);
    }
    events
}

/// The backoff never drops below one second nor exceeds the cap, and never
/// shrinks as failures accumulate.
pub proof fn law_backoff_bounded_and_monotone(a: u32, b: u32)
    requires
        a <= b,
    ensures
        1 <= backoff_secs(a) <= MAX_BACKOFF_SECS,
        backoff_secs(a) <= backoff_secs(b),
{
    vstd::arithmetic::power2::lemma2_to64();
    let ea: nat = if a <= 5 { a as nat } else { 5 };
    let eb: nat = if b <= 5 { b as nat } else { 5 };
    vstd::arithmetic::power2::lemma_pow2_pos(ea);
    if ea < eb {
        vstd::arithmetic::power2::lemma_pow2_strictly_increases(ea, eb);
    }
}

/// A due health check that succeeds clears the failure count and any
/// pending backoff; one that fails adds exactly one failure.
pub proof fn law_health_check_counts(e: LiveSnapshot, now: u64)
    requires
        !waiting(e.next_health_check_at, now),
        e.health_failure_count < u32::MAX,
    ensures
        health_result(e, now, true) == (0u32, None::<u64>),
        health_result(e, now, false).0 == e.health_failure_count + 1,
        health_state(health_result(e, now, true).0) == InstanceState::Running,
{
}

/// Where the liveness probe retries, a process whose pid check fails and
/// whose port is not owned by another live process of the expected
/// executable is given up after exactly [`ALIVE_EXIT_THRESHOLD`]
/// consecutive failures; before that it is retried with a deadline.
pub proof fn law_liveness_gives_up_at_threshold(e: LiveSnapshot, now: u64, port_owner: Option<u32>, owner_expected_alive: bool)
    requires
        !(port_owner matches Some(np) && np != e.pid && owner_expected_alive),
    ensures
        probe_result(e, now, LivenessProbe::PortLookup { alive: false, port_owner, owner_expected_alive })
            is None <==> e.alive_failure_count + 1 >= ALIVE_EXIT_THRESHOLD,
        e.alive_failure_count + 1 < ALIVE_EXIT_THRESHOLD ==> (probe_result(
            e,
            now,
            LivenessProbe::PortLookup { alive: false, port_owner, owner_expected_alive },
        ) matches Some((c, Some(_), None)) && c == e.alive_failure_count + 1),
{
}

/// A monitoring round never touches a slot that is not `Live`: guarded,
/// starting and stopping instances keep their slots exactly, and no slot
/// is ever added.
pub proof fn law_round_only_touches_live(m: Map<Seq<char>, Slot>, os: Seq<MonitorOutcome>, k: Seq<char>)
    requires
        m.contains_key(k) ==> !(m[k] is Live),
    ensures
        apply_all(m, os).0.contains_key(k) == m.contains_key(k),
        m.contains_key(k) ==> apply_all(m, os).0[k] == m[k],
        forall|x: Seq<char>| #[trigger] apply_all(m, os).0.contains_key(x) ==> m.contains_key(x),
    decreases os.len(),
{
    if os.len() > 0 {
        law_round_only_touches_live(m, os.drop_last(), k);
        let m1 = apply_all(m, os.drop_last()).0;
        let m2 = apply_all(m, os).0;
        assert(outcome_effect(m1, os.last()).0 == m2);
        assert forall|x: Seq<char>| #[trigger] m2.contains_key(x) implies m.contains_key(x) by {
            assert(m1.contains_key(x));
        }
    }
}

/// The instance an outcome is about.
pub open spec fn outcome_id(o: MonitorOutcome) -> Seq<char> {
    match o {
        MonitorOutcome::Dead { id } => id@,
        MonitorOutcome::Alive { id, .. } => id@,
    }
}

/// Whether no outcome of `os` is about `k`.
pub open spec fn not_named(os: Seq<MonitorOutcome>, k: Seq<char>) -> bool {
    forall|j: int| 0 <= j < os.len() ==> outcome_id(#[trigger] os[j]) != k
}

/// A monitoring round leaves the slot of an instance that no outcome is
/// about exactly as it was, and announces nothing for it.
pub proof fn law_round_keeps_unnamed(m: Map<Seq<char>, Slot>, os: Seq<MonitorOutcome>, k: Seq<char>)
    requires
        not_named(os, k),
    ensures
        slot_of(apply_all(m, os).0, k) == slot_of(m, k),
        forall|j: int| 0 <= j < apply_all(m, os).1.len() ==> (#[trigger] apply_all(m, os).1[j]).0 != k,
    decreases os.len(),
{
    if os.len() > 0 {
        let p = os.drop_last();
        assert forall|j: int| 0 <= j < p.len() implies outcome_id(#[trigger] p[j]) != k by {
            assert(p[j] == os[j]);
        }
        law_round_keeps_unnamed(m, p, k);
        assert(outcome_id(os[os.len() - 1]) != k);
        let (m1, e1) = apply_all(m, p);
        let o = os.last();
        match o {
            MonitorOutcome::Dead { id } => {
                assert(id@ != k);
                assert(slot_of(outcome_effect(m1, o).0, k) == slot_of(m1, k));
            },
            MonitorOutcome::Alive { id, .. } => {
                assert(id@ != k);
                assert(slot_of(outcome_effect(m1, o).0, k) == slot_of(m1, k));
            },
        }
    }
}

/// Whether `o` says that instance `k` is dead.
pub open spec fn dead_for(o: MonitorOutcome, k: Seq<char>) -> bool {
    o matches MonitorOutcome::Dead { id } && id@ == k
}

/// Whether `k` has a `Live` slot in `m`.
pub open spec fn live_in(m: Map<Seq<char>, Slot>, k: Seq<char>) -> bool {
    slot_of(m, k) matches Some(Slot::Live(_))
}

proof fn lemma_step_not_live(m: Map<Seq<char>, Slot>, o: MonitorOutcome, k: Seq<char>)
    requires
        !live_in(m, k),
    ensures
        slot_of(outcome_effect(m, o).0, k) == slot_of(m, k),
        outcome_effect(m, o).1 matches Some(e) ==> e.0 != k,
{
    match o {
        MonitorOutcome::Dead { id } => {
            if id@ != k {
                assert(slot_of(outcome_effect(m, o).0, k) == slot_of(m, k));
            }
        },
        MonitorOutcome::Alive { id, .. } => {
            if id@ != k {
                assert(slot_of(outcome_effect(m, o).0, k) == slot_of(m, k));
            }
        },
    }
}

proof fn lemma_step_stays_live(m: Map<Seq<char>, Slot>, o: MonitorOutcome, k: Seq<char>)
    requires
        live_in(m, k),
        !dead_for(o, k),
    ensures
        live_in(outcome_effect(m, o).0, k),
{
    match o {
        MonitorOutcome::Dead { id } => {
            assert(id@ != k);
            assert(slot_of(outcome_effect(m, o).0, k) == slot_of(m, k));
        },
        MonitorOutcome::Alive { id, .. } => {
            if id@ != k {
                assert(slot_of(outcome_effect(m, o).0, k) == slot_of(m, k));
            }
        },
    }
}

proof fn lemma_round_not_live(m: Map<Seq<char>, Slot>, os: Seq<MonitorOutcome>, k: Seq<char>)
    requires
        !live_in(m, k),
    ensures
        slot_of(apply_all(m, os).0, k) == slot_of(m, k),
        forall|j: int| 0 <= j < apply_all(m, os).1.len() ==> (#[trigger] apply_all(m, os).1[j]).0 != k,
    decreases os.len(),
{
    if os.len() > 0 {
        lemma_round_not_live(m, os.drop_last(), k);
        let m1 = apply_all(m, os.drop_last()).0;
        lemma_step_not_live(m1, os.last(), k);
    }
}

proof fn lemma_round_stays_live(m: Map<Seq<char>, Slot>, os: Seq<MonitorOutcome>, k: Seq<char>)
    requires
        live_in(m, k),
        forall|j: int| 0 <= j < os.len() ==> !dead_for(#[trigger] os[j], k),
    ensures
        live_in(apply_all(m, os).0, k),
    decreases os.len(),
{
    if os.len() > 0 {
        let p = os.drop_last();
        assert forall|j: int| 0 <= j < p.len() implies !dead_for(#[trigger] p[j], k) by {
            assert(p[j] == os[j]);
        }
        lemma_round_stays_live(m, p, k);
        assert(!dead_for(os[os.len() - 1], k));
        lemma_step_stays_live(apply_all(m, p).0, os.last(), k);
    }
}

/// A round with a `Dead` outcome for instance `k` (wherever it stands, and
/// whatever other outcomes about `k` it holds): a `Live` slot of `k` is
/// removed and `Stopped` is announced for it; any other slot of `k` (or
/// none) is kept and nothing is announced for `k`.
pub proof fn law_round_dead(m: Map<Seq<char>, Slot>, os: Seq<MonitorOutcome>, k: Seq<char>)
    requires
        exists|j: int| 0 <= j < os.len() && dead_for(#[trigger] os[j], k),
    ensures
        live_in(m, k) ==> (!apply_all(m, os).0.contains_key(k) && apply_all(m, os).1.contains(
            (k, InstanceState::Stopped),
        )),
        !live_in(m, k) ==> (slot_of(apply_all(m, os).0, k) == slot_of(m, k) && forall|j: int|
            0 <= j < apply_all(m, os).1.len() ==> (#[trigger] apply_all(m, os).1[j]).0 != k),
    decreases os.len(),
{
    if !live_in(m, k) {
        lemma_round_not_live(m, os, k);
    } else {
        let p = os.drop_last();
        let (m1, e1) = apply_all(m, p);
        let o = os.last();
        let (m2, e2) = apply_all(m, os);
        if exists|j: int| 0 <= j < p.len() && dead_for(#[trigger] p[j], k) {
            law_round_dead(m, p, k);
            assert(!live_in(m1, k));
            lemma_step_not_live(m1, o, k);
            let w = choose|i: int| 0 <= i < e1.len() && e1[i] == (k, InstanceState::Stopped);
            match outcome_effect(m1, o).1 {
                Some(x) => {
                    assert(e2 == e1.push(x));
                    assert(e2[w] == (k, InstanceState::Stopped));
                },
                None => {},
            }
        } else {
            assert forall|j: int| 0 <= j < p.len() implies !dead_for(#[trigger] p[j], k) by {}
            lemma_round_stays_live(m, p, k);
            let j = choose|j: int| 0 <= j < os.len() && dead_for(#[trigger] os[j], k);
            if j < p.len() {
                assert(p[j] == os[j]);
            }
            assert(j == os.len() - 1);
            assert(dead_for(o, k));
            assert(e2 == e1.push((k, InstanceState::Stopped)));
            assert(e2[e1.len() as int] == (k, InstanceState::Stopped));
        }
    }
}

/// Whether a health endpoint answered healthy: a success status and a
/// body whose `status` is `ok` (`None` when the body did not parse).
pub fn is_healthy_response(success_status: bool, status: Option<&str>) -> (r: bool)
    ensures
        r == (success_status && (status matches Some(s) && s@ == "ok"@)),
{
    if !success_status {
        return false;
    }
    match status {
        Some(s) => crate::registry::str_equal(s, "ok"),
        None => false,
    }
}


/// A probe whose check of the tracked pid succeeded finds the process
/// alive: no failure is counted, no retry is scheduled and the pid is kept,
/// whatever the port's owner and the earlier failures.
pub proof fn law_alive_probe_resets(
    e: LiveSnapshot,
    now: u64,
    port_owner: Option<u32>,
    owner_expected_alive: bool,
)
    ensures
        probe_result(e, now, LivenessProbe::Direct { alive: true }) == Some::<(u32, Option<u64>, Option<u32>)>(
            (0, None, None),
        ),
        probe_result(e, now, LivenessProbe::PortLookup { alive: true, port_owner, owner_expected_alive })
            == Some::<(u32, Option<u64>, Option<u32>)>((0, None, None)),
        liveness_result(e, now, LivenessProbe::PortLookup { alive: true, port_owner, owner_expected_alive })
            is Some,
{
}

} // verus!
