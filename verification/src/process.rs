use vstd::prelude::*;

verus! {

/// Longest wait between two probes, in seconds.
pub const MAX_BACKOFF_SECS: u64 = 30;

/// Consecutive failed health checks after which a live instance is unhealthy.
pub const UNHEALTHY_THRESHOLD: u32 = 3;

/// Consecutive failed liveness probes after which a process is taken as exited
/// (only where liveness probing retries, i.e. on Windows).
pub const ALIVE_EXIT_THRESHOLD: u32 = 5;

/// Capped exponential backoff as a function.
pub open spec fn backoff_secs(failure_count: u32) -> u64 {
    let e: nat = if failure_count <= 5 { failure_count as nat } else { 5 };
    let raw: int = vstd::arithmetic::power2::pow2(e) as int;
    if raw <= MAX_BACKOFF_SECS { raw as u64 } else { MAX_BACKOFF_SECS }
}

/// Capped exponential backoff: `2^count` seconds, clamped to [`MAX_BACKOFF_SECS`].
pub fn calculate_backoff(failure_count: u32) -> (secs: u64)
    ensures
        secs == backoff_secs(failure_count),
        1 <= secs <= MAX_BACKOFF_SECS,
{
    let e: u32 = if failure_count <= 5 { failure_count } else { 5 };
    let raw: u64 = 1u64 << e;
    proof {
        vstd::arithmetic::power2::lemma2_to64();
        assert(raw == vstd::arithmetic::power2::pow2(e as nat)) by {
            vstd::bits::lemma_u64_shl_is_mul(1u64, e as u64);
            vstd::arithmetic::power2::lemma_pow2(e as nat);
        }
    }
    if raw <= MAX_BACKOFF_SECS { raw } else { MAX_BACKOFF_SECS }
}


/// Lifecycle state of an instance as reported to the user interface.
#[derive(Debug, Clone, Copy, PartialEq, Eq, Structural)]
pub enum InstanceState {
    Stopped,
    Starting,
    Running,
    Unhealthy,
    Stopping,
}

/// A state change of one instance, broadcast to listeners.
#[derive(Debug)]
pub struct RuntimeEvent {
    pub instance_id: String,
    pub state: InstanceState,
}

/// Information about a running instance.
///
/// Times are milliseconds on a monotonic clock chosen by the caller.
#[derive(Debug)]
pub struct InstanceProcess {
    pub pid: u32,
    pub executable_path: String,
    pub port: u16,
    pub dashboard_enabled: bool,
    /// Consecutive failed health checks.
    pub health_failure_count: u32,
    /// When the next health check is due (backoff).
    pub next_health_check_at: Option<u64>,
    /// Consecutive failed liveness probes.
    pub alive_failure_count: u32,
    /// When the next liveness probe is due (backoff).
    pub next_alive_check_at: Option<u64>,
}

/// Typed runtime info of one tracked instance.
#[derive(Debug)]
pub enum InstanceRuntimeInfo {
    /// Launch in progress.
    Starting,
    /// Process running, healthy or not.
    Live { state: InstanceState, port: u16, dashboard_enabled: bool },
    /// Shutdown in progress; values captured from `Live` at transition time.
    Stopping { port: u16, dashboard_enabled: bool },
}

impl InstanceProcess {
    /// A freshly tracked process: no failures, no pending backoff.
    pub fn new(pid: u32, executable_path: String, port: u16, dashboard_enabled: bool) -> (p:
        InstanceProcess)
        ensures
            p == InstanceProcess::fresh(pid, executable_path, port, dashboard_enabled),
    {
        InstanceProcess {
            pid,
            executable_path,
            port,
            dashboard_enabled,
            health_failure_count: 0,
            next_health_check_at: None,
            alive_failure_count: 0,
            next_alive_check_at: None,
        }
    }

    pub open spec fn fresh(pid: u32, executable_path: String, port: u16, dashboard_enabled: bool) -> InstanceProcess {
        InstanceProcess {
            pid,
            executable_path,
            port,
            dashboard_enabled,
            health_failure_count: 0,
            next_health_check_at: None,
            alive_failure_count: 0,
            next_alive_check_at: None,
        }
    }
}

/// The health state derived from the failure counter.
pub open spec fn health_state(health_failure_count: u32) -> InstanceState {
    if health_failure_count >= UNHEALTHY_THRESHOLD {
        InstanceState::Unhealthy
    } else {
        InstanceState::Running
    }
}

/// Derive the health state of a live process from its counters.
pub fn derive_health_state(p: &InstanceProcess) -> (s: InstanceState)
    ensures
        s == health_state(p.health_failure_count),
{
    if p.health_failure_count >= UNHEALTHY_THRESHOLD {
        InstanceState::Unhealthy
    } else {
        InstanceState::Running
    }
}

} // verus!
