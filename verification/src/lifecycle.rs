use vstd::prelude::*;

use crate::error::{AppError, ErrorKind, Result};

verus! {

/// The log line with which AstrBot reports that it has started.
pub open spec fn startup_marker() -> Seq<char> {
    "AstrBot 启动完成"@
}

/// Whether `pat` occurs in `s` at position `i`.
pub open spec fn occurs_at(s: Seq<char>, pat: Seq<char>, i: int) -> bool {
    0 <= i && i + pat.len() <= s.len() && s.subrange(i, i + pat.len()) == pat
}

/// Whether `pat` occurs somewhere in `s`.
pub open spec fn contains_text(s: Seq<char>, pat: Seq<char>) -> bool {
    exists|i: int| #[trigger] occurs_at(s, pat, i)
}

fn chars_of(s: &str) -> (v: Vec<char>)
    ensures
        v@ == s@,
{
    let n = s.unicode_len();
    let mut v: Vec<char> = Vec::new();
    let mut i: usize = 0;
    while i < n
        invariant
            n == s@.len(),
            i <= n,
            v@ == s@.take(i as int),
        decreases n - i,
    {
        v.push(s.get_char(i));
        i = i + 1;
        assert(v@ =~= s@.take(i as int));
    }
    assert(s@.take(n as int) =~= s@);
    v
}

/// Whether `pat` occurs in `s` (as `str::contains`).
pub fn contains(s: &str, pat: &str) -> (r: bool)
    ensures
        r == contains_text(s@, pat@),
{
    let sv = chars_of(s);
    let pv = chars_of(pat);
    let n = sv.len();
    let m = pv.len();
    if m > n {
        proof {
            assert forall|i: int| !(#[trigger] occurs_at(s@, pat@, i)) by {}
        }
        return false;
    }
    let mut i: usize = 0;
    while i <= n - m
        invariant
            sv@ == s@,
            pv@ == pat@,
            n == s@.len(),
            m == pat@.len(),
            m <= n,
            i <= n - m + 1,
            forall|j: int| 0 <= j < i ==> !(#[trigger] occurs_at(s@, pat@, j)),
        decreases n - m + 1 - i,
    {
        let mut k: usize = 0;
        while k < m && sv[i + k] == pv[k]
            invariant
                sv@ == s@,
                pv@ == pat@,
                n == s@.len(),
                m == pat@.len(),
                i + m <= n,
                k <= m,
                forall|q: int| 0 <= q < k ==> s@[i + q] == pat@[q],
            decreases m - k,
        {
            k = k + 1;
        }
        if k == m {
            assert(s@.subrange(i as int, i + m) =~= pat@);
            assert(occurs_at(s@, pat@, i as int));
            return true;
        }
        proof {
            assert(s@.subrange(i as int, i + m)[k as int] != pat@[k as int]);
        }
        i = i + 1;
    }
    false
}

/// Whether a line of the instance's standard output announces that
/// startup has completed.
pub fn is_startup_complete_line(line: &str) -> (r: bool)
    ensures
        r == contains_text(line@, startup_marker()),
{
    contains(line, "AstrBot 启动完成")
}

/// The decimal digit character for `d < 10`.
pub open spec fn digit_char(d: int) -> char {
    ('0' as int + d) as char
}

/// Decimal representation without leading zeros.
pub open spec fn decimal(n: nat) -> Seq<char>
    decreases n,
{
    if n < 10 {
        seq![digit_char(n as int)]
    } else {
        decimal(n / 10).push(digit_char((n % 10) as int))
    }
}

fn digit_str(d: u64) -> (s: &'static str)
    requires
        d < 10,
    ensures
        s@ == seq![digit_char(d as int)],
{
    proof {
        reveal_strlit("0");
        reveal_strlit("1");
        reveal_strlit("2");
        reveal_strlit("3");
        reveal_strlit("4");
        reveal_strlit("5");
        reveal_strlit("6");
        reveal_strlit("7");
        reveal_strlit("8");
        reveal_strlit("9");
    }
    if d == 0 {
        "0"
    } else if d == 1 {
        "1"
    } else if d == 2 {
        "2"
    } else if d == 3 {
        "3"
    } else if d == 4 {
        "4"
    } else if d == 5 {
        "5"
    } else if d == 6 {
        "6"
    } else if d == 7 {
        "7"
    } else if d == 8 {
        "8"
    } else {
        "9"
    }
}

/// Decimal text of a number (as its `Display`).
pub fn to_decimal(n: u64) -> (s: String)
    ensures
        s@ == decimal(n as nat),
    decreases n,
{
    if n < 10 {
        return digit_str(n).to_owned();
    }
    let mut s = to_decimal(n / 10);
    s.append(digit_str(n % 10));
    s
}

/// The environment of an AstrBot process besides what it inherits and the
/// Node.js variables: launcher marker, dashboard port, unbuffered UTF-8
/// output, its virtual environment and PATH, and uv kept to the
/// environment's Python, cache and package index.
pub open spec fn instance_env_spec(
    port: u16,
    venv_dir: Seq<char>,
    path: Seq<char>,
    venv_python: Seq<char>,
    uv_cache_dir: Seq<char>,
    default_index: Seq<char>,
) -> Seq<(Seq<char>, Seq<char>)> {
    seq![
        ("ASTRBOT_LAUNCHER"@, "1"@),
        ("DASHBOARD_PORT"@, decimal(port as nat)),
        ("PYTHONUNBUFFERED"@, "1"@),
        ("PYTHONIOENCODING"@, "utf-8"@),
        ("VIRTUAL_ENV"@, venv_dir),
        ("PATH"@, path),
        ("UV_NO_MANAGED_PYTHON"@, "1"@),
        ("UV_PYTHON_DOWNLOADS"@, "never"@),
        ("UV_PYTHON"@, venv_python),
        ("UV_CACHE_DIR"@, uv_cache_dir),
        ("UV_DEFAULT_INDEX"@, default_index),
    ]
}

/// The environment variables set for an AstrBot process.
pub fn instance_env(
    port: u16,
    venv_dir: &str,
    path: &str,
    venv_python: &str,
    uv_cache_dir: &str,
    default_index: &str,
) -> (r: Vec<(String, String)>)
    ensures
        crate::proxy::pairs_view(r@) == instance_env_spec(
            port,
            venv_dir@,
            path@,
            venv_python@,
            uv_cache_dir@,
            default_index@,
        ),
{
    let mut v: Vec<(String, String)> = Vec::new();
    v.push(("ASTRBOT_LAUNCHER".to_owned(), "1".to_owned()));
    v.push(("DASHBOARD_PORT".to_owned(), to_decimal(port as u64)));
    v.push(("PYTHONUNBUFFERED".to_owned(), "1".to_owned()));
    v.push(("PYTHONIOENCODING".to_owned(), "utf-8".to_owned()));
    v.push(("VIRTUAL_ENV".to_owned(), venv_dir.to_owned()));
    v.push(("PATH".to_owned(), path.to_owned()));
    v.push(("UV_NO_MANAGED_PYTHON".to_owned(), "1".to_owned()));
    v.push(("UV_PYTHON_DOWNLOADS".to_owned(), "never".to_owned()));
    v.push(("UV_PYTHON".to_owned(), venv_python.to_owned()));
    v.push(("UV_CACHE_DIR".to_owned(), uv_cache_dir.to_owned()));
    v.push(("UV_DEFAULT_INDEX".to_owned(), default_index.to_owned()));
    proof {
        assert(crate::proxy::pairs_view(v@) =~= instance_env_spec(
            port,
            venv_dir@,
            path@,
            venv_python@,
            uv_cache_dir@,
            default_index@,
        ));
    }
    v
}

/// Which port an instance is started on: its configured port when it has
/// one (which must then be free), else a free port that the system finds.
/// The two probes come from the caller; only the one that applies is read.
pub fn choose_port(configured: u16, configured_free: Result<()>, found_free: Result<u16>) -> (r: Result<u16>)
    ensures
        configured > 0 ==> match configured_free {
            Ok(()) => r == Ok::<u16, AppError>(configured),
            Err(e) => r == Err::<u16, AppError>(e),
        },
        configured == 0 ==> r == found_free,
{
    if configured > 0 {
        match configured_free {
            Ok(()) => Ok(configured),
            Err(e) => Err(e),
        }
    } else {
        found_free
    }
}

/// How the wait for a process that exited early ended: with its exit
/// status (as displayed), with an error of the wait itself, or without word
/// from the waiting task.
#[derive(Debug)]
pub enum ExitReport {
    Status(String),
    WaitFailed(String),
    Lost,
}

/// The message of a start that failed because the process exited first.
pub open spec fn early_exit_message(report: ExitReport) -> Seq<char> {
    match report {
        ExitReport::Status(status) => "Instance exited before startup completed (exit status: "@ + status@
            + ")"@,
        ExitReport::WaitFailed(err) => "Instance exited before startup completed ("@ + err@ + ")"@,
        ExitReport::Lost => "Instance exited before startup completed"@,
    }
}

/// The message of a start that failed because the process exited first.
pub fn early_exit_detail(report: &ExitReport) -> (s: String)
    ensures
        s@ == early_exit_message(*report),
{
    match report {
        ExitReport::Status(status) => {
            let mut s = "Instance exited before startup completed (exit status: ".to_owned();
            s.append(status.as_str());
            s.append(")");
            s
        },
        ExitReport::WaitFailed(err) => {
            let mut s = "Instance exited before startup completed (".to_owned();
            s.append(err.as_str());
            s.append(")");
            s
        },
        ExitReport::Lost => "Instance exited before startup completed".to_owned(),
    }
}

/// The message of a start whose output closed before the startup marker.
pub open spec fn stream_closed_message() -> Seq<char> {
    "Failed to detect startup completion from log stream"@
}

/// What ended the wait for an instance to start.
#[derive(Debug)]
pub enum StartupEvent {
    /// The startup marker appeared (`true`), or the output closed before it
    /// did (`false`).
    Signal(bool),
    /// The process exited first.
    Exited(ExitReport),
    /// The wait timed out.
    TimedOut,
}

/// What to do once the wait for startup has ended: the result, and whether
/// the process is to be removed from tracking and killed.
#[derive(Debug)]
pub struct StartupResolution {
    pub result: Result<u16>,
    pub untrack: bool,
    pub kill: bool,
}

/// Resolve the wait for startup. The marker means the instance runs on
/// `port`; a closed output or an early exit fail the start; a timeout fails
/// it and kills the process, but only when it still is the process that was
/// started (its pid may have been reused).
pub fn resolve_startup(port: u16, event: StartupEvent, still_expected_process: bool) -> (r: StartupResolution)
    ensures
        match event {
            StartupEvent::Signal(true) => r.result == Ok::<u16, AppError>(port) && !r.untrack && !r.kill,
            StartupEvent::Signal(false) => (r.result matches Err(e) && e.kind == ErrorKind::Process
                && e.message@ == stream_closed_message()) && r.untrack && !r.kill,
            StartupEvent::Exited(report) => (r.result matches Err(e) && e.kind == ErrorKind::Process
                && e.message@ == early_exit_message(report)) && r.untrack && !r.kill,
            StartupEvent::TimedOut => (r.result matches Err(e) && e.kind == ErrorKind::StartupTimeout
                && e.message@ == "Instance startup timed out"@)
                && r.untrack && r.kill == still_expected_process,
        },
{
    match event {
        StartupEvent::Signal(true) => StartupResolution { result: Ok(port), untrack: false, kill: false },
        StartupEvent::Signal(false) => StartupResolution {
            result: Err(AppError::process("Failed to detect startup completion from log stream")),
            untrack: true,
            kill: false,
        },
        StartupEvent::Exited(report) => StartupResolution {
            result: Err(AppError::process(early_exit_detail(&report).as_str())),
            untrack: true,
            kill: false,
        },
        StartupEvent::TimedOut => StartupResolution {
            result: Err(AppError::startup_timeout()),
            untrack: true,
            kill: still_expected_process,
        },
    }
}

/// The steps a deployment still has to take: extract the code when
/// `main.py` is missing, create the virtual environment when its Python is
/// missing; dependencies are synchronized every time.
pub fn plan_deploy(main_py_exists: bool, venv_python_exists: bool) -> (r: (bool, bool))
    ensures
        r == (!main_py_exists, !venv_python_exists),
{
    (!main_py_exists, !venv_python_exists)
}


/// The instance's environment is keyed by distinct names; `PATH` is the
/// given search path, `VIRTUAL_ENV` the given environment directory,
/// `UV_PYTHON` the environment's Python, `UV_CACHE_DIR` the cache,
/// `UV_DEFAULT_INDEX` the index and `DASHBOARD_PORT` the port in decimal.
pub proof fn law_instance_env_values(
    port: u16,
    venv_dir: Seq<char>,
    path: Seq<char>,
    venv_python: Seq<char>,
    uv_cache_dir: Seq<char>,
    default_index: Seq<char>,
)
    ensures
        ({
            let env = instance_env_spec(port, venv_dir, path, venv_python, uv_cache_dir, default_index);
            &&& forall|i: int, j: int| 0 <= i < j < env.len() ==> (#[trigger] env[i]).0 != (#[trigger] env[j]).0
            &&& exists|i: int| 0 <= i < env.len() && (#[trigger] env[i]).0 == "PATH"@
            &&& exists|i: int| 0 <= i < env.len() && (#[trigger] env[i]).0 == "VIRTUAL_ENV"@
            &&& forall|i: int| 0 <= i < env.len() && (#[trigger] env[i]).0 == "PATH"@ ==> env[i].1 == path
            &&& forall|i: int| 0 <= i < env.len() && (#[trigger] env[i]).0 == "VIRTUAL_ENV"@ ==> env[i].1 == venv_dir
            &&& forall|i: int| 0 <= i < env.len() && (#[trigger] env[i]).0 == "UV_PYTHON"@ ==> env[i].1 == venv_python
            &&& forall|i: int| 0 <= i < env.len() && (#[trigger] env[i]).0 == "UV_CACHE_DIR"@ ==> env[i].1 == uv_cache_dir
            &&& forall|i: int| 0 <= i < env.len() && (#[trigger] env[i]).0 == "UV_DEFAULT_INDEX"@ ==> env[i].1
                == default_index
            &&& forall|i: int| 0 <= i < env.len() && (#[trigger] env[i]).0 == "DASHBOARD_PORT"@ ==> env[i].1
                == decimal(port as nat)
        }),
{
    reveal_strlit("ASTRBOT_LAUNCHER");
    reveal_strlit("DASHBOARD_PORT");
    reveal_strlit("PYTHONUNBUFFERED");
    reveal_strlit("PYTHONIOENCODING");
    reveal_strlit("VIRTUAL_ENV");
    reveal_strlit("PATH");
    reveal_strlit("UV_NO_MANAGED_PYTHON");
    reveal_strlit("UV_PYTHON_DOWNLOADS");
    reveal_strlit("UV_PYTHON");
    reveal_strlit("UV_CACHE_DIR");
    reveal_strlit("UV_DEFAULT_INDEX");
    let env = instance_env_spec(port, venv_dir, path, venv_python, uv_cache_dir, default_index);
    let keys = env.map_values(|p: (Seq<char>, Seq<char>)| p.0);
    assert(env[5].0 == "PATH"@);
    assert(env[4].0 == "VIRTUAL_ENV"@);
    // Each key is told apart from the others by its length and first two letters.
    assert forall|i: int, j: int| 0 <= i < j < env.len() implies (#[trigger] env[i]).0 != (#[trigger] env[j]).0 by {
        let a = env[i].0;
        let b = env[j].0;
        if a == b {
            assert(a.len() == b.len() && a[0] == b[0] && a[1] == b[1] && a[a.len() - 1] == b[b.len() - 1]);
        }
    }
}

} // verus!
