use vstd::prelude::*;

use crate::error::{AppError, ErrorKind, Result};
use crate::text::{decimal_parse, parse_decimal};

verus! {

/// `s` without one leading `v`.
pub open spec fn strip_v(s: Seq<char>) -> Seq<char> {
    if s.len() > 0 && s[0] == 'v' {
        s.drop_first()
    } else {
        s
    }
}

/// The pieces of `s` between dots, as `str::split('.')` yields them.
pub open spec fn split_dots(s: Seq<char>) -> Seq<Seq<char>>
    decreases s.len(),
{
    if s.len() == 0 {
        seq![Seq::empty()]
    } else {
        let p = split_dots(s.drop_last());
        if s.last() == '.' {
            p.push(Seq::empty())
        } else {
            p.update(p.len() - 1, p.last().push(s.last()))
        }
    }
}

proof fn lemma_split_dots_nonempty(s: Seq<char>)
    ensures
        split_dots(s).len() >= 1,
    decreases s.len(),
{
    if s.len() > 0 {
        lemma_split_dots_nonempty(s.drop_last());
    }
}

/// The pieces that parse as `u32`, in order (the others are dropped).
pub open spec fn numeric_parts(pieces: Seq<Seq<char>>) -> Seq<int>
    decreases pieces.len(),
{
    if pieces.len() == 0 {
        Seq::empty()
    } else {
        let r = numeric_parts(pieces.drop_last());
        match decimal_parse(pieces.last(), u32::MAX as int) {
            Some(v) => r.push(v),
            None => r,
        }
    }
}

/// Whether the numeric parts of a version are at most 4.14.6, compared on
/// as many of the first three parts as there are.
pub open spec fn parts_at_most_4_14_6(p: Seq<int>) -> bool {
    if p.len() >= 3 {
        p[0] < 4 || (p[0] == 4 && (p[1] < 14 || (p[1] == 14 && p[2] <= 6)))
    } else if p.len() == 2 {
        p[0] < 4 || (p[0] == 4 && p[1] <= 14)
    } else if p.len() == 1 {
        p[0] <= 4
    } else {
        false
    }
}

/// Whether an AstrBot version needs Python 3.10 (v4.14.6 and earlier;
/// later versions use Python 3.12).
pub open spec fn needs_py310(version: Seq<char>) -> bool {
    parts_at_most_4_14_6(numeric_parts(split_dots(strip_v(version))))
}

/// Whether AstrBot `version` needs Python 3.10 rather than 3.12.
pub fn requires_python310(version: &str) -> (r: bool)
    ensures
        r == needs_py310(version@),
{
    let n = version.unicode_len();
    let start: usize = if n > 0 && version.get_char(0) == 'v' {
        1
    } else {
        0
    };
    let ghost body = strip_v(version@);
    assert(body =~= version@.subrange(start as int, n as int));
    let mut parts: Vec<u32> = Vec::new();
    let mut piece_start: usize = start;
    let mut k: usize = start;
    let ghost mut done: Seq<Seq<char>> = Seq::empty();
    proof {
        assert(body.take(0) =~= Seq::<char>::empty());
        assert(version@.subrange(start as int, start as int) =~= Seq::<char>::empty());
        assert(done.push(Seq::<char>::empty()) =~= seq![Seq::<char>::empty()]);
    }
    while k < n
        invariant
            n == version@.len(),
            start <= piece_start <= k <= n,
            body == version@.subrange(start as int, n as int),
            split_dots(body.take(k - start)) == done.push(version@.subrange(piece_start as int, k as int)),
            parts@.map_values(|x: u32| x as int) == numeric_parts(done),
        decreases n - k,
    {
        let ghost t = body.take(k - start);
        let ghost t2 = body.take(k + 1 - start);
        proof {
            assert(t2.drop_last() =~= t);
            assert(t2.last() == version@[k as int]);
        }
        if version.get_char(k) == '.' {
            let piece = version.substring_char(piece_start, k);
            let ghost old_parts = parts@;
            match parse_decimal(piece, u32::MAX) {
                Some(v) => {
                    parts.push(v);
                },
                None => {},
            }
            proof {
                let f = |x: u32| x as int;
                let nd = done.push(version@.subrange(piece_start as int, k as int));
                assert(nd.drop_last() =~= done);
                if parts@.len() > old_parts.len() {
                    assert(parts@.map_values(f) =~= old_parts.map_values(f).push(f(parts@.last())));
                }
                done = nd;
                assert(version@.subrange(k + 1, k + 1) =~= Seq::<char>::empty());
            }
            piece_start = k + 1;
        } else {
            proof {
                lemma_split_dots_nonempty(t);
                assert(version@.subrange(piece_start as int, k + 1) =~= version@.subrange(
                    piece_start as int,
                    k as int,
                ).push(version@[k as int]));
                assert(split_dots(t2) =~= done.push(version@.subrange(piece_start as int, k + 1)));
            }
        }
        k = k + 1;
    }
    let last = version.substring_char(piece_start, n);
    let ghost old_parts = parts@;
    match parse_decimal(last, u32::MAX) {
        Some(v) => {
            parts.push(v);
        },
        None => {},
    }
    proof {
        let f = |x: u32| x as int;
        let all = done.push(version@.subrange(piece_start as int, n as int));
        assert(body.take(n - start) =~= body);
        assert(all.drop_last() =~= done);
        if parts@.len() > old_parts.len() {
            assert(parts@.map_values(f) =~= old_parts.map_values(f).push(f(parts@.last())));
        }
        assert(parts@.map_values(f) == numeric_parts(all));
    }
    let len = parts.len();
    if len >= 3 {
        let (major, minor, patch) = (parts[0], parts[1], parts[2]);
        major < 4 || (major == 4 && (minor < 14 || (minor == 14 && patch <= 6)))
    } else if len == 2 {
        parts[0] < 4 || (parts[0] == 4 && parts[1] <= 14)
    } else if len == 1 {
        parts[0] <= 4
    } else {
        false
    }
}

/// Where a Python runtime should be, and whether its executable exists.
#[derive(Debug)]
pub struct RuntimeInstall {
    pub executable: String,
    pub installed: bool,
}

/// The runtime directory name for AstrBot `version`.
pub fn python_runtime_for_version(version: &str) -> (r: &'static str)
    ensures
        r@ == (if needs_py310(version@) {
            "py310"@
        } else {
            "py312"@
        }),
{
    if requires_python310(version) {
        "py310"
    } else {
        "py312"
    }
}

/// The Python executable for AstrBot `version`: the 3.10 runtime for
/// v4.14.6 and earlier, else the 3.12 runtime; an error when it is missing.
pub fn get_python_for_version(version: &str, py310: &RuntimeInstall, py312: &RuntimeInstall) -> (r:
    Result<String>)
    ensures
        ({
            let rt = if needs_py310(version@) {
                *py310
            } else {
                *py312
            };
            &&& rt.installed ==> (r matches Ok(p) && p@ == rt.executable@)
            &&& !rt.installed ==> (r matches Err(e) && e.kind == ErrorKind::PythonNotInstalled
                && e.message@ == "Python is not installed"@)
        }),
{
    let rt = if requires_python310(version) {
        py310
    } else {
        py312
    };
    if rt.installed {
        Ok(rt.executable.clone())
    } else {
        Err(AppError::python_not_installed())
    }
}

/// The Python component counts as installed only when both runtimes are.
pub fn is_component_installed(py310: &RuntimeInstall, py312: &RuntimeInstall) -> (r: bool)
    ensures
        r == (py310.installed && py312.installed),
{
    py310.installed && py312.installed
}

/// The uv component: where `uv` and `uvx` should be and whether they exist.
#[derive(Debug)]
pub struct UvInstall {
    pub uv_executable: String,
    pub uv_exists: bool,
    pub uvx_exists: bool,
}

/// uv counts as installed only when both `uv` and `uvx` exist.
pub fn is_uv_installed(uv: &UvInstall) -> (r: bool)
    ensures
        r == (uv.uv_exists && uv.uvx_exists),
{
    uv.uv_exists && uv.uvx_exists
}

/// The `uv` executable, or an error when it is missing.
pub fn get_uv_executable(uv: &UvInstall) -> (r: Result<String>)
    ensures
        uv.uv_exists ==> (r matches Ok(p) && p@ == uv.uv_executable@),
        !uv.uv_exists ==> (r matches Err(e) && e.kind == ErrorKind::Other && e.message@ == "uv 组件未安装"@),
{
    if uv.uv_exists {
        Ok(uv.uv_executable.clone())
    } else {
        Err(AppError::other("uv 组件未安装"))
    }
}

/// How an instance's dependencies are brought up to date.
#[derive(Debug, PartialEq, Eq, Structural)]
pub enum DependencySync {
    /// `uv sync` in the instance's virtual environment.
    Uv,
    /// `pip install -r requirements.txt`, then write the marker file.
    Pip,
    /// Nothing to do: no requirements file, or pip already ran.
    Skip,
}

/// The dependency step of a deployment, and whether the uv setting is to be
/// turned off because uv disappeared. uv is used when enabled and
/// installed; otherwise pip runs once per instance (a marker file records
/// success).
pub fn plan_dependency_sync(
    use_uv: bool,
    uv_installed: bool,
    requirements_exist: bool,
    marker_exists: bool,
) -> (r: (DependencySync, bool))
    ensures
        r.1 == (use_uv && !uv_installed),
        r.0 == (if use_uv && uv_installed {
            DependencySync::Uv
        } else if !requirements_exist || marker_exists {
            DependencySync::Skip
        } else {
            DependencySync::Pip
        }),
{
    if use_uv && uv_installed {
        return (DependencySync::Uv, false);
    }
    let disable_uv = use_uv;
    if !requirements_exist || marker_exists {
        (DependencySync::Skip, disable_uv)
    } else {
        (DependencySync::Pip, disable_uv)
    }
}

/// The uv release that the launcher installs.
pub open spec fn uv_version() -> Seq<char> {
    "0.10.2"@
}

/// The uv release that the launcher installs.
pub fn uv_version_text() -> (r: String)
    ensures
        r@ == uv_version(),
{
    "0.10.2".to_owned()
}

/// Where the uv archive for this platform is downloaded from.
pub open spec fn uv_download_url_spec(archive_name: Seq<char>) -> Seq<char> {
    "https://github.com/astral-sh/uv/releases/download/"@ + uv_version() + "/"@ + archive_name
}

/// The uv archive's download URL, behind the GitHub proxy when the
/// configuration could be read (`Some`).
pub fn uv_download_url(archive_name: &str, github_proxy: Option<&str>) -> (r: String)
    ensures
        r@ == match github_proxy {
            Some(p) => crate::github::wrapped(p@, uv_download_url_spec(archive_name@)),
            None => uv_download_url_spec(archive_name@),
        },
{
    let mut raw = "https://github.com/astral-sh/uv/releases/download/".to_owned();
    raw.append("0.10.2");
    raw.append("/");
    raw.append(archive_name);
    match github_proxy {
        Some(p) => crate::github::wrap_with_proxy(p, raw.as_str()),
        None => raw,
    }
}

/// How a downloaded archive is unpacked.
#[derive(Debug, PartialEq, Eq, Structural)]
pub enum ArchiveFormat {
    Zip,
    TarGz,
}

/// Whether `s` ends with `suffix`.
pub open spec fn ends_with(s: Seq<char>, suffix: Seq<char>) -> bool {
    suffix.len() <= s.len() && s.subrange(s.len() - suffix.len(), s.len() as int) == suffix
}

/// Archives named `*.zip` are zip files; all others are gzipped tarballs.
pub fn archive_format_for(name: &str) -> (r: ArchiveFormat)
    ensures
        r == (if ends_with(name@, ".zip"@) {
            ArchiveFormat::Zip
        } else {
            ArchiveFormat::TarGz
        }),
{
    proof {
        reveal_strlit(".zip");
    }
    let n = name.unicode_len();
    if n < 4 {
        return ArchiveFormat::TarGz;
    }
    let tail = name.substring_char(n - 4, n);
    let tail_owned = tail.to_owned();
    let zip = ".zip".to_owned();
    if tail_owned == zip {
        ArchiveFormat::Zip
    } else {
        ArchiveFormat::TarGz
    }
}

/// The Python minor release installed for a requested one: Windows on ARM
/// has no 3.10 builds, so 3.11 is installed in its place there.
pub fn effective_python_version(requested: &str, windows_arm: bool) -> (r: String)
    ensures
        r@ == (if windows_arm && requested@ == "3.10"@ {
            "3.11"@
        } else {
            requested@
        }),
{
    if windows_arm && crate::registry::str_equal(requested, "3.10") {
        "3.11".to_owned()
    } else {
        requested.to_owned()
    }
}

/// A list of strings seen as character sequences.
pub open spec fn strings_view(v: Seq<String>) -> Seq<Seq<char>> {
    v.map_values(|s: String| s@)
}

/// Arguments of `python -m pip install -r <requirements> -i <index>`.
pub open spec fn pip_install_args_spec(requirements_path: Seq<char>, default_index: Seq<char>) -> Seq<Seq<char>> {
    seq!["-m"@, "pip"@, "install"@, "-r"@, requirements_path, "-i"@, default_index]
}

/// The arguments for installing an instance's requirements with pip.
pub fn pip_install_args(requirements_path: &str, default_index: &str) -> (r: Vec<String>)
    ensures
        strings_view(r@) == pip_install_args_spec(requirements_path@, default_index@),
{
    let mut v: Vec<String> = Vec::new();
    v.push("-m".to_owned());
    v.push("pip".to_owned());
    v.push("install".to_owned());
    v.push("-r".to_owned());
    v.push(requirements_path.to_owned());
    v.push("-i".to_owned());
    v.push(default_index.to_owned());
    assert(strings_view(v@) =~= pip_install_args_spec(requirements_path@, default_index@));
    v
}

/// Arguments of `uv sync` inside an instance's virtual environment: never
/// managed or downloaded Pythons, keep extra packages, use the given
/// interpreter, cache and index.
pub open spec fn uv_sync_args_spec(venv_python: Seq<char>, cache_dir: Seq<char>, default_index: Seq<char>) -> Seq<Seq<char>> {
    seq![
        "sync"@,
        "--active"@,
        "--no-managed-python"@,
        "--no-python-downloads"@,
        "--inexact"@,
        "--python"@,
        venv_python,
        "--cache-dir"@,
        cache_dir,
        "--default-index"@,
        default_index,
    ]
}

/// The arguments for synchronizing an instance's dependencies with uv.
pub fn uv_sync_args(venv_python: &str, cache_dir: &str, default_index: &str) -> (r: Vec<String>)
    ensures
        strings_view(r@) == uv_sync_args_spec(venv_python@, cache_dir@, default_index@),
{
    let mut v: Vec<String> = Vec::new();
    v.push("sync".to_owned());
    v.push("--active".to_owned());
    v.push("--no-managed-python".to_owned());
    v.push("--no-python-downloads".to_owned());
    v.push("--inexact".to_owned());
    v.push("--python".to_owned());
    v.push(venv_python.to_owned());
    v.push("--cache-dir".to_owned());
    v.push(cache_dir.to_owned());
    v.push("--default-index".to_owned());
    v.push(default_index.to_owned());
    assert(strings_view(v@) =~= uv_sync_args_spec(venv_python@, cache_dir@, default_index@));
    v
}

/// How running an external tool went: it could not be started (with the
/// error's text), or it ran and exited, successfully or not, with its
/// standard error output.
#[derive(Debug)]
pub enum ToolRun {
    NotStarted(String),
    Exited { success: bool, stderr: String },
}

/// The result of a tool run: `Ok` on a successful exit; otherwise the
/// message for a start failure or for a failed exit, followed by the
/// error's text or the tool's standard error output.
pub open spec fn tool_outcome(run: ToolRun, not_started: Seq<char>, failed: Seq<char>) -> Option<Seq<char>> {
    match run {
        ToolRun::NotStarted(e) => Some(not_started + e@),
        ToolRun::Exited { success, stderr } => if success {
            None
        } else {
            Some(failed + stderr@)
        },
    }
}

fn python_tool_result(run: ToolRun, not_started: &str, failed: &str) -> (r: Result<()>)
    ensures
        match tool_outcome(run, not_started@, failed@) {
            None => r is Ok,
            Some(m) => r matches Err(e) && e.kind == ErrorKind::Python && e.message@ == m,
        },
{
    match run {
        ToolRun::NotStarted(e) => {
            let mut m = not_started.to_owned();
            m.append(e.as_str());
            Err(AppError::python(m.as_str()))
        },
        ToolRun::Exited { success, stderr } => {
            if success {
                Ok(())
            } else {
                let mut m = failed.to_owned();
                m.append(stderr.as_str());
                Err(AppError::python(m.as_str()))
            }
        },
    }
}

/// The result of `pip install -r requirements.txt`: `Ok` exactly when pip
/// exits successfully; otherwise a Python error with pip's standard error
/// output (or why it could not start).
pub fn pip_install_result(run: ToolRun) -> (r: Result<()>)
    ensures
        match tool_outcome(
            run,
            "Failed to install requirements: "@,
            "Failed to install requirements: "@,
        ) {
            None => r is Ok,
            Some(m) => r matches Err(e) && e.kind == ErrorKind::Python && e.message@ == m,
        },
{
    python_tool_result(run, "Failed to install requirements: ", "Failed to install requirements: ")
}

/// The result of `uv sync`: `Ok` exactly when uv exits successfully;
/// otherwise a Python error, `uv sync failed: ` and uv's standard error
/// output (or why it could not start).
pub fn uv_sync_result(run: ToolRun) -> (r: Result<()>)
    ensures
        match tool_outcome(run, "Failed to run uv sync: "@, "uv sync failed: "@) {
            None => r is Ok,
            Some(m) => r matches Err(e) && e.kind == ErrorKind::Python && e.message@ == m,
        },
{
    python_tool_result(run, "Failed to run uv sync: ", "uv sync failed: ")
}

/// The result of `python -m venv`: `Ok` exactly when Python exits
/// successfully; otherwise a Python error with its standard error output
/// (or why it could not start).
pub fn venv_create_result(run: ToolRun) -> (r: Result<()>)
    ensures
        match tool_outcome(run, "Failed to create venv: "@, "Failed to create venv: "@) {
            None => r is Ok,
            Some(m) => r matches Err(e) && e.kind == ErrorKind::Python && e.message@ == m,
        },
{
    python_tool_result(run, "Failed to create venv: ", "Failed to create venv: ")
}

/// What creating an instance's virtual environment has to do.
#[derive(Debug)]
pub enum VenvStep {
    /// The environment exists with its Python: nothing to do.
    Ready,
    /// Create it with the given Python.
    Create(String),
    /// The directory exists without a Python: remove it, then create it.
    Recreate(String),
}

/// Plan the virtual environment of an instance. The runtime Python for its
/// version is looked up first, and its absence fails the step; then an
/// existing environment with a Python is kept, a broken one is recreated
/// and a missing one is created.
pub fn plan_venv(python: Result<String>, venv_dir_exists: bool, venv_python_exists: bool) -> (r: Result<VenvStep>)
    ensures
        match python {
            Err(e) => r == Err::<VenvStep, AppError>(e),
            Ok(p) => r == Ok::<VenvStep, AppError>(
                if venv_dir_exists && venv_python_exists {
                    VenvStep::Ready
                } else if venv_dir_exists {
                    VenvStep::Recreate(p)
                } else {
                    VenvStep::Create(p)
                },
            ),
        },
{
    let p = match python {
        Err(e) => {
            return Err(e);
        },
        Ok(p) => p,
    };
    if venv_dir_exists && venv_python_exists {
        Ok(VenvStep::Ready)
    } else if venv_dir_exists {
        Ok(VenvStep::Recreate(p))
    } else {
        Ok(VenvStep::Create(p))
    }
}


/// `uv sync` keeps packages that are not in the lock file: the flags hold
/// `--inexact`, and `--exact` occurs only where a caller-given value is it.
/// The command is `sync`, and the first `--python` flag is followed by the
/// environment's interpreter.
pub proof fn law_uv_sync_keeps_extra_packages(venv_python: Seq<char>, cache_dir: Seq<char>, default_index: Seq<char>)
    ensures
        ({
            let a = uv_sync_args_spec(venv_python, cache_dir, default_index);
            &&& a.len() > 0 && a[0] == "sync"@
            &&& a.contains("--inexact"@)
            &&& forall|i: int| 0 <= i < a.len() && #[trigger] a[i] == "--exact"@ ==> (a[i] == venv_python
                || a[i] == cache_dir || a[i] == default_index)
            &&& exists|i: int|
                0 <= i < a.len() - 1 && #[trigger] a[i] == "--python"@ && a[i + 1] == venv_python && forall|j: int|
                    0 <= j < i ==> a[j] != "--python"@
        }),
{
    reveal_strlit("sync");
    reveal_strlit("--active");
    reveal_strlit("--no-managed-python");
    reveal_strlit("--no-python-downloads");
    reveal_strlit("--inexact");
    reveal_strlit("--exact");
    reveal_strlit("--python");
    reveal_strlit("--cache-dir");
    reveal_strlit("--default-index");
    let a = uv_sync_args_spec(venv_python, cache_dir, default_index);
    assert(a[4] == "--inexact"@);
    assert(a.contains("--inexact"@));
    assert forall|i: int| 0 <= i < a.len() && #[trigger] a[i] == "--exact"@ implies (a[i] == venv_python || a[i]
        == cache_dir || a[i] == default_index) by {
        if i != 6 && i != 8 && i != 10 {
            assert(a[i].len() != 7 || a[i][2] != 'e');
        }
    }
    assert(a[5] == "--python"@);
    assert forall|j: int| 0 <= j < 5 implies a[j] != "--python"@ by {
        assert(a[j].len() != 8 || a[j][2] != 'p');
    }
}

} // verus!
