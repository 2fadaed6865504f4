use vstd::prelude::*;

use crate::config::{AppManifest, InstalledVersion, InstanceConfig};
use crate::error::{AppError, ErrorKind, Result};
use crate::registry::str_equal;

verus! {

/// A download progress report.
#[derive(Debug)]
pub struct DownloadProgress {
    pub id: String,
    pub downloaded: u64,
    pub total: Option<u64>,
    /// Progress in percent (0-100); `None` when unknown.
    pub progress: Option<u8>,
    pub step: String,
    pub message: String,
}

/// Percent done, kept at 99 or below (100 is reserved for the end), `None`
/// when the total size is unknown and 0 when it is zero.
pub open spec fn percent_0_99(downloaded: u64, total: Option<u64>) -> Option<u8> {
    match total {
        None => None,
        Some(t) => if t == 0 {
            Some(0)
        } else {
            let prod: int = if downloaded * 99 > u64::MAX {
                u64::MAX as int
            } else {
                downloaded * 99
            };
            let p = prod / (t as int);
            Some((if p < 99 { p } else { 99 }) as u8)
        },
    }
}

/// Percent done of a download (see [`percent_0_99`]).
pub fn compute_percent_0_99(downloaded: u64, total: Option<u64>) -> (r: Option<u8>)
    ensures
        r == percent_0_99(downloaded, total),
        r matches Some(p) ==> p <= 99,
{
    let t = match total {
        Some(t) => t,
        None => {
            return None;
        },
    };
    if t == 0 {
        return Some(0);
    }
    let prod: u64 = if downloaded > u64::MAX / 99 {
        u64::MAX
    } else {
        downloaded * 99
    };
    let p = prod / t;
    let capped: u64 = if p < 99 { p } else { 99 };
    Some(capped as u8)
}

/// The percentage never goes down as more bytes arrive.
pub proof fn law_percent_monotone(a: u64, b: u64, total: u64)
    requires
        a <= b,
    ensures
        percent_0_99(a, Some(total))->Some_0 <= percent_0_99(b, Some(total))->Some_0,
{
    if total != 0 {
        let pa: int = if a * 99 > u64::MAX { u64::MAX as int } else { a * 99 };
        let pb: int = if b * 99 > u64::MAX { u64::MAX as int } else { b * 99 };
        assert(a * 99 <= b * 99) by (nonlinear_arith)
            requires
                a <= b,
        ;
        assert(pa <= pb);
        assert(pa / (total as int) <= pb / (total as int)) by (nonlinear_arith)
            requires
                pa <= pb,
                total > 0,
        ;
    }
}

/// Whether a progress report is due while downloading: at least 100 ms
/// since the last one, or the percentage went up.
pub fn should_emit_progress(elapsed_ms: u64, current_percent: u8, last_percent: u8) -> (r: bool)
    ensures
        r == (elapsed_ms >= 100 || current_percent > last_percent),
{
    elapsed_ms >= 100 || current_percent > last_percent
}

/// The percentage of the report that closes the transfer: as computed, or
/// 99 when the total size is unknown.
pub fn final_download_percent(downloaded: u64, total: Option<u64>) -> (r: Option<u8>)
    ensures
        r == match percent_0_99(downloaded, total) {
            Some(p) => Some(p),
            None => Some(99u8),
        },
{
    match compute_percent_0_99(downloaded, total) {
        Some(p) => Some(p),
        None => Some(99),
    }
}

/// `s` without the entries for `version`.
pub open spec fn without_version(s: Seq<InstalledVersion>, version: Seq<char>) -> Seq<InstalledVersion> {
    s.filter(|v: InstalledVersion| v.version@ != version)
}

proof fn lemma_filter_push<T>(s: Seq<T>, f: spec_fn(T) -> bool, x: T)
    ensures
        f(x) ==> s.push(x).filter(f) == s.filter(f).push(x),
        !f(x) ==> s.push(x).filter(f) == s.filter(f),
{
    reveal(Seq::filter);
    assert(s.push(x).drop_last() =~= s);
}

proof fn lemma_filter_twice<T>(s: Seq<T>, f: spec_fn(T) -> bool)
    ensures
        s.filter(f).filter(f) == s.filter(f),
    decreases s.len(),
{
    if s.len() > 0 {
        let p = s.drop_last();
        lemma_filter_twice(p, f);
        assert(p.push(s.last()) =~= s);
        lemma_filter_push(p, f, s.last());
        lemma_filter_push(p.filter(f), f, s.last());
    } else {
        reveal(Seq::filter);
        assert(s.filter(f) =~= s);
    }
}

/// Registering a downloaded version and then unregistering it (no instance
/// using it) leaves the installed list as it would be with every entry for
/// that version removed: the second call undoes the first.
pub proof fn law_register_then_unregister(s: Seq<InstalledVersion>, installed: InstalledVersion)
    ensures
        without_version(without_version(s, installed.version@).push(installed), installed.version@)
            == without_version(s, installed.version@),
{
    let f = |v: InstalledVersion| v.version@ != installed.version@;
    lemma_filter_push(s.filter(f), f, installed);
    lemma_filter_twice(s, f);
}

fn remove_version_entries(versions: &mut Vec<InstalledVersion>, version: &str)
    ensures
        final(versions)@ == without_version(old(versions)@, version@),
{
    let mut rest: Vec<InstalledVersion> = Vec::new();
    core::mem::swap(&mut rest, versions);
    let ghost orig = rest@;
    let ghost f = |v: InstalledVersion| v.version@ != version@;
    let n = rest.len();
    let mut kept: Vec<InstalledVersion> = Vec::new();
    let mut i: usize = 0;
    while i < n
        invariant
            n == orig.len(),
            rest@ == orig,
            i <= n,
            kept@ == orig.take(i as int).filter(f),
            f == (|v: InstalledVersion| v.version@ != version@),
        decreases n - i,
    {
        let v = &rest[i];
        proof {
            assert(orig.take(i + 1) =~= orig.take(i as int).push(orig[i as int]));
            lemma_filter_push(orig.take(i as int), f, orig[i as int]);
        }
        if !str_equal(v.version.as_str(), version) {
            kept.push(InstalledVersion { version: v.version.clone(), zip_path: v.zip_path.clone() });
        }
        i = i + 1;
    }
    proof {
        assert(orig.take(n as int) =~= orig);
    }
    *versions = kept;
}

/// Register a downloaded version: earlier entries for the same version are
/// dropped and the new entry goes last.
pub fn record_installed_version(manifest: &mut AppManifest, installed: InstalledVersion)
    ensures
        final(manifest).installed_versions@ == without_version(
            old(manifest).installed_versions@,
            installed.version@,
        ).push(installed),
        final(manifest).instances == old(manifest).instances,
        final(manifest).tracked_instances_snapshot == old(manifest).tracked_instances_snapshot,
{
    let version = installed.version.clone();
    remove_version_entries(&mut manifest.installed_versions, version.as_str());
    manifest.installed_versions.push(installed);
}

/// The first instance (in manifest order) that uses `version`.
pub open spec fn first_user(instances: Seq<(String, InstanceConfig)>, version: Seq<char>) -> Option<int> {
    if exists|i: int| 0 <= i < instances.len() && (#[trigger] instances[i]).1.version@ == version {
        Some(
            choose|i: int|
                0 <= i < instances.len() && (#[trigger] instances[i]).1.version@ == version && forall|j: int|
                    0 <= j < i ==> instances[j].1.version@ != version,
        )
    } else {
        None
    }
}

/// Unregister a version: refused while an instance uses it (the error
/// names the first such instance); otherwise every entry for it is dropped.
pub fn unregister_version(manifest: &mut AppManifest, version: &str) -> (r: Result<()>)
    ensures
        match first_user(old(manifest).instances@, version@) {
            Some(i) => {
                &&& r matches Err(e) && e.kind == ErrorKind::VersionInUse && e.message@ == version@
                    + ": "@ + old(manifest).instances@[i].1.name@
                &&& *final(manifest) == *old(manifest)
            },
            None => {
                &&& r is Ok
                &&& final(manifest).installed_versions@ == without_version(
                    old(manifest).installed_versions@,
                    version@,
                )
                &&& final(manifest).instances == old(manifest).instances
                &&& final(manifest).tracked_instances_snapshot == old(
                    manifest,
                ).tracked_instances_snapshot
            },
        },
{
    let n = manifest.instances.len();
    let mut i: usize = 0;
    while i < n
        invariant
            n == manifest.instances@.len(),
            i <= n,
            forall|j: int| 0 <= j < i ==> (#[trigger] manifest.instances@[j]).1.version@ != version@,
        decreases n - i,
    {
        let inst = &manifest.instances[i].1;
        if str_equal(inst.version.as_str(), version) {
            proof {
                let w = first_user(manifest.instances@, version@);
                assert(manifest.instances@[i as int].1.version@ == version@);
                let c = w->Some_0;
                assert(c == i) by {
                    if c < i {
                        assert(manifest.instances@[c].1.version@ != version@);
                    }
                    if c > i {
                        assert(manifest.instances@[i as int].1.version@ != version@);
                    }
                }
            }
            return Err(AppError::version_in_use(version, inst.name.as_str()));
        }
        i = i + 1;
    }
    remove_version_entries(&mut manifest.installed_versions, version);
    Ok(())
}

} // verus!
