use vstd::prelude::*;

use crate::config::{AppConfig, AppManifest, InstalledVersion, InstanceConfig};
use crate::error::{AppError, ErrorKind, Result};
use crate::manager::{slot_of, ProcessState, Slot};
use crate::registry::str_equal;

verus! {

/// The port of a running instance, or "not running".
pub fn get_instance_port(state: &ProcessState, instance_id: &str) -> (r: Result<u16>)
    requires
        state.wf(),
    ensures
        match slot_of(state.slots(), instance_id@) {
            Some(Slot::Live(p)) => r == Ok::<u16, AppError>(p.port),
            _ => r matches Err(e) && e.kind == ErrorKind::InstanceNotRunning && e.message@ == "Instance is not running"@,
        },
{
    match state.get_port(instance_id) {
        Some(port) => Ok(port),
        None => Err(AppError::instance_not_running()),
    }
}

/// Turn installing dependencies with uv on or off; turning it on needs uv
/// to be installed.
pub fn save_use_uv_for_deps(config: &mut AppConfig, use_uv_for_deps: bool, uv_installed: bool) -> (r: Result<()>)
    ensures
        use_uv_for_deps && !uv_installed ==> (r matches Err(e) && e.kind == ErrorKind::Other
            && e.message@ == "uv 组件未安装，无法启用 uv 安装依赖"@) && *final(config) == *old(config),
        !(use_uv_for_deps && !uv_installed) ==> r is Ok && *final(config) == (AppConfig {
            use_uv_for_deps,
            ..*old(config)
        }),
{
    if use_uv_for_deps && !uv_installed {
        return Err(AppError::other("uv 组件未安装，无法启用 uv 安装依赖"));
    }
    config.use_uv_for_deps = use_uv_for_deps;
    Ok(())
}

/// Whether a new proxy setting may be saved: a blank proxy always; otherwise
/// at least one of the two test sites must be reachable through it (the
/// second is tried only when the first fails).
pub fn check_proxy_connectivity(proxy_url_blank: bool, first_site_ok: bool, second_site_ok: bool) -> (r: Result<()>)
    ensures
        r is Ok <==> (proxy_url_blank || first_site_ok || second_site_ok),
        r matches Err(e) ==> e.kind == ErrorKind::Network && e.message@
            == "代理配置错误，无法连接 cloudflare.com 或 baidu.com"@,
{
    if !proxy_url_blank && !first_site_ok && !second_site_ok {
        return Err(AppError::network("代理配置错误，无法连接 cloudflare.com 或 baidu.com"));
    }
    Ok(())
}

/// Store the (normalized) proxy fields in the settings.
fn store_proxy_fields(config: &mut AppConfig, url: String, port: String, username: String, password: String)
    ensures
        ({
            let n = crate::proxy::normalized(url@, port@, username@, password@);
            &&& final(config).proxy_url@ == n.0
            &&& final(config).proxy_port@ == n.1
            &&& final(config).proxy_username@ == n.2
            &&& final(config).proxy_password@ == n.3
            &&& *final(config) == (AppConfig {
                proxy_url: final(config).proxy_url,
                proxy_port: final(config).proxy_port,
                proxy_username: final(config).proxy_username,
                proxy_password: final(config).proxy_password,
                ..*old(config)
            })
        }),
{
    let (u, p, n, w) = crate::proxy::normalized_proxy_fields(url, port, username, password);
    config.proxy_url = u;
    config.proxy_port = p;
    config.proxy_username = n;
    config.proxy_password = w;
}

/// Save new proxy fields only when the connectivity check passed: a failed
/// check is returned as it is and leaves the settings untouched; otherwise
/// the fields are stored trimmed, and all empty when the URL is blank.
pub fn save_proxy(
    config: &mut AppConfig,
    check: Result<()>,
    url: String,
    port: String,
    username: String,
    password: String,
) -> (r: Result<()>)
    ensures
        match check {
            Err(e) => r == Err::<(), AppError>(e) && *final(config) == *old(config),
            Ok(()) => {
                let n = crate::proxy::normalized(url@, port@, username@, password@);
                &&& r is Ok
                &&& final(config).proxy_url@ == n.0
                &&& final(config).proxy_port@ == n.1
                &&& final(config).proxy_username@ == n.2
                &&& final(config).proxy_password@ == n.3
                &&& *final(config) == (AppConfig {
                    proxy_url: final(config).proxy_url,
                    proxy_port: final(config).proxy_port,
                    proxy_username: final(config).proxy_username,
                    proxy_password: final(config).proxy_password,
                    ..*old(config)
                })
            },
        },
{
    match check {
        Err(e) => Err(e),
        Ok(()) => {
            store_proxy_fields(config, url, port, username, password);
            Ok(())
        },
    }
}

/// The configuration of instance `id`, if it is configured.
pub fn find_instance<'a>(manifest: &'a AppManifest, id: &str) -> (r: Result<&'a InstanceConfig>)
    ensures
        match r {
            Ok(c) => exists|i: int|
                0 <= i < manifest.instances@.len() && (#[trigger] manifest.instances@[i]).0@ == id@
                    && manifest.instances@[i].1 == *c && forall|j: int|
                    0 <= j < i ==> manifest.instances@[j].0@ != id@,
            Err(e) => e.kind == ErrorKind::InstanceNotFound && e.message@ == id@ && forall|i: int|
                0 <= i < manifest.instances@.len() ==> (#[trigger] manifest.instances@[i]).0@ != id@,
        },
{
    let n = manifest.instances.len();
    let mut i: usize = 0;
    while i < n
        invariant
            n == manifest.instances@.len(),
            i <= n,
            forall|j: int| 0 <= j < i ==> (#[trigger] manifest.instances@[j]).0@ != id@,
        decreases n - i,
    {
        if str_equal(manifest.instances[i].0.as_str(), id) {
            return Ok(&manifest.instances[i].1);
        }
        i = i + 1;
    }
    Err(AppError::instance_not_found(id))
}

/// The installed archive of `version`, if it is installed.
pub fn find_installed_version<'a>(manifest: &'a AppManifest, version: &str) -> (r: Result<&'a InstalledVersion>)
    ensures
        match r {
            Ok(v) => exists|i: int|
                0 <= i < manifest.installed_versions@.len() && (#[trigger] manifest.installed_versions@[i])
                    == *v && v.version@ == version@ && forall|j: int|
                    0 <= j < i ==> manifest.installed_versions@[j].version@ != version@,
            Err(e) => e.kind == ErrorKind::VersionNotFound && e.message@ == version@ && forall|i: int|
                0 <= i < manifest.installed_versions@.len()
                    ==> (#[trigger] manifest.installed_versions@[i]).version@ != version@,
        },
{
    let n = manifest.installed_versions.len();
    let mut i: usize = 0;
    while i < n
        invariant
            n == manifest.installed_versions@.len(),
            i <= n,
            forall|j: int| 0 <= j < i ==> (#[trigger] manifest.installed_versions@[j]).version@ != version@,
        decreases n - i,
    {
        if str_equal(manifest.installed_versions[i].version.as_str(), version) {
            return Ok(&manifest.installed_versions[i]);
        }
        i = i + 1;
    }
    Err(AppError::version_not_found(version))
}

/// The remembered instance list after exit: the active instances when
/// instance state persists, the old list otherwise.
pub open spec fn tracked_after_exit(snapshot: Seq<String>, persist: bool, active: Seq<String>) -> Seq<String> {
    if persist {
        active
    } else {
        snapshot
    }
}

/// Whether closing the main window only hides it: as the settings say, and
/// yes when they cannot be read (`None`).
pub fn hide_on_close(close_to_tray: Option<bool>) -> (r: bool)
    ensures
        r == match close_to_tray {
            Some(b) => b,
            None => true,
        },
{
    match close_to_tray {
        Some(b) => b,
        None => true,
    }
}

/// The instances started again on startup.
pub open spec fn restored(persist: bool, snapshot: Seq<String>) -> Seq<String> {
    if persist {
        snapshot
    } else {
        Seq::empty()
    }
}

/// On exit: when instance state is to persist, remember the active
/// instances in the manifest.
pub fn record_tracked_instances(manifest: &mut AppManifest, persist: bool, active_ids: Vec<String>)
    ensures
        final(manifest).tracked_instances_snapshot@ == tracked_after_exit(
            old(manifest).tracked_instances_snapshot@,
            persist,
            active_ids@,
        ),
        final(manifest).instances == old(manifest).instances,
        final(manifest).installed_versions == old(manifest).installed_versions,
{
    if persist {
        manifest.tracked_instances_snapshot = active_ids;
    }
}

/// On startup: the instances to start again, which is the remembered list
/// when instance state persists, and none otherwise.
pub fn instances_to_restore(persist: bool, manifest: &AppManifest) -> (r: Vec<String>)
    ensures
        r@ == restored(persist, manifest.tracked_instances_snapshot@),
{
    if !persist {
        let r: Vec<String> = Vec::new();
        assert(r@ =~= restored(persist, manifest.tracked_instances_snapshot@));
        return r;
    }
    let n = manifest.tracked_instances_snapshot.len();
    let mut r: Vec<String> = Vec::new();
    let mut i: usize = 0;
    while i < n
        invariant
            n == manifest.tracked_instances_snapshot@.len(),
            i <= n,
            r@ == manifest.tracked_instances_snapshot@.take(i as int),
        decreases n - i,
    {
        r.push(manifest.tracked_instances_snapshot[i].clone());
        i = i + 1;
        assert(r@ =~= manifest.tracked_instances_snapshot@.take(i as int));
    }
    assert(manifest.tracked_instances_snapshot@.take(n as int) =~= manifest.tracked_instances_snapshot@);
    r
}

/// After the restore attempt the remembered list is cleared.
pub fn clear_tracked_instances(manifest: &mut AppManifest)
    ensures
        final(manifest).tracked_instances_snapshot@.len() == 0,
        final(manifest).instances == old(manifest).instances,
        final(manifest).installed_versions == old(manifest).installed_versions,
{
    manifest.tracked_instances_snapshot = Vec::new();
}

/// With instance state persisting, the instances active at exit are the
/// ones started again on the next launch, in the same order; otherwise no
/// instance is started again.
pub proof fn law_persisted_instances_restored(snapshot: Seq<String>, active: Seq<String>, persist: bool)
    ensures
        restored(persist, tracked_after_exit(snapshot, persist, active)) == (if persist {
            active
        } else {
            Seq::<String>::empty()
        }),
{
}

} // verus!
