use vstd::prelude::*;

use crate::error::Result;

verus! {

/// Default for the settings that are on unless turned off.
pub fn default_true() -> (b: bool)
    ensures
        b,
{
    true
}

/// User settings of the launcher.
#[derive(Debug)]
pub struct AppConfig {
    pub mainland_acceleration: bool,
    pub github_proxy: String,
    pub proxy_url: String,
    pub proxy_port: String,
    pub proxy_username: String,
    pub proxy_password: String,
    pub pypi_mirror: String,
    pub nodejs_mirror: String,
    pub npm_registry: String,
    pub use_uv_for_deps: bool,
    pub close_to_tray: bool,
    pub check_instance_update: bool,
    pub persist_instance_state: bool,
    pub ignore_external_path: bool,
}

/// The default settings: every text empty; closing to the tray and update
/// checks on; everything else off.
pub open spec fn is_default_config(c: AppConfig) -> bool {
    &&& !c.mainland_acceleration
    &&& c.github_proxy@ == Seq::<char>::empty()
    &&& c.proxy_url@ == Seq::<char>::empty()
    &&& c.proxy_port@ == Seq::<char>::empty()
    &&& c.proxy_username@ == Seq::<char>::empty()
    &&& c.proxy_password@ == Seq::<char>::empty()
    &&& c.pypi_mirror@ == Seq::<char>::empty()
    &&& c.nodejs_mirror@ == Seq::<char>::empty()
    &&& c.npm_registry@ == Seq::<char>::empty()
    &&& !c.use_uv_for_deps
    &&& c.close_to_tray
    &&& c.check_instance_update
    &&& !c.persist_instance_state
    &&& !c.ignore_external_path
}

impl Default for AppConfig {
    fn default() -> (c: AppConfig)
        ensures
            is_default_config(c),
    {
        AppConfig {
            mainland_acceleration: false,
            github_proxy: String::new(),
            proxy_url: String::new(),
            proxy_port: String::new(),
            proxy_username: String::new(),
            proxy_password: String::new(),
            pypi_mirror: String::new(),
            nodejs_mirror: String::new(),
            npm_registry: String::new(),
            use_uv_for_deps: false,
            close_to_tray: default_true(),
            check_instance_update: default_true(),
            persist_instance_state: false,
            ignore_external_path: false,
        }
    }
}

/// One AstrBot instance as configured.
#[derive(Debug)]
pub struct InstanceConfig {
    pub name: String,
    pub version: String,
    pub port: u16,
    pub created_at: String,
}

/// A downloaded AstrBot version and its archive.
#[derive(Debug)]
pub struct InstalledVersion {
    pub version: String,
    pub zip_path: String,
}

/// What the launcher keeps track of: instances by id, installed versions,
/// and the ids of instances to start again after a restart.
#[derive(Debug)]
pub struct AppManifest {
    pub instances: Vec<(String, InstanceConfig)>,
    pub installed_versions: Vec<InstalledVersion>,
    pub tracked_instances_snapshot: Vec<String>,
}

/// Whether no two instance entries share an id.
pub open spec fn instance_ids_unique(s: Seq<(String, InstanceConfig)>) -> bool {
    forall|i: int, j: int| 0 <= i < j < s.len() ==> (#[trigger] s[i]).0@ != (#[trigger] s[j]).0@
}

impl AppManifest {
    /// The manifest's invariant: instance ids are unique (it is a map from
    /// id to configuration).
    pub open spec fn wf(self) -> bool {
        instance_ids_unique(self.instances@)
    }
}

/// The empty manifest.
pub open spec fn is_empty_manifest(m: AppManifest) -> bool {
    &&& m.instances@.len() == 0
    &&& m.installed_versions@.len() == 0
    &&& m.tracked_instances_snapshot@.len() == 0
}

impl Default for AppManifest {
    fn default() -> (m: AppManifest)
        ensures
            is_empty_manifest(m),
            m.wf(),
    {
        AppManifest { instances: Vec::new(), installed_versions: Vec::new(), tracked_instances_snapshot: Vec::new() }
    }
}

/// Metadata of a backup, stored inside the backup.
#[derive(Debug)]
pub struct BackupMetadata {
    pub created_at: String,
    pub instance_name: String,
    pub instance_id: String,
    pub version: String,
    pub includes_venv: bool,
    pub includes_data: bool,
    pub arch_target: String,
    pub auto_generated: bool,
}

/// A backup file and what is known of it.
#[derive(Debug)]
pub struct BackupInfo {
    pub filename: String,
    pub path: String,
    pub metadata: BackupMetadata,
    pub corrupted: bool,
    pub parse_error: Option<String>,
}

/// The settings, from the stored record or the defaults when there is none.
/// The flag tells whether the defaults are to be written as the record.
pub fn load_config(stored: Option<AppConfig>) -> (r: (AppConfig, bool))
    ensures
        config_load(stored, r),
{
    match stored {
        Some(c) => (c, false),
        None => (AppConfig::default(), true),
    }
}

/// Same as [`load_config`]: the record is read again.
pub fn reload_config(stored: Option<AppConfig>) -> (r: (AppConfig, bool))
    ensures
        config_load(stored, r),
{
    load_config(stored)
}

/// The manifest, from the stored record or empty when there is none. The
/// flag tells whether the empty manifest is to be written as the record.
pub fn load_manifest(stored: Option<AppManifest>) -> (r: (AppManifest, bool))
    ensures
        manifest_load(stored, r),
{
    match stored {
        Some(m) => (m, false),
        None => (AppManifest::default(), true),
    }
}

/// Same as [`load_manifest`]: the record is read again.
pub fn reload_manifest(stored: Option<AppManifest>) -> (r: (AppManifest, bool))
    ensures
        manifest_load(stored, r),
{
    load_manifest(stored)
}

/// A read-modify-write step on the settings: `f` gets the stored settings
/// (or the defaults) and returns the settings to store with its answer. On
/// error nothing is to be stored.
pub fn with_config_mut<F, T>(stored: Option<AppConfig>, f: F) -> (r: Result<(AppConfig, T)>) where
    F: FnOnce(AppConfig) -> Result<(AppConfig, T)>,

    requires
        forall|c: AppConfig| #[trigger] call_requires(f, (c,)),
    ensures
        exists|start: AppConfig|
            {
                &&& match stored {
                    Some(c) => start == c,
                    None => is_default_config(start),
                }
                &&& #[trigger] call_ensures(f, (start,), r)
            },
{
    let start = match stored {
        Some(c) => c,
        None => AppConfig::default(),
    };
    let ghost g = start;
    let r = f(start);
    assert(call_ensures(f, (g,), r));
    r
}

/// A read-modify-write step on the manifest: `f` gets the stored manifest
/// (or the empty one) and returns the manifest to store with its answer.
/// On error nothing is to be stored.
pub fn with_manifest_mut<F, T>(stored: Option<AppManifest>, f: F) -> (r: Result<(AppManifest, T)>) where
    F: FnOnce(AppManifest) -> Result<(AppManifest, T)>,

    requires
        forall|m: AppManifest| #[trigger] call_requires(f, (m,)),
    ensures
        exists|start: AppManifest|
            {
                &&& match stored {
                    Some(m) => start == m,
                    None => is_empty_manifest(start),
                }
                &&& #[trigger] call_ensures(f, (start,), r)
            },
{
    let start = match stored {
        Some(m) => m,
        None => AppManifest::default(),
    };
    let ghost g = start;
    let r = f(start);
    assert(call_ensures(f, (g,), r));
    r
}

/// When uv is enabled but not installed, fall back to pip in `config`.
/// Returns whether the stored settings should be changed the same way.
pub fn apply_uv_fallback(config: &mut AppConfig, uv_installed: bool) -> (persist: bool)
    ensures
        persist == (old(config).use_uv_for_deps && !uv_installed),
        final(config).use_uv_for_deps == (old(config).use_uv_for_deps && uv_installed),
        *final(config) == (AppConfig { use_uv_for_deps: final(config).use_uv_for_deps, ..*old(config) }),
{
    if config.use_uv_for_deps && !uv_installed {
        config.use_uv_for_deps = false;
        true
    } else {
        false
    }
}

/// What [`load_config`] gives on the stored record `stored`.
pub open spec fn config_load(stored: Option<AppConfig>, r: (AppConfig, bool)) -> bool {
    match stored {
        Some(c) => r == (c, false),
        None => r.1 && is_default_config(r.0),
    }
}

/// The stored record after a load that gave `r`: the defaults are written
/// when there was no record.
pub open spec fn config_after_load(stored: Option<AppConfig>, r: (AppConfig, bool)) -> Option<AppConfig> {
    if r.1 {
        Some(r.0)
    } else {
        stored
    }
}

/// The stored record after a read-modify-write step that ended with `r`:
/// the new value on success, the old record on error.
pub open spec fn config_after_update<T>(stored: Option<AppConfig>, r: Result<(AppConfig, T)>) -> Option<AppConfig> {
    match r {
        Ok((c, _)) => Some(c),
        Err(_) => stored,
    }
}

/// Loading the settings twice gives the same settings, and the second load
/// writes nothing.
pub proof fn law_config_load_twice(stored: Option<AppConfig>, first: (AppConfig, bool), second: (AppConfig, bool))
    requires
        config_load(stored, first),
        config_load(config_after_load(stored, first), second),
    ensures
        second.0 == first.0,
        !second.1,
        config_after_load(config_after_load(stored, first), second) == config_after_load(stored, first),
{
}

/// A successful read-modify-write step is what the next load gives; a
/// failed one leaves the stored record as it was.
pub proof fn law_config_update_then_load<T>(stored: Option<AppConfig>, r: Result<(AppConfig, T)>, next: (AppConfig, bool))
    requires
        config_load(config_after_update(stored, r), next),
    ensures
        r matches Ok((c, _)) ==> next == (c, false),
        r is Err ==> config_after_update(stored, r) == stored,
{
}

/// What [`load_manifest`] gives on the stored record `stored`.
pub open spec fn manifest_load(stored: Option<AppManifest>, r: (AppManifest, bool)) -> bool {
    match stored {
        Some(m) => r == (m, false),
        None => r.1 && is_empty_manifest(r.0),
    }
}

/// The stored manifest after a load that gave `r`.
pub open spec fn manifest_after_load(stored: Option<AppManifest>, r: (AppManifest, bool)) -> Option<AppManifest> {
    if r.1 {
        Some(r.0)
    } else {
        stored
    }
}

/// The stored manifest after a read-modify-write step that ended with `r`.
pub open spec fn manifest_after_update<T>(stored: Option<AppManifest>, r: Result<(AppManifest, T)>) -> Option<AppManifest> {
    match r {
        Ok((m, _)) => Some(m),
        Err(_) => stored,
    }
}

/// Loading the manifest twice gives the same manifest, and the second load
/// writes nothing.
pub proof fn law_manifest_load_twice(stored: Option<AppManifest>, first: (AppManifest, bool), second: (AppManifest, bool))
    requires
        manifest_load(stored, first),
        manifest_load(manifest_after_load(stored, first), second),
    ensures
        second.0 == first.0,
        !second.1,
{
}

/// A successful read-modify-write step on the manifest is what the next
/// load gives; a failed one leaves the stored manifest as it was.
pub proof fn law_manifest_update_then_load<T>(
    stored: Option<AppManifest>,
    r: Result<(AppManifest, T)>,
    next: (AppManifest, bool),
)
    requires
        manifest_load(manifest_after_update(stored, r), next),
    ensures
        r matches Ok((m, _)) ==> next == (m, false),
        r is Err ==> manifest_after_update(stored, r) == stored,
{
}

} // verus!
