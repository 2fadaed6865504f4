use vstd::prelude::*;

use crate::config::{apply_uv_fallback, AppConfig, BackupInfo, InstalledVersion};
use crate::versions::{sort_installed_versions_semver, sorted_installed, stable_arrangement};

verus! {

/// What the user interface shows: installed versions (sorted), backups and
/// settings.
#[derive(Debug)]
pub struct AppSnapshot {
    pub versions: Vec<InstalledVersion>,
    pub backups: Vec<BackupInfo>,
    pub config: AppConfig,
}

/// Assemble a snapshot: the settings with uv turned off when it is enabled
/// but not installed, and the installed versions sorted for display. The
/// flag tells whether the uv fallback is to be stored as well.
pub fn build_app_snapshot(
    config: AppConfig,
    versions: Vec<InstalledVersion>,
    backups: Vec<BackupInfo>,
    uv_installed: bool,
) -> (r: (AppSnapshot, bool))
    ensures
        r.1 == (config.use_uv_for_deps && !uv_installed),
        r.0.config == (AppConfig { use_uv_for_deps: config.use_uv_for_deps && uv_installed, ..config }),
        r.0.versions@.to_multiset() == versions@.to_multiset(),
        sorted_installed(r.0.versions@),
        exists|p: Seq<int>| stable_arrangement(versions@, r.0.versions@, p),
        r.0.backups == backups,
{
    let mut config_for_snapshot = config;
    let persist = apply_uv_fallback(&mut config_for_snapshot, uv_installed);
    let mut sorted = versions;
    sort_installed_versions_semver(&mut sorted);
    (AppSnapshot { versions: sorted, backups, config: config_for_snapshot }, persist)
}

} // verus!
