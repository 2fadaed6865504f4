use vstd::prelude::*;

use crate::config::{AppConfig, AppManifest, InstalledVersion, InstanceConfig};
use crate::registry::str_equal;

verus! {

/// The old single-file configuration, which also held the manifest.
#[derive(Debug)]
pub struct LegacyAppConfig {
    pub instances: Vec<(String, InstanceConfig)>,
    pub installed_versions: Vec<InstalledVersion>,
    pub github_proxy: String,
    pub proxy_url: String,
    pub proxy_port: String,
    pub proxy_username: String,
    pub proxy_password: String,
    pub pypi_mirror: String,
    pub nodejs_mirror: String,
    pub npm_registry: String,
    pub use_uv_for_deps: bool,
    pub close_to_tray: bool,
    pub check_instance_update: bool,
    pub persist_instance_state: bool,
    pub tracked_instances_snapshot: Vec<String>,
}

impl LegacyAppConfig {
    /// The settings part; settings the old file did not have are off.
    pub fn into_config(self) -> (c: AppConfig)
        ensures
            c == (AppConfig {
                mainland_acceleration: false,
                github_proxy: self.github_proxy,
                proxy_url: self.proxy_url,
                proxy_port: self.proxy_port,
                proxy_username: self.proxy_username,
                proxy_password: self.proxy_password,
                pypi_mirror: self.pypi_mirror,
                nodejs_mirror: self.nodejs_mirror,
                npm_registry: self.npm_registry,
                use_uv_for_deps: self.use_uv_for_deps,
                close_to_tray: self.close_to_tray,
                check_instance_update: self.check_instance_update,
                persist_instance_state: self.persist_instance_state,
                ignore_external_path: false,
            }),
    {
        AppConfig {
            mainland_acceleration: false,
            github_proxy: self.github_proxy,
            proxy_url: self.proxy_url,
            proxy_port: self.proxy_port,
            proxy_username: self.proxy_username,
            proxy_password: self.proxy_password,
            pypi_mirror: self.pypi_mirror,
            nodejs_mirror: self.nodejs_mirror,
            npm_registry: self.npm_registry,
            use_uv_for_deps: self.use_uv_for_deps,
            close_to_tray: self.close_to_tray,
            check_instance_update: self.check_instance_update,
            persist_instance_state: self.persist_instance_state,
            ignore_external_path: false,
        }
    }

    /// The manifest part.
    pub fn into_manifest(self) -> (m: AppManifest)
        ensures
            m == (AppManifest {
                instances: self.instances,
                installed_versions: self.installed_versions,
                tracked_instances_snapshot: self.tracked_instances_snapshot,
            }),
    {
        AppManifest {
            instances: self.instances,
            installed_versions: self.installed_versions,
            tracked_instances_snapshot: self.tracked_instances_snapshot,
        }
    }
}

// ----- detecting manifest fields in the old file --------------------------

/// The top-level keys of a TOML document, or `None` when it does not parse
/// as a table.
pub uninterp spec fn toml_table_keys(content: Seq<char>) -> Option<Set<Seq<char>>>;

/// Calls `toml::from_str::<toml::Value>` and lists the keys of the
/// top-level table; named [`toml_table_keys`].
#[verifier::external_body]
fn top_level_keys(content: &str) -> (r: Option<Vec<String>>)
    ensures
        r is Some == toml_table_keys(content@) is Some,
        r matches Some(v) ==> forall|k: Seq<char>|
            toml_table_keys(content@)->Some_0.contains(k) <==> exists|i: int|
                0 <= i < v@.len() && (#[trigger] v@[i])@ == k,
{
    let value: toml::Value = toml::from_str(content).ok()?;
    value.as_table().map(|t| t.keys().cloned().collect())
}

/// The keys that belong to the manifest.
pub open spec fn manifest_field(k: Seq<char>) -> bool {
    k == "instances"@ || k == "installed_versions"@ || k == "tracked_instances_snapshot"@
}

/// Whether an old configuration file still holds manifest fields.
pub open spec fn holds_manifest_fields(content: Seq<char>) -> bool {
    toml_table_keys(content) matches Some(keys) && exists|k: Seq<char>|
        #[trigger] keys.contains(k) && manifest_field(k)
}

/// Whether a configuration file's top-level table has any manifest field
/// (false when it is not valid TOML).
pub fn has_manifest_fields(content: &str) -> (r: bool)
    ensures
        r == holds_manifest_fields(content@),
{
    let keys = match top_level_keys(content) {
        Some(k) => k,
        None => {
            return false;
        },
    };
    let n = keys.len();
    let mut i: usize = 0;
    while i < n
        invariant
            n == keys@.len(),
            i <= n,
            forall|j: int| 0 <= j < i ==> !manifest_field(#[trigger] keys@[j]@),
            toml_table_keys(content@) is Some,
            forall|k: Seq<char>|
                toml_table_keys(content@)->Some_0.contains(k) <==> exists|j: int|
                    0 <= j < keys@.len() && (#[trigger] keys@[j])@ == k,
        decreases n - i,
    {
        let k = keys[i].as_str();
        if str_equal(k, "instances") || str_equal(k, "installed_versions") || str_equal(
            k,
            "tracked_instances_snapshot",
        ) {
            proof {
                assert(toml_table_keys(content@)->Some_0.contains(keys@[i as int]@));
            }
            return true;
        }
        i = i + 1;
    }
    proof {
        if holds_manifest_fields(content@) {
            let k = choose|k: Seq<char>| #[trigger] toml_table_keys(content@)->Some_0.contains(k) && manifest_field(k);
            let j = choose|j: int| 0 <= j < keys@.len() && (#[trigger] keys@[j])@ == k;
            assert(!manifest_field(keys@[j]@));
        }
    }
    false
}

// ----- merging manifests ------------------------------------------------------

/// Whether some item of `s` has key `k`.
pub open spec fn has_key_by<T, K>(s: Seq<T>, k: K, key: spec_fn(T) -> K) -> bool {
    exists|i: int| 0 <= i < s.len() && key(#[trigger] s[i]) == k
}

/// `t` with the items of `s` appended whose key is not present yet, in
/// order of `s`.
pub open spec fn merge_by<T, K>(t: Seq<T>, s: Seq<T>, key: spec_fn(T) -> K) -> Seq<T>
    decreases s.len(),
{
    if s.len() == 0 {
        t
    } else {
        let m = merge_by(t, s.drop_last(), key);
        if has_key_by(m, key(s.last()), key) {
            m
        } else {
            m.push(s.last())
        }
    }
}

/// Whether no two items of `s` share a key.
pub open spec fn keys_unique_by<T, K>(s: Seq<T>, key: spec_fn(T) -> K) -> bool {
    forall|i: int, j: int| 0 <= i < j < s.len() ==> key(#[trigger] s[i]) != key(#[trigger] s[j])
}

proof fn lemma_merge_unique<T, K>(t: Seq<T>, s: Seq<T>, key: spec_fn(T) -> K)
    requires
        keys_unique_by(t, key),
    ensures
        keys_unique_by(merge_by(t, s, key), key),
    decreases s.len(),
{
    if s.len() > 0 {
        lemma_merge_unique(t, s.drop_last(), key);
        let m = merge_by(t, s.drop_last(), key);
        if !has_key_by(m, key(s.last()), key) {
            let n = m.push(s.last());
            assert forall|i: int, j: int| 0 <= i < j < n.len() implies key(#[trigger] n[i]) != key(#[trigger] n[j]) by {
                if j == m.len() {
                    assert(n[i] == m[i]);
                    assert(n[j] == s.last());
                } else {
                    assert(n[i] == m[i] && n[j] == m[j]);
                }
            }
        }
    }
}

/// Key of an instance entry.
pub open spec fn instance_key(e: (String, InstanceConfig)) -> Seq<char> {
    e.0@
}

/// Key of an installed version.
pub open spec fn version_key(v: InstalledVersion) -> Seq<char> {
    v.version@
}

/// Key of a tracked id.
pub open spec fn id_key(s: String) -> Seq<char> {
    s@
}

/// What merging `source` into `target` gives: entries of `target` win on
/// conflicts; entries of `source` that are missing are added, in order.
pub open spec fn merged_manifest(target: AppManifest, source: AppManifest) -> (
    Seq<(String, InstanceConfig)>,
    Seq<InstalledVersion>,
    Seq<String>,
) {
    (
        merge_by(target.instances@, source.instances@, |e: (String, InstanceConfig)| instance_key(e)),
        merge_by(target.installed_versions@, source.installed_versions@, |v: InstalledVersion| version_key(v)),
        merge_by(target.tracked_instances_snapshot@, source.tracked_instances_snapshot@, |s: String| id_key(s)),
    )
}

impl InstanceConfig {
    /// A copy of this instance configuration.
    pub fn duplicate(&self) -> (r: InstanceConfig)
        ensures
            r == *self,
    {
        InstanceConfig {
            name: self.name.clone(),
            version: self.version.clone(),
            port: self.port,
            created_at: self.created_at.clone(),
        }
    }
}

impl InstalledVersion {
    /// A copy of this installed version.
    pub fn duplicate(&self) -> (r: InstalledVersion)
        ensures
            r == *self,
    {
        InstalledVersion { version: self.version.clone(), zip_path: self.zip_path.clone() }
    }
}

fn has_instance(t: &Vec<(String, InstanceConfig)>, id: &str) -> (r: bool)
    ensures
        r == has_key_by(t@, id@, |e: (String, InstanceConfig)| instance_key(e)),
{
    let n = t.len();
    let mut i: usize = 0;
    while i < n
        invariant
            n == t@.len(),
            i <= n,
            forall|j: int| 0 <= j < i ==> (#[trigger] t@[j]).0@ != id@,
        decreases n - i,
    {
        if str_equal(t[i].0.as_str(), id) {
            return true;
        }
        i = i + 1;
    }
    false
}

fn has_version(t: &Vec<InstalledVersion>, version: &str) -> (r: bool)
    ensures
        r == has_key_by(t@, version@, |v: InstalledVersion| version_key(v)),
{
    let n = t.len();
    let mut i: usize = 0;
    while i < n
        invariant
            n == t@.len(),
            i <= n,
            forall|j: int| 0 <= j < i ==> (#[trigger] t@[j]).version@ != version@,
        decreases n - i,
    {
        if str_equal(t[i].version.as_str(), version) {
            return true;
        }
        i = i + 1;
    }
    false
}

fn has_id(t: &Vec<String>, id: &str) -> (r: bool)
    ensures
        r == has_key_by(t@, id@, |s: String| id_key(s)),
{
    let n = t.len();
    let mut i: usize = 0;
    while i < n
        invariant
            n == t@.len(),
            i <= n,
            forall|j: int| 0 <= j < i ==> (#[trigger] t@[j])@ != id@,
        decreases n - i,
    {
        if str_equal(t[i].as_str(), id) {
            return true;
        }
        i = i + 1;
    }
    false
}

/// Merge legacy manifest data into an existing manifest. Existing entries
/// take priority; missing ones are added in order.
pub fn merge_manifest(target: &mut AppManifest, source: &AppManifest)
    ensures
        final(target).instances@ == merged_manifest(*old(target), *source).0,
        final(target).installed_versions@ == merged_manifest(*old(target), *source).1,
        final(target).tracked_instances_snapshot@ == merged_manifest(*old(target), *source).2,
        old(target).wf() ==> final(target).wf(),
{
    let ghost ik = |e: (String, InstanceConfig)| instance_key(e);
    let ghost vk = |v: InstalledVersion| version_key(v);
    let ghost sk = |s: String| id_key(s);
    let ghost t0 = *target;
    let n = source.instances.len();
    let mut i: usize = 0;
    while i < n
        invariant
            n == source.instances@.len(),
            i <= n,
            target.instances@ == merge_by(t0.instances@, source.instances@.take(i as int), ik),
            target.installed_versions@ == t0.installed_versions@,
            target.tracked_instances_snapshot@ == t0.tracked_instances_snapshot@,
            ik == (|e: (String, InstanceConfig)| instance_key(e)),
        decreases n - i,
    {
        let entry = &source.instances[i];
        proof {
            assert(source.instances@.take(i + 1).drop_last() =~= source.instances@.take(i as int));
        }
        if !has_instance(&target.instances, entry.0.as_str()) {
            target.instances.push((entry.0.clone(), entry.1.duplicate()));
        }
        i = i + 1;
    }
    proof {
        assert(source.instances@.take(n as int) =~= source.instances@);
    }
    let n = source.installed_versions.len();
    let mut i: usize = 0;
    while i < n
        invariant
            n == source.installed_versions@.len(),
            i <= n,
            target.instances@ == merge_by(t0.instances@, source.instances@, ik),
            target.installed_versions@ == merge_by(
                t0.installed_versions@,
                source.installed_versions@.take(i as int),
                vk,
            ),
            target.tracked_instances_snapshot@ == t0.tracked_instances_snapshot@,
            vk == (|v: InstalledVersion| version_key(v)),
        decreases n - i,
    {
        let v = &source.installed_versions[i];
        proof {
            assert(source.installed_versions@.take(i + 1).drop_last() =~= source.installed_versions@.take(
                i as int,
            ));
        }
        if !has_version(&target.installed_versions, v.version.as_str()) {
            target.installed_versions.push(v.duplicate());
        }
        i = i + 1;
    }
    proof {
        assert(source.installed_versions@.take(n as int) =~= source.installed_versions@);
    }
    let n = source.tracked_instances_snapshot.len();
    let mut i: usize = 0;
    while i < n
        invariant
            n == source.tracked_instances_snapshot@.len(),
            i <= n,
            target.instances@ == merge_by(t0.instances@, source.instances@, ik),
            target.installed_versions@ == merge_by(t0.installed_versions@, source.installed_versions@, vk),
            target.tracked_instances_snapshot@ == merge_by(
                t0.tracked_instances_snapshot@,
                source.tracked_instances_snapshot@.take(i as int),
                sk,
            ),
            sk == (|s: String| id_key(s)),
        decreases n - i,
    {
        let id = &source.tracked_instances_snapshot[i];
        proof {
            assert(source.tracked_instances_snapshot@.take(i + 1).drop_last()
                =~= source.tracked_instances_snapshot@.take(i as int));
        }
        if !has_id(&target.tracked_instances_snapshot, id.as_str()) {
            target.tracked_instances_snapshot.push(id.clone());
        }
        i = i + 1;
    }
    proof {
        assert(source.tracked_instances_snapshot@.take(n as int) =~= source.tracked_instances_snapshot@);
        if t0.wf() {
            let ik2 = |e: (String, InstanceConfig)| instance_key(e);
            assert(keys_unique_by(t0.instances@, ik2));
            lemma_merge_unique(t0.instances@, source.instances@, ik2);
            let f = target.instances@;
            assert(f == merge_by(t0.instances@, source.instances@, ik2));
            assert forall|i: int, j: int| 0 <= i < j < f.len() implies (#[trigger] f[i]).0@ != (
            #[trigger] f[j]).0@ by {
                assert(ik2(f[i]) != ik2(f[j]));
            }
        }
    }
}

proof fn lemma_merge_keeps_prefix<T, K>(t: Seq<T>, s: Seq<T>, key: spec_fn(T) -> K)
    ensures
        merge_by(t, s, key).len() >= t.len(),
        merge_by(t, s, key).take(t.len() as int) == t,
    decreases s.len(),
{
    if s.len() > 0 {
        lemma_merge_keeps_prefix(t, s.drop_last(), key);
        let m = merge_by(t, s.drop_last(), key);
        if !has_key_by(m, key(s.last()), key) {
            assert(m.push(s.last()).take(t.len() as int) =~= m.take(t.len() as int));
        }
    } else {
        assert(t.take(t.len() as int) =~= t);
    }
}

proof fn lemma_merge_covers<T, K>(t: Seq<T>, s: Seq<T>, key: spec_fn(T) -> K)
    ensures
        forall|i: int| 0 <= i < s.len() ==> has_key_by(merge_by(t, s, key), key(#[trigger] s[i]), key),
    decreases s.len(),
{
    if s.len() > 0 {
        let p = s.drop_last();
        lemma_merge_covers(t, p, key);
        let m = merge_by(t, p, key);
        let m2 = merge_by(t, s, key);
        assert forall|i: int| 0 <= i < s.len() implies has_key_by(m2, key(#[trigger] s[i]), key) by {
            if i < s.len() - 1 {
                assert(s[i] == p[i]);
                if !has_key_by(m, key(s.last()), key) {
                    let j = choose|j: int| 0 <= j < m.len() && key(#[trigger] m[j]) == key(s[i]);
                    assert(m2[j] == m[j]);
                }
            } else {
                if !has_key_by(m, key(s.last()), key) {
                    assert(m2[m.len() as int] == s.last());
                }
            }
        }
    }
}

proof fn lemma_merge_all_present<T, K>(t: Seq<T>, s: Seq<T>, key: spec_fn(T) -> K)
    requires
        forall|i: int| 0 <= i < s.len() ==> has_key_by(t, key(#[trigger] s[i]), key),
    ensures
        merge_by(t, s, key) == t,
    decreases s.len(),
{
    if s.len() > 0 {
        let p = s.drop_last();
        assert forall|i: int| 0 <= i < p.len() implies has_key_by(t, key(#[trigger] p[i]), key) by {
            assert(p[i] == s[i]);
        }
        lemma_merge_all_present(t, p, key);
        assert(has_key_by(t, key(s[s.len() - 1]), key));
    }
}

/// Merging keeps the target as it was (its entries come first, unchanged),
/// and merging the same source a second time changes nothing.
pub proof fn law_merge_target_wins_and_idempotent<T, K>(t: Seq<T>, s: Seq<T>, key: spec_fn(T) -> K)
    ensures
        merge_by(t, s, key).take(t.len() as int) == t,
        forall|i: int| 0 <= i < s.len() ==> has_key_by(merge_by(t, s, key), key(#[trigger] s[i]), key),
        merge_by(merge_by(t, s, key), s, key) == merge_by(t, s, key),
{
    lemma_merge_keeps_prefix(t, s, key);
    lemma_merge_covers(t, s, key);
    lemma_merge_all_present(merge_by(t, s, key), s, key);
}

/// What a migration of the old configuration file does.
#[derive(Debug, PartialEq, Eq, Structural)]
pub enum MigrationPlan {
    /// Nothing to migrate (no manifest fields, or the file did not parse).
    Nothing,
    /// Write the legacy manifest data as the manifest file.
    WriteLegacyManifest,
    /// Merge the legacy manifest data into the existing manifest file.
    MergeIntoExisting,
}

/// What is on disk next to the old configuration file.
#[derive(Debug, PartialEq, Eq, Structural)]
pub enum ManifestFile {
    Missing,
    Unreadable,
    Parsed,
}

/// Decide the migration: an old file without manifest fields, or one that
/// does not parse, is left alone; otherwise the manifest file is merged into
/// when it can be read and (re)written from the legacy data when it is
/// missing or unreadable. After writing the manifest, the cleaned settings
/// are written back.
pub fn plan_migration(has_fields: bool, legacy_parsed: bool, manifest: ManifestFile) -> (r: MigrationPlan)
    ensures
        r == (if !has_fields || !legacy_parsed {
            MigrationPlan::Nothing
        } else if manifest == ManifestFile::Parsed {
            MigrationPlan::MergeIntoExisting
        } else {
            MigrationPlan::WriteLegacyManifest
        }),
{
    if !has_fields || !legacy_parsed {
        return MigrationPlan::Nothing;
    }
    match manifest {
        ManifestFile::Parsed => MigrationPlan::MergeIntoExisting,
        _ => MigrationPlan::WriteLegacyManifest,
    }
}

} // verus!
