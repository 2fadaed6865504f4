use astrbot_launcher::config::{
    apply_uv_fallback, default_true, load_config, load_manifest, reload_config, reload_manifest,
    with_config_mut, with_manifest_mut, AppConfig, AppManifest, InstalledVersion, InstanceConfig,
};
use astrbot_launcher::error::{AppError, ErrorKind};
use astrbot_launcher::migration::{
    has_manifest_fields, merge_manifest, plan_migration, LegacyAppConfig, ManifestFile, MigrationPlan,
};
use astrbot_launcher::python::{
    archive_format_for, effective_python_version, get_python_for_version, get_uv_executable,
    is_component_installed, is_uv_installed, pip_install_args, plan_dependency_sync, python_runtime_for_version,
    requires_python310, uv_download_url, uv_sync_args, ArchiveFormat, DependencySync, RuntimeInstall, UvInstall,
};
use astrbot_launcher::python::{pip_install_result, plan_venv, uv_sync_result, venv_create_result, ToolRun, VenvStep};
use astrbot_launcher::snapshot::build_app_snapshot;
use astrbot_launcher::versions::{compare_versions, sort_installed_versions_semver};

fn iv(v: &str) -> InstalledVersion {
    InstalledVersion { version: v.to_string(), zip_path: format!("/versions/{}.zip", v) }
}

#[test]
fn python_310_up_to_4_14_6() {
    assert!(requires_python310("v4.14.6"));
    assert!(requires_python310("4.14.5"));
    assert!(requires_python310("3.99.99"));
    assert!(!requires_python310("v4.14.7"));
    assert!(!requires_python310("4.15.0"));
    assert!(requires_python310("4.14"));
    assert!(!requires_python310("4.15"));
    assert!(requires_python310("4"));
    assert!(!requires_python310("5"));
    assert!(!requires_python310(""));
    assert!(!requires_python310("vnext"));
    assert!(requires_python310("4.x.7"));
    assert!(requires_python310("4.14.6-beta.1"));
}

#[test]
fn runtime_choice_and_missing_python() {
    assert_eq!(python_runtime_for_version("v4.0.0"), "py310");
    assert_eq!(python_runtime_for_version("v4.20.0"), "py312");
    let p310 = RuntimeInstall { executable: "/rt/py310/python".into(), installed: true };
    let p312 = RuntimeInstall { executable: "/rt/py312/python".into(), installed: false };
    assert_eq!(get_python_for_version("v4.0.0", &p310, &p312).unwrap(), "/rt/py310/python");
    assert_eq!(
        get_python_for_version("v4.20.0", &p310, &p312).unwrap_err().kind,
        ErrorKind::PythonNotInstalled
    );
    assert!(!is_component_installed(&p310, &p312));
}

#[test]
fn uv_needs_both_executables() {
    let uv = UvInstall { uv_executable: "/c/uv/uv".into(), uv_exists: true, uvx_exists: false };
    assert!(!is_uv_installed(&uv));
    assert_eq!(get_uv_executable(&uv).unwrap(), "/c/uv/uv");
    let none = UvInstall { uv_executable: "/c/uv/uv".into(), uv_exists: false, uvx_exists: true };
    assert_eq!(get_uv_executable(&none).unwrap_err().kind, ErrorKind::Other);
}

#[test]
fn uv_download_and_archive_format() {
    assert_eq!(
        uv_download_url("uv-x86_64-unknown-linux-gnu.tar.gz", None),
        "https://github.com/astral-sh/uv/releases/download/0.10.2/uv-x86_64-unknown-linux-gnu.tar.gz"
    );
    assert_eq!(
        uv_download_url("uv.zip", Some("https://p")),
        "https://p/https://github.com/astral-sh/uv/releases/download/0.10.2/uv.zip"
    );
    assert_eq!(archive_format_for("uv-x86_64-pc-windows-msvc.zip"), ArchiveFormat::Zip);
    assert_eq!(archive_format_for("uv.tar.gz"), ArchiveFormat::TarGz);
    assert_eq!(archive_format_for("zip"), ArchiveFormat::TarGz);
    assert_eq!(effective_python_version("3.10", true), "3.11");
    assert_eq!(effective_python_version("3.10", false), "3.10");
    assert_eq!(effective_python_version("3.12", true), "3.12");
}

#[test]
fn dependency_sync_plan() {
    assert_eq!(plan_dependency_sync(true, true, true, true), (DependencySync::Uv, false));
    assert_eq!(plan_dependency_sync(true, false, true, false), (DependencySync::Pip, true));
    assert_eq!(plan_dependency_sync(false, true, true, true), (DependencySync::Skip, false));
    assert_eq!(plan_dependency_sync(false, false, false, false), (DependencySync::Skip, false));
}

#[test]
fn semver_comparison() {
    assert_eq!(compare_versions("1.2.0", "1.10.0"), -1);
    assert_eq!(compare_versions("v2.0.0", "1.10.0"), 1);
    assert_eq!(compare_versions("vv1.0.0", "1.0.0"), 0);
    assert_eq!(compare_versions("1.0.0-rc.1", "1.0.0"), -1);
    assert_eq!(compare_versions("nonsense", "1.0.0"), 0);
}

#[test]
fn installed_versions_sorted_newest_first_then_text() {
    let mut v = vec![iv("v4.1.0"), iv("nightly"), iv("v4.10.0"), iv("beta"), iv("4.2.0")];
    sort_installed_versions_semver(&mut v);
    let names: Vec<&str> = v.iter().map(|x| x.version.as_str()).collect();
    assert_eq!(names, vec!["v4.10.0", "4.2.0", "v4.1.0", "nightly", "beta"]);
}

#[test]
fn sort_is_stable_for_equal_versions() {
    let mut v = vec![iv("1.0.0"), iv("v1.0.0"), iv("0.9.0")];
    sort_installed_versions_semver(&mut v);
    let names: Vec<&str> = v.iter().map(|x| x.version.as_str()).collect();
    assert_eq!(names, vec!["1.0.0", "v1.0.0", "0.9.0"]);
    let mut v = vec![iv("0.9.0"), iv("v1.0.0"), iv("1.0.0")];
    sort_installed_versions_semver(&mut v);
    let names: Vec<&str> = v.iter().map(|x| x.version.as_str()).collect();
    assert_eq!(names, vec!["v1.0.0", "1.0.0", "0.9.0"]);
}

#[test]
fn defaults() {
    assert!(default_true());
    let c = AppConfig::default();
    assert!(c.close_to_tray && c.check_instance_update);
    assert!(!c.use_uv_for_deps && !c.persist_instance_state && !c.mainland_acceleration);
    assert!(c.github_proxy.is_empty());
    let m = AppManifest::default();
    assert!(m.instances.is_empty() && m.installed_versions.is_empty());
}

#[test]
fn load_uses_record_or_defaults() {
    let (c, init) = load_config(None);
    assert!(init && c.close_to_tray);
    let mut stored = AppConfig::default();
    stored.github_proxy = "https://p".into();
    let (c, init) = reload_config(Some(stored));
    assert!(!init);
    assert_eq!(c.github_proxy, "https://p");
    let (m, init) = load_manifest(None);
    assert!(init && m.tracked_instances_snapshot.is_empty());
    let (_, init) = reload_manifest(Some(AppManifest::default()));
    assert!(!init);
}

#[test]
fn read_modify_write_applies_to_stored_or_default() {
    let r = with_config_mut(None, |mut c: AppConfig| {
        c.pypi_mirror = "https://mirror".into();
        Ok((c, 5))
    })
    .unwrap();
    assert_eq!(r.0.pypi_mirror, "https://mirror");
    assert!(r.0.close_to_tray);
    assert_eq!(r.1, 5);
    let e = with_config_mut(Some(AppConfig::default()), |_c: AppConfig| -> Result<(AppConfig, ()), AppError> {
        Err(AppError::other("no"))
    });
    assert_eq!(e.unwrap_err().kind, ErrorKind::Other);
    let m = with_manifest_mut(None, |mut m: AppManifest| {
        m.tracked_instances_snapshot.push("x".into());
        Ok((m, ()))
    })
    .unwrap();
    assert_eq!(m.0.tracked_instances_snapshot, vec!["x".to_string()]);
}

#[test]
fn uv_fallback_turns_off_missing_uv() {
    let mut c = AppConfig::default();
    c.use_uv_for_deps = true;
    assert!(apply_uv_fallback(&mut c, false));
    assert!(!c.use_uv_for_deps);
    let mut c = AppConfig::default();
    c.use_uv_for_deps = true;
    assert!(!apply_uv_fallback(&mut c, true));
    assert!(c.use_uv_for_deps);
}

#[test]
fn snapshot_sorts_and_falls_back() {
    let mut c = AppConfig::default();
    c.use_uv_for_deps = true;
    let (s, persist) = build_app_snapshot(c, vec![iv("1.0.0"), iv("2.0.0")], Vec::new(), false);
    assert!(persist);
    assert!(!s.config.use_uv_for_deps);
    assert_eq!(s.versions[0].version, "2.0.0");
}

fn instance(name: &str, version: &str) -> InstanceConfig {
    InstanceConfig { name: name.into(), version: version.into(), port: 0, created_at: String::new() }
}

#[test]
fn manifest_fields_detected_in_old_config() {
    assert!(has_manifest_fields("github_proxy = \"\"\n[instances.a]\nname = \"a\"\nversion = \"v1\"\n"));
    assert!(has_manifest_fields("tracked_instances_snapshot = []\n"));
    assert!(!has_manifest_fields("github_proxy = \"x\"\nclose_to_tray = true\n"));
    assert!(!has_manifest_fields("this is = = not toml"));
}

#[test]
fn merge_keeps_existing_and_adds_missing() {
    let mut target = AppManifest {
        instances: vec![("a".into(), instance("mine", "v1"))],
        installed_versions: vec![iv("v1")],
        tracked_instances_snapshot: vec!["a".into()],
    };
    let source = AppManifest {
        instances: vec![("a".into(), instance("theirs", "v9")), ("b".into(), instance("b", "v2"))],
        installed_versions: vec![iv("v1"), iv("v2"), iv("v2")],
        tracked_instances_snapshot: vec!["b".into(), "a".into()],
    };
    merge_manifest(&mut target, &source);
    assert_eq!(target.instances.len(), 2);
    assert_eq!(target.instances[0].1.name, "mine");
    assert_eq!(target.instances[1].0, "b");
    let vs: Vec<&str> = target.installed_versions.iter().map(|v| v.version.as_str()).collect();
    assert_eq!(vs, vec!["v1", "v2"]);
    assert_eq!(target.tracked_instances_snapshot, vec!["a".to_string(), "b".to_string()]);
    let before = target.installed_versions.len();
    merge_manifest(&mut target, &source);
    assert_eq!(target.installed_versions.len(), before);
    assert_eq!(target.instances.len(), 2);
}

#[test]
fn legacy_config_splits() {
    let legacy = LegacyAppConfig {
        instances: vec![("a".into(), instance("a", "v1"))],
        installed_versions: vec![iv("v1")],
        github_proxy: "g".into(),
        proxy_url: String::new(),
        proxy_port: String::new(),
        proxy_username: String::new(),
        proxy_password: String::new(),
        pypi_mirror: "m".into(),
        nodejs_mirror: String::new(),
        npm_registry: String::new(),
        use_uv_for_deps: true,
        close_to_tray: false,
        check_instance_update: true,
        persist_instance_state: true,
        tracked_instances_snapshot: vec!["a".into()],
    };
    let m = LegacyAppConfig { ..legacy }.into_manifest();
    assert_eq!(m.instances[0].0, "a");
    assert_eq!(m.tracked_instances_snapshot, vec!["a".to_string()]);
}

#[test]
fn legacy_config_settings_part() {
    let legacy = LegacyAppConfig {
        instances: Vec::new(),
        installed_versions: Vec::new(),
        github_proxy: "g".into(),
        proxy_url: "u".into(),
        proxy_port: String::new(),
        proxy_username: String::new(),
        proxy_password: String::new(),
        pypi_mirror: "m".into(),
        nodejs_mirror: String::new(),
        npm_registry: String::new(),
        use_uv_for_deps: true,
        close_to_tray: false,
        check_instance_update: true,
        persist_instance_state: true,
        tracked_instances_snapshot: Vec::new(),
    };
    let c = legacy.into_config();
    assert_eq!(c.github_proxy, "g");
    assert_eq!(c.proxy_url, "u");
    assert!(c.use_uv_for_deps && !c.close_to_tray && c.persist_instance_state);
    assert!(!c.ignore_external_path && !c.mainland_acceleration);
}

#[test]
fn migration_plan() {
    assert_eq!(plan_migration(false, true, ManifestFile::Parsed), MigrationPlan::Nothing);
    assert_eq!(plan_migration(true, false, ManifestFile::Missing), MigrationPlan::Nothing);
    assert_eq!(plan_migration(true, true, ManifestFile::Parsed), MigrationPlan::MergeIntoExisting);
    assert_eq!(plan_migration(true, true, ManifestFile::Unreadable), MigrationPlan::WriteLegacyManifest);
    assert_eq!(plan_migration(true, true, ManifestFile::Missing), MigrationPlan::WriteLegacyManifest);
}

#[test]
fn dependency_tool_arguments() {
    assert_eq!(
        pip_install_args("/core/requirements.txt", "https://pypi.org/simple"),
        vec!["-m", "pip", "install", "-r", "/core/requirements.txt", "-i", "https://pypi.org/simple"]
    );
    let a = uv_sync_args("/v/bin/python", "/c", "https://idx");
    assert_eq!(a.len(), 11);
    assert_eq!(a[0], "sync");
    assert_eq!(a[6], "/v/bin/python");
    assert_eq!(a[10], "https://idx");
}

#[test]
fn tool_results() {
    assert!(pip_install_result(ToolRun::Exited { success: true, stderr: "warn".into() }).is_ok());
    let e = pip_install_result(ToolRun::Exited { success: false, stderr: "no such package".into() }).unwrap_err();
    assert_eq!(e.kind, ErrorKind::Python);
    assert_eq!(e.message, "Failed to install requirements: no such package");
    let e = uv_sync_result(ToolRun::Exited { success: false, stderr: "missing RECORD file".into() }).unwrap_err();
    assert_eq!(e.message, "uv sync failed: missing RECORD file");
    let e = uv_sync_result(ToolRun::NotStarted("not found".into())).unwrap_err();
    assert_eq!(e.message, "Failed to run uv sync: not found");
    let e = venv_create_result(ToolRun::Exited { success: false, stderr: "bad".into() }).unwrap_err();
    assert_eq!(e.message, "Failed to create venv: bad");
    assert!(venv_create_result(ToolRun::Exited { success: true, stderr: String::new() }).is_ok());
}

#[test]
fn venv_plans() {
    assert!(matches!(plan_venv(Ok("/py".into()), true, true), Ok(VenvStep::Ready)));
    assert!(matches!(plan_venv(Ok("/py".into()), true, false), Ok(VenvStep::Recreate(p)) if p == "/py"));
    assert!(matches!(plan_venv(Ok("/py".into()), false, false), Ok(VenvStep::Create(p)) if p == "/py"));
    let e = plan_venv(Err(AppError::python_not_installed()), true, true).unwrap_err();
    assert_eq!(e.kind, ErrorKind::PythonNotInstalled);
    assert_eq!(e.message, "Python is not installed");
}
