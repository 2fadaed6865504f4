use astrbot_launcher::commands::{
    check_proxy_connectivity, clear_tracked_instances, hide_on_close, find_installed_version, find_instance,
    get_instance_port, instances_to_restore, record_tracked_instances, save_proxy,
    save_use_uv_for_deps,
};
use astrbot_launcher::config::{AppConfig, AppManifest, InstalledVersion, InstanceConfig};
use astrbot_launcher::download::{
    compute_percent_0_99, final_download_percent, record_installed_version, should_emit_progress,
    unregister_version,
};
use astrbot_launcher::error::ErrorKind;
use astrbot_launcher::lifecycle::{
    choose_port, contains, early_exit_detail, instance_env, is_startup_complete_line, plan_deploy,
    resolve_startup, to_decimal, ExitReport, StartupEvent,
};
use astrbot_launcher::locking::{collect_locking_processes, wide_z_to_string, RawLockingProcess};
use astrbot_launcher::manager::{LaunchedProcess, ProcessState};
use astrbot_launcher::error::AppError;
use astrbot_launcher::tcp_table::{
    find_listener, find_listener_v4, find_listener_v6, get_pid_on_port, ipv4_layout, ipv6_layout,
};

fn v4_row(port: u16, pid: u32) -> Vec<u8> {
    let mut row = vec![0u8; 24];
    row[8] = (port >> 8) as u8;
    row[9] = (port & 0xff) as u8;
    row[20..24].copy_from_slice(&pid.to_le_bytes());
    row
}

fn v4_table(rows: &[(u16, u32)]) -> Vec<u8> {
    let mut t = (rows.len() as u32).to_le_bytes().to_vec();
    for &(port, pid) in rows {
        t.extend(v4_row(port, pid));
    }
    t
}

fn v6_table(rows: &[(u16, u32)]) -> Vec<u8> {
    let mut t = (rows.len() as u32).to_le_bytes().to_vec();
    for &(port, pid) in rows {
        let mut row = vec![0u8; 56];
        row[20] = (port >> 8) as u8;
        row[21] = (port & 0xff) as u8;
        row[52..56].copy_from_slice(&pid.to_le_bytes());
        t.extend(row);
    }
    t
}

#[test]
fn listener_found_by_port_in_network_order() {
    let t = v4_table(&[(80, 4), (6185, 1234), (6185, 999)]);
    assert_eq!(find_listener(&t, ipv4_layout(), 6185), Some(1234));
    assert_eq!(find_listener(&t, ipv4_layout(), 443), None);
}

#[test]
fn idle_process_never_owns_a_port() {
    let t = v4_table(&[(6185, 0), (6185, 7)]);
    assert_eq!(find_listener(&t, ipv4_layout(), 6185), Some(7));
}

#[test]
fn truncated_tables_are_read_only_as_far_as_they_go() {
    let mut t = v4_table(&[(1, 5), (2, 6)]);
    t.truncate(4 + 24 + 10);
    assert_eq!(find_listener(&t, ipv4_layout(), 1), Some(5));
    assert_eq!(find_listener(&t, ipv4_layout(), 2), None);
    assert_eq!(find_listener(&[1, 0], ipv4_layout(), 1), None);
}

#[test]
fn ipv6_table_is_the_fallback() {
    let v4 = v4_table(&[(80, 4)]);
    let v6 = v6_table(&[(6185, 77)]);
    assert_eq!(get_pid_on_port(Some(&v4), Some(&v6), 6185), Some(77));
    assert_eq!(get_pid_on_port(Some(&v4), Some(&v6), 80), Some(4));
    assert_eq!(get_pid_on_port(None, Some(&v6), 6185), Some(77));
    assert_eq!(get_pid_on_port(None, None, 6185), None);
    assert_eq!(find_listener(&v6, ipv6_layout(), 6185), Some(77));
}

fn wide(s: &str) -> Vec<u16> {
    let mut v: Vec<u16> = s.encode_utf16().collect();
    v.push(0);
    v.extend([0x41, 0x42]);
    v
}

#[test]
fn wide_strings_stop_at_nul() {
    assert_eq!(wide_z_to_string(&wide("Hi")), "Hi");
    assert_eq!(wide_z_to_string(&[0x48, 0x69]), "Hi");
    assert_eq!(wide_z_to_string(&[0xD800, 0x41, 0]), "\u{FFFD}A");
}

#[test]
fn locking_processes_skip_idle_and_repeats() {
    let raw = vec![
        RawLockingProcess { pid: 0, app_name: wide("idle"), service_short_name: wide(""), executable_path: None },
        RawLockingProcess { pid: 5, app_name: wide("Editor"), service_short_name: wide("svc"), executable_path: Some("C:/e.exe".into()) },
        RawLockingProcess { pid: 5, app_name: wide("Again"), service_short_name: wide(""), executable_path: None },
        RawLockingProcess { pid: 6, app_name: wide("Other"), service_short_name: wide(""), executable_path: None },
    ];
    let out = collect_locking_processes(&raw);
    assert_eq!(out.len(), 2);
    assert_eq!(out[0].pid, 5);
    assert_eq!(out[0].app_name, "Editor");
    assert_eq!(out[0].service_short_name, "svc");
    assert_eq!(out[0].executable_path.as_deref(), Some("C:/e.exe"));
    assert_eq!(out[1].app_name, "Other");
}

#[test]
fn percent_is_capped_below_done() {
    assert_eq!(compute_percent_0_99(50, Some(100)), Some(49));
    assert_eq!(compute_percent_0_99(100, Some(100)), Some(99));
    assert_eq!(compute_percent_0_99(500, Some(100)), Some(99));
    assert_eq!(compute_percent_0_99(5, Some(0)), Some(0));
    assert_eq!(compute_percent_0_99(5, None), None);
    assert_eq!(compute_percent_0_99(u64::MAX, Some(u64::MAX)), Some(1));
    assert_eq!(final_download_percent(5, None), Some(99));
    assert_eq!(final_download_percent(1, Some(2)), Some(49));
}

#[test]
fn progress_is_throttled() {
    assert!(should_emit_progress(100, 3, 3));
    assert!(should_emit_progress(0, 4, 3));
    assert!(!should_emit_progress(99, 3, 3));
}

fn iv(v: &str) -> InstalledVersion {
    InstalledVersion { version: v.to_string(), zip_path: format!("/versions/{}.zip", v) }
}

fn manifest() -> AppManifest {
    AppManifest {
        instances: vec![
            ("i1".into(), InstanceConfig { name: "First".into(), version: "v1".into(), port: 0, created_at: String::new() }),
            ("i2".into(), InstanceConfig { name: "Second".into(), version: "v1".into(), port: 6185, created_at: String::new() }),
        ],
        installed_versions: vec![iv("v1"), iv("v2"), iv("v3")],
        tracked_instances_snapshot: Vec::new(),
    }
}

#[test]
fn recording_a_version_replaces_earlier_entry() {
    let mut m = manifest();
    record_installed_version(&mut m, InstalledVersion { version: "v2".into(), zip_path: "/new".into() });
    let vs: Vec<(&str, &str)> = m.installed_versions.iter().map(|v| (v.version.as_str(), v.zip_path.as_str())).collect();
    assert_eq!(vs, vec![("v1", "/versions/v1.zip"), ("v3", "/versions/v3.zip"), ("v2", "/new")]);
}

#[test]
fn version_in_use_cannot_be_removed() {
    let mut m = manifest();
    let e = unregister_version(&mut m, "v1").unwrap_err();
    assert_eq!(e.kind, ErrorKind::VersionInUse);
    assert_eq!(e.message, "v1: First");
    assert_eq!(m.installed_versions.len(), 3);
    unregister_version(&mut m, "v3").unwrap();
    assert_eq!(m.installed_versions.len(), 2);
    unregister_version(&mut m, "v9").unwrap();
    assert_eq!(m.installed_versions.len(), 2);
}

#[test]
fn lookups_in_manifest() {
    let m = manifest();
    assert_eq!(find_instance(&m, "i2").unwrap().port, 6185);
    assert_eq!(find_instance(&m, "x").unwrap_err().kind, ErrorKind::InstanceNotFound);
    assert_eq!(find_installed_version(&m, "v2").unwrap().zip_path, "/versions/v2.zip");
    assert_eq!(find_installed_version(&m, "v7").unwrap_err().kind, ErrorKind::VersionNotFound);
}

#[test]
fn persisted_instances_are_restored() {
    let mut m = manifest();
    record_tracked_instances(&mut m, true, vec!["i1".into()]);
    assert_eq!(instances_to_restore(true, &m), vec!["i1".to_string()]);
    clear_tracked_instances(&mut m);
    assert!(instances_to_restore(true, &m).is_empty());
    record_tracked_instances(&mut m, false, vec!["i2".into()]);
    assert!(m.tracked_instances_snapshot.is_empty());
    m.tracked_instances_snapshot.push("i2".into());
    assert!(instances_to_restore(false, &m).is_empty());
}

#[test]
fn instance_port_command() {
    let mut s = ProcessState::new();
    assert_eq!(get_instance_port(&s, "a").unwrap_err().kind, ErrorKind::InstanceNotRunning);
    s.begin_start("a").unwrap();
    s.finish_launch("a", Ok(LaunchedProcess { pid: 1, executable_path: "p".into(), port: 9, dashboard_enabled: false }));
    assert_eq!(get_instance_port(&s, "a").unwrap(), 9);
}

#[test]
fn uv_setting_needs_uv() {
    let mut c = AppConfig::default();
    let e = save_use_uv_for_deps(&mut c, true, false).unwrap_err();
    assert_eq!(e.kind, ErrorKind::Other);
    assert_eq!(e.message, "uv 组件未安装，无法启用 uv 安装依赖");
    assert!(!c.use_uv_for_deps);
    save_use_uv_for_deps(&mut c, true, true).unwrap();
    assert!(c.use_uv_for_deps);
}

#[test]
fn proxy_save_rules() {
    assert!(check_proxy_connectivity(true, false, false).is_ok());
    assert!(check_proxy_connectivity(false, false, true).is_ok());
    let e = check_proxy_connectivity(false, false, false).unwrap_err();
    assert_eq!(e.kind, ErrorKind::Network);
    assert_eq!(e.message, "代理配置错误，无法连接 cloudflare.com 或 baidu.com");
    let mut c = AppConfig::default();
    save_proxy(&mut c, Ok(()), " http://h ".into(), "1".into(), " u ".into(), "p".into()).unwrap();
    assert_eq!((c.proxy_url.as_str(), c.proxy_username.as_str()), ("http://h", "u"));
}

#[test]
fn startup_line_and_port() {
    assert!(is_startup_complete_line("[12:00] AstrBot 启动完成，访问 http://localhost"));
    assert!(!is_startup_complete_line("AstrBot 启动中"));
    assert!(contains("abc", ""));
    assert!(contains("abcabd", "abd"));
    assert!(!contains("ab", "abc"));
    assert_eq!(to_decimal(0), "0");
    assert_eq!(to_decimal(65535), "65535");
    assert_eq!(choose_port(6185, Ok(()), Err(AppError::process("x"))).unwrap(), 6185);
    assert_eq!(choose_port(6185, Err(AppError::process("busy")), Ok(1)).unwrap_err().message, "busy");
    assert_eq!(choose_port(0, Err(AppError::process("x")), Ok(40000)).unwrap(), 40000);
    assert_eq!(plan_deploy(true, false), (false, true));
}

#[test]
fn startup_resolution() {
    let r = resolve_startup(8000, StartupEvent::Signal(true), true);
    assert_eq!(r.result.unwrap(), 8000);
    assert!(!r.untrack && !r.kill);
    let r = resolve_startup(8000, StartupEvent::TimedOut, false);
    assert_eq!(r.result.unwrap_err().kind, ErrorKind::StartupTimeout);
    assert!(r.untrack && !r.kill);
    let r = resolve_startup(8000, StartupEvent::TimedOut, true);
    assert!(r.kill);
    let r = resolve_startup(8000, StartupEvent::Exited(ExitReport::Status("exit status: 1".into())), true);
    assert!(r.untrack && !r.kill);
    let e = r.result.unwrap_err();
    assert_eq!(e.kind, ErrorKind::Process);
    assert_eq!(e.message, "Instance exited before startup completed (exit status: exit status: 1)");
    let r = resolve_startup(8000, StartupEvent::Signal(false), true);
    let e = r.result.unwrap_err();
    assert_eq!(e.kind, ErrorKind::Process);
    assert_eq!(e.message, "Failed to detect startup completion from log stream");
}

#[test]
fn early_exit_messages() {
    assert_eq!(
        early_exit_detail(&ExitReport::WaitFailed("Failed to wait for process exit: gone".into())),
        "Instance exited before startup completed (Failed to wait for process exit: gone)"
    );
    assert_eq!(early_exit_detail(&ExitReport::Lost), "Instance exited before startup completed");
}

#[test]
fn instance_environment() {
    let env = instance_env(6185, "/venv", "/venv/bin:/usr/bin", "/venv/bin/python", "/cache/uv", "https://pypi.org/simple");
    assert_eq!(env.len(), 11);
    assert_eq!(env[0], ("ASTRBOT_LAUNCHER".to_string(), "1".to_string()));
    assert_eq!(env[1], ("DASHBOARD_PORT".to_string(), "6185".to_string()));
    assert_eq!(env[7], ("UV_PYTHON_DOWNLOADS".to_string(), "never".to_string()));
    assert_eq!(env[10].1, "https://pypi.org/simple");
}

#[test]
fn per_family_listener_lookup() {
    let t4 = v4_table(&[(80, 0), (6185, 42)]);
    assert_eq!(find_listener_v4(&t4, 6185), Some(42));
    assert_eq!(find_listener_v4(&t4, 80), None);
    let t6 = v6_table(&[(6185, 77)]);
    assert_eq!(find_listener_v6(&t6, 6185), Some(77));
    assert_eq!(find_listener_v6(&t6, 6186), None);
}

#[test]
fn register_then_unregister_undoes_it() {
    let mut m = manifest();
    record_installed_version(&mut m, InstalledVersion { version: "v7".into(), zip_path: "/v7".into() });
    assert_eq!(m.installed_versions.len(), 4);
    unregister_version(&mut m, "v7").unwrap();
    let vs: Vec<&str> = m.installed_versions.iter().map(|v| v.version.as_str()).collect();
    assert_eq!(vs, vec!["v1", "v2", "v3"]);
}

#[test]
fn closing_the_window() {
    assert!(hide_on_close(Some(true)));
    assert!(!hide_on_close(Some(false)));
    assert!(hide_on_close(None));
}

#[test]
fn proxy_is_stored_only_after_a_passing_check() {
    let mut c = AppConfig::default();
    let failed = check_proxy_connectivity(false, false, false);
    let e = save_proxy(&mut c, failed, " http://p ".into(), "1".into(), "u".into(), "w".into()).unwrap_err();
    assert_eq!(e.kind, ErrorKind::Network);
    assert_eq!(c.proxy_url, "");
    assert_eq!(c.proxy_port, "");
    let passed = check_proxy_connectivity(false, true, false);
    save_proxy(&mut c, passed, " http://p ".into(), " 1 ".into(), "u".into(), "w".into()).unwrap();
    assert_eq!(c.proxy_url, "http://p");
    assert_eq!(c.proxy_port, "1");
    assert_eq!(c.proxy_username, "u");
    assert!(c.close_to_tray);
}

#[test]
fn startup_timeout_message() {
    let e = resolve_startup(1, StartupEvent::TimedOut, true).result.unwrap_err();
    assert_eq!(e.message, "Instance startup timed out");
}
