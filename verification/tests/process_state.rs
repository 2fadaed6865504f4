use astrbot_launcher::error::{AppError, ErrorKind};
use astrbot_launcher::manager::{LaunchFinish, LaunchedProcess, ProcessState, StopTransition};
use astrbot_launcher::monitor::{apply_outcomes, MonitorOutcome};
use astrbot_launcher::process::{calculate_backoff, InstanceRuntimeInfo, InstanceState};

fn launched(pid: u32, port: u16, dashboard: bool) -> LaunchedProcess {
    LaunchedProcess {
        pid,
        executable_path: format!("/opt/python{}", pid),
        port,
        dashboard_enabled: dashboard,
    }
}

fn live_state(id: &str, pid: u32, port: u16) -> ProcessState {
    let mut s = ProcessState::new();
    s.begin_start(id).unwrap();
    match s.finish_launch(id, Ok(launched(pid, port, true))) {
        LaunchFinish::Running { port: p } => assert_eq!(p, port),
        other => panic!("unexpected {:?}", other),
    }
    s
}

#[test]
fn start_then_port_is_known() {
    let s = live_state("a", 100, 6185);
    assert_eq!(s.get_port("a"), Some(6185));
    assert_eq!(s.get_port("b"), None);
}

#[test]
fn starting_instance_has_no_port_and_is_active() {
    let mut s = ProcessState::new();
    s.begin_start("a").unwrap();
    assert_eq!(s.get_port("a"), None);
    assert_eq!(s.get_active_ids(), vec!["a".to_string()]);
}

#[test]
fn second_start_is_refused_as_running() {
    let mut s = live_state("a", 1, 2);
    let e = s.begin_start("a").unwrap_err();
    assert_eq!(e.kind, ErrorKind::InstanceRunning);
}

#[test]
fn guard_blocks_start_and_is_released() {
    let mut s = ProcessState::new();
    let g = s.acquire_guard("a").unwrap();
    assert_eq!(g.instance_id, "a");
    assert_eq!(s.begin_start("a").unwrap_err().kind, ErrorKind::Process);
    let e = s.acquire_guard("a").unwrap_err();
    assert_eq!(e.kind, ErrorKind::Process);
    assert_eq!(e.message, "Another operation is in progress");
    assert!(s.get_runtime_info().is_empty());
    s.release_guard(g);
    assert!(s.begin_start("a").is_ok());
}

#[test]
fn guard_on_running_instance_is_refused() {
    let mut s = live_state("a", 1, 2);
    assert_eq!(s.acquire_guard("a").unwrap_err().kind, ErrorKind::InstanceRunning);
}

#[test]
fn failed_launch_removes_slot() {
    let mut s = ProcessState::new();
    s.begin_start("a").unwrap();
    match s.finish_launch("a", Err(AppError::process("boom"))) {
        LaunchFinish::Failed(e) => assert_eq!(e.message, "boom"),
        other => panic!("unexpected {:?}", other),
    }
    assert!(s.get_active_ids().is_empty());
    assert!(s.begin_start("a").is_ok());
}

#[test]
fn stop_transitions_and_finalizes() {
    let mut s = live_state("a", 42, 7000);
    let (pid, exe) = s.begin_stop("a").unwrap();
    assert_eq!(pid, 42);
    assert_eq!(exe, "/opt/python42");
    assert_eq!(s.get_port("a"), None);
    let info = s.get_runtime_info();
    assert_eq!(info.len(), 1);
    match &info[0].1 {
        InstanceRuntimeInfo::Stopping { port, dashboard_enabled } => {
            assert_eq!(*port, 7000);
            assert!(*dashboard_enabled);
        }
        other => panic!("unexpected {:?}", other),
    }
    assert_eq!(s.begin_stop("a").unwrap_err().message, "Instance is already stopping");
    s.finalize_stop("a");
    assert_eq!(s.begin_stop("a").unwrap_err().kind, ErrorKind::InstanceNotRunning);
}

#[test]
fn stop_while_starting_is_refused() {
    let mut s = ProcessState::new();
    s.begin_start("a").unwrap();
    let e = s.begin_stop("a").unwrap_err();
    assert_eq!(e.kind, ErrorKind::Process);
    assert_eq!(e.message, "Instance is still starting");
}

#[test]
fn revert_after_failed_stop_restores_live() {
    let mut s = live_state("a", 9, 8000);
    s.begin_stop("a").unwrap();
    assert!(s.revert_stopping_to_live("a"));
    assert_eq!(s.get_port("a"), Some(8000));
    assert!(!s.revert_stopping_to_live("a"));
    assert_eq!(s.get_port("a"), Some(8000));
}

#[test]
fn transition_reports_each_phase() {
    let mut s = ProcessState::new();
    assert!(matches!(s.transition_to_stopping("x"), StopTransition::NotRunning));
    s.begin_start("x").unwrap();
    assert!(matches!(s.transition_to_stopping("x"), StopTransition::StillStarting));
    let mut g = ProcessState::new();
    let _guard = g.acquire_guard("y").unwrap();
    assert!(matches!(g.transition_to_stopping("y"), StopTransition::Guarded));
}

#[test]
fn restart_of_stopped_instance_goes_to_starting() {
    let mut s = ProcessState::new();
    assert_eq!(s.begin_restart("a").unwrap(), None);
    assert_eq!(s.get_active_ids(), vec!["a".to_string()]);
}

#[test]
fn restart_of_live_instance_stops_then_starts() {
    let mut s = live_state("a", 5, 6000);
    let stop = s.begin_restart("a").unwrap();
    assert_eq!(stop, Some((5, "/opt/python5".to_string())));
    s.resume_restart("a").unwrap();
    assert_eq!(s.get_active_ids(), vec!["a".to_string()]);
    assert_eq!(s.get_port("a"), None);
}

#[test]
fn restart_of_starting_instance_is_refused() {
    let mut s = ProcessState::new();
    s.begin_start("a").unwrap();
    assert_eq!(s.begin_restart("a").unwrap_err().kind, ErrorKind::InstanceRunning);
}

#[test]
fn shutdown_drains_and_refuses_everything() {
    let mut s = live_state("a", 1, 11);
    s.begin_start("b").unwrap();
    let _g = s.acquire_guard("c").unwrap();
    s.begin_start("d").unwrap();
    s.finish_launch("d", Ok(launched(4, 44, false)));
    s.begin_stop("d").unwrap();
    let mut targets = s.drain_for_shutdown();
    targets.sort_by(|x, y| x.id.cmp(&y.id));
    assert_eq!(targets.len(), 2);
    assert_eq!((targets[0].id.as_str(), targets[0].pid, targets[0].port), ("a", 1, 11));
    assert_eq!((targets[1].id.as_str(), targets[1].pid, targets[1].port), ("d", 4, 44));
    assert!(s.get_runtime_info().is_empty());
    assert_eq!(s.begin_start("e").unwrap_err().message, "Application shutting down");
    assert_eq!(s.acquire_guard("e").unwrap_err().kind, ErrorKind::Process);
    assert_eq!(s.begin_stop("a").unwrap_err().kind, ErrorKind::Process);
    assert_eq!(s.begin_restart("a").unwrap_err().kind, ErrorKind::Process);
    assert!(s.snapshot_live().is_empty());
}

#[test]
fn launch_finishing_during_shutdown_hands_back_orphan() {
    let mut s = ProcessState::new();
    s.begin_start("a").unwrap();
    s.drain_for_shutdown();
    match s.finish_launch("a", Ok(launched(77, 1, true))) {
        LaunchFinish::ShuttingDown { orphan: Some(p), error } => {
            assert_eq!(p.pid, 77);
            assert_eq!(error.kind, ErrorKind::Process);
            assert_eq!(error.message, "Application shutting down");
        }
        other => panic!("unexpected {:?}", other),
    }
}

#[test]
fn resume_restart_during_shutdown_fails() {
    let mut s = live_state("a", 1, 2);
    s.begin_restart("a").unwrap();
    s.drain_for_shutdown();
    assert_eq!(s.resume_restart("a").unwrap_err().kind, ErrorKind::Process);
}

#[test]
fn active_ids_exclude_guarded_and_stopping() {
    let mut s = live_state("live", 1, 1);
    s.begin_start("starting").unwrap();
    let _g = s.acquire_guard("guarded").unwrap();
    s.begin_start("stopping").unwrap();
    s.finish_launch("stopping", Ok(launched(2, 2, true)));
    s.begin_stop("stopping").unwrap();
    let mut ids = s.get_active_ids();
    ids.sort();
    assert_eq!(ids, vec!["live".to_string(), "starting".to_string()]);
    assert_eq!(s.get_runtime_info().len(), 3);
}

#[test]
fn dead_outcome_removes_only_live_slots() {
    let mut s = live_state("a", 1, 10);
    s.begin_start("b").unwrap();
    let events = apply_outcomes(
        &mut s,
        &vec![
            MonitorOutcome::Dead { id: "a".to_string() },
            MonitorOutcome::Dead { id: "b".to_string() },
        ],
    );
    assert_eq!(events.len(), 1);
    assert_eq!(events[0].0, "a");
    assert_eq!(events[0].1, InstanceState::Stopped);
    assert_eq!(s.get_active_ids(), vec!["b".to_string()]);
}

fn alive(id: &str, health: u32, new_pid: Option<u32>) -> MonitorOutcome {
    MonitorOutcome::Alive {
        id: id.to_string(),
        health_failure_count: health,
        next_health_check_at: None,
        alive_failure_count: 0,
        next_alive_check_at: None,
        new_pid,
    }
}

#[test]
fn health_transitions_announce_unhealthy_and_recovery() {
    let mut s = live_state("a", 1, 10);
    assert!(apply_outcomes(&mut s, &vec![alive("a", 2, None)]).is_empty());
    let ev = apply_outcomes(&mut s, &vec![alive("a", 3, None)]);
    assert_eq!(ev, vec![("a".to_string(), InstanceState::Unhealthy)]);
    assert!(apply_outcomes(&mut s, &vec![alive("a", 4, None)]).is_empty());
    let info = s.get_runtime_info();
    assert!(matches!(info[0].1, InstanceRuntimeInfo::Live { state: InstanceState::Unhealthy, .. }));
    let ev = apply_outcomes(&mut s, &vec![alive("a", 0, Some(99))]);
    assert_eq!(ev, vec![("a".to_string(), InstanceState::Running)]);
    let snap = s.snapshot_live();
    assert_eq!(snap.len(), 1);
    assert_eq!(snap[0].pid, 99);
    assert_eq!(snap[0].port, 10);
}

#[test]
fn alive_outcome_for_non_live_slot_changes_nothing() {
    let mut s = ProcessState::new();
    s.begin_start("a").unwrap();
    assert!(apply_outcomes(&mut s, &vec![alive("a", 5, None)]).is_empty());
    assert_eq!(s.get_active_ids(), vec!["a".to_string()]);
    assert!(s.snapshot_live().is_empty());
}

#[test]
fn backoff_doubles_and_caps() {
    let got: Vec<u64> = (0..8).map(calculate_backoff).collect();
    assert_eq!(got, vec![1, 2, 4, 8, 16, 30, 30, 30]);
    assert_eq!(calculate_backoff(u32::MAX), 30);
}

#[test]
fn revert_leaves_other_slots_alone() {
    let mut s = live_state("a", 9, 8000);
    assert!(!s.revert_stopping_to_live("a"));
    assert_eq!(s.get_port("a"), Some(8000));
    s.begin_start("b").unwrap();
    assert!(!s.revert_stop("b"));
    assert_eq!(s.begin_start("b").unwrap_err().kind, ErrorKind::InstanceRunning);
}

#[test]
fn dead_after_alive_in_one_round_removes_the_slot() {
    let mut s = live_state("a", 9, 8000);
    let outcomes = vec![
        MonitorOutcome::Alive {
            id: "a".into(),
            health_failure_count: 1,
            next_health_check_at: Some(5),
            alive_failure_count: 0,
            next_alive_check_at: None,
            new_pid: None,
        },
        MonitorOutcome::Dead { id: "a".into() },
        MonitorOutcome::Dead { id: "a".into() },
    ];
    let events = apply_outcomes(&mut s, &outcomes);
    assert_eq!(events, vec![("a".to_string(), InstanceState::Stopped)]);
    assert_eq!(s.get_port("a"), None);
}
