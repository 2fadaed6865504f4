use astrbot_launcher::monitor::{
    calculate_health_backoff, calculate_liveness_backoff, evaluate_health, evaluate_instance, evaluate_liveness, health_check_due, is_healthy_response,
    liveness_probe_due, needs_health_check, probe_liveness, LiveSnapshot, LivenessProbe, MonitorOutcome,
};

fn snap(dashboard: bool) -> LiveSnapshot {
    LiveSnapshot {
        id: "i".to_string(),
        port: 6185,
        pid: 10,
        executable_path: "/bin/py".to_string(),
        dashboard_enabled: dashboard,
        next_health_check_at: None,
        health_failure_count: 0,
        alive_failure_count: 0,
        next_alive_check_at: None,
    }
}

fn failing_lookup() -> LivenessProbe {
    LivenessProbe::PortLookup { alive: false, port_owner: None, owner_expected_alive: false }
}

#[test]
fn direct_probe_alive_or_dead() {
    let e = snap(true);
    assert_eq!(probe_liveness(&e, 0, &LivenessProbe::Direct { alive: true }), Some((0, None, None)));
    assert_eq!(probe_liveness(&e, 0, &LivenessProbe::Direct { alive: false }), None);
}

#[test]
fn port_owner_becomes_new_pid() {
    let e = snap(true);
    let p = LivenessProbe::PortLookup { alive: false, port_owner: Some(11), owner_expected_alive: true };
    assert_eq!(probe_liveness(&e, 0, &p), Some((0, None, Some(11))));
    let same = LivenessProbe::PortLookup { alive: false, port_owner: Some(10), owner_expected_alive: true };
    assert_eq!(probe_liveness(&e, 1000, &same), Some((1, Some(3000), None)));
}

#[test]
fn liveness_retries_until_threshold() {
    let mut e = snap(true);
    e.alive_failure_count = 3;
    assert_eq!(probe_liveness(&e, 500, &failing_lookup()), Some((4, Some(16_500), None)));
    e.alive_failure_count = 4;
    assert_eq!(probe_liveness(&e, 500, &failing_lookup()), None);
}

#[test]
fn retry_without_dashboard_counts_as_dead() {
    let e = snap(false);
    assert!(evaluate_liveness(&e, 0, &failing_lookup()).is_none());
    assert!(evaluate_liveness(&snap(true), 0, &failing_lookup()).is_some());
}

#[test]
fn pending_liveness_backoff_keeps_counters() {
    let mut e = snap(true);
    e.alive_failure_count = 2;
    e.next_alive_check_at = Some(5000);
    assert!(!liveness_probe_due(&e, 4999));
    assert!(liveness_probe_due(&e, 5000));
    match evaluate_liveness(&e, 4000, &failing_lookup()) {
        Some(MonitorOutcome::Alive { alive_failure_count, next_alive_check_at, new_pid, .. }) => {
            assert_eq!(alive_failure_count, 2);
            assert_eq!(next_alive_check_at, Some(5000));
            assert_eq!(new_pid, None);
        }
        other => panic!("unexpected {:?}", other),
    }
}

#[test]
fn health_counts_and_backs_off() {
    let mut e = snap(true);
    assert_eq!(evaluate_health(&e, 1000, false), (1, Some(3000)));
    e.health_failure_count = 1;
    e.next_health_check_at = Some(3000);
    assert!(!health_check_due(&e, 2999));
    assert_eq!(evaluate_health(&e, 2000, false), (1, Some(3000)));
    assert_eq!(evaluate_health(&e, 3000, false), (2, Some(7000)));
    assert_eq!(evaluate_health(&e, 3000, true), (0, None));
}

#[test]
fn instance_evaluation_combines_liveness_and_health() {
    let e = snap(true);
    let alive = LivenessProbe::Direct { alive: true };
    assert!(needs_health_check(&e, 0, &alive));
    match evaluate_instance(&e, 0, &alive, false) {
        MonitorOutcome::Alive { health_failure_count, .. } => assert_eq!(health_failure_count, 1),
        other => panic!("unexpected {:?}", other),
    }
    let e2 = snap(false);
    assert!(!needs_health_check(&e2, 0, &alive));
    assert!(matches!(
        evaluate_instance(&e2, 0, &LivenessProbe::Direct { alive: false }, true),
        MonitorOutcome::Dead { .. }
    ));
}

#[test]
fn health_response_must_say_ok() {
    assert!(is_healthy_response(true, Some("ok")));
    assert!(!is_healthy_response(true, Some("error")));
    assert!(!is_healthy_response(false, Some("ok")));
    assert!(!is_healthy_response(true, None));
}

#[test]
fn named_backoffs() {
    assert_eq!(calculate_health_backoff(0), 1);
    assert_eq!(calculate_health_backoff(3), 8);
    assert_eq!(calculate_liveness_backoff(4), 16);
    assert_eq!(calculate_liveness_backoff(10), 30);
}
