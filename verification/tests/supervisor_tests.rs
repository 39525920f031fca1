use cellguard::runtime::supervisor::{
    circuit_aggregate_id, circuit_snapshot_event_type, full_jitter_exec, is_circuit_snapshot_event,
    jittered_backoff, restart_backoff_ms, CircuitBreaker, PanicVerdict, SupervisionDecision,
    SupervisionStrategy, Supervisor,
};

#[test]
fn circuit_snapshot_roundtrip() {
    let mut cb = CircuitBreaker::new(3, 1000);
    cb.record_failure();
    cb.record_failure();
    cb.record_failure();
    assert!(cb.is_open());
    let snap = cb.snapshot();
    let restored = CircuitBreaker::restore(&snap);
    assert!(restored.is_open());
    assert_eq!(restored.failure_count(), 3);
}

#[test]
fn test_circuit_breaker_opens_after_threshold() {
    let mut cb = CircuitBreaker::new(3, 60_000);
    assert!(cb.allow_call());
    cb.record_failure();
    cb.record_failure();
    assert!(cb.allow_call());
    cb.record_failure();
    assert!(!cb.allow_call(), "circuit should open after 3 failures");
}

#[test]
fn test_circuit_breaker_success_resets() {
    let mut cb = CircuitBreaker::new(3, 60_000);
    cb.record_failure();
    cb.record_failure();
    cb.record_success();
    assert!(cb.allow_call());
    assert!(!cb.is_open());
}

#[test]
fn test_circuit_breaker_recovers() {
    let mut cb = CircuitBreaker::new(2, 10);
    cb.record_failure_at(1_000);
    cb.record_failure_at(1_000);
    assert!(!cb.allow_call_at(1_005));
    assert!(cb.allow_call_at(1_020), "should half-open after reset window");
}

#[test]
fn test_supervisor_restart_strategy() {
    let mut sup = Supervisor::new();
    sup.register_cell("test-cell", SupervisionStrategy::Restart { max_retries: 3 });
    let d1 = sup.record_panic("test-cell");
    assert!(matches!(d1, PanicVerdict::Restart { .. }));
    let _ = sup.record_panic("test-cell");
    let _ = sup.record_panic("test-cell");
    let d4 = sup.record_panic("test-cell");
    assert!(matches!(d4, PanicVerdict::Stop), "after max retries should stop");
}

#[test]
fn test_supervisor_circuit_break_strategy() {
    let mut sup = Supervisor::new();
    sup.register_cell(
        "test-cell",
        SupervisionStrategy::CircuitBreak { failure_threshold: 2, reset_after_ms: 0 },
    );
    let _ = sup.record_panic("test-cell");
    let d2 = sup.record_panic("test-cell");
    assert!(matches!(d2, PanicVerdict::CircuitBreak { .. }));
    assert!(sup.is_circuit_open("test-cell"));
}

// Laws and edge cases on concrete values.

#[test]
fn restart_attempts_count_up_then_stop() {
    let mut sup = Supervisor::new();
    sup.register_cell("c", SupervisionStrategy::Restart { max_retries: 2 });
    assert_eq!(sup.record_panic_at("c", 10), PanicVerdict::Restart { attempt: 1 });
    assert_eq!(sup.record_panic_at("c", 11), PanicVerdict::Restart { attempt: 2 });
    assert_eq!(sup.record_panic_at("c", 12), PanicVerdict::Stop);
    assert_eq!(sup.restart_count("c"), 3);
}

#[test]
fn stop_and_escalate_strategies() {
    let mut sup = Supervisor::new();
    sup.register_cell("s", SupervisionStrategy::Stop);
    sup.register_cell("e", SupervisionStrategy::Escalate);
    assert_eq!(sup.record_panic_at("s", 1), PanicVerdict::Stop);
    assert_eq!(sup.record_panic_at("e", 1), PanicVerdict::Escalate);
    assert_eq!(sup.record_panic_at("unknown", 1), PanicVerdict::Stop);
}

#[test]
fn circuit_break_holds_cell_until_window_passes() {
    let mut sup = Supervisor::new();
    sup.register_cell("c", SupervisionStrategy::CircuitBreak { failure_threshold: 1, reset_after_ms: 100 });
    assert_eq!(sup.record_panic_at("c", 1_000), PanicVerdict::CircuitBreak { until_ms: 1_100 });
    assert!(!sup.before_handle_at("c", 1_050));
    assert!(sup.before_handle_at("c", 1_100));
    sup.record_success("c");
    assert!(!sup.is_circuit_open("c"));
    assert!(!sup.before_handle_at("missing", 0));
}

#[test]
fn success_keeps_restart_count() {
    let mut sup = Supervisor::new();
    sup.register_cell("c", SupervisionStrategy::default());
    let _ = sup.record_panic_at("c", 5);
    sup.record_success("c");
    assert_eq!(sup.restart_count("c"), 1);
}

#[test]
fn circuits_survive_restart() {
    let mut sup = Supervisor::new();
    sup.register_cell("c1", SupervisionStrategy::CircuitBreak { failure_threshold: 2, reset_after_ms: 60_000 });
    let _ = sup.record_panic_at("c1", 1);
    let _ = sup.record_panic_at("c1", 2);
    assert!(sup.is_circuit_open("c1"));
    let snaps = sup.circuit_snapshots();
    let mut sup2 = Supervisor::new();
    let n = sup2.restore_circuits_at(&snaps, 10);
    assert!(n >= 1);
    assert!(sup2.is_circuit_open("c1"));
    assert_eq!(circuit_aggregate_id("c1"), "circuit:c1");
}

#[test]
fn decision_from_verdict() {
    assert_eq!(
        SupervisionDecision::from_verdict(PanicVerdict::Restart { attempt: 2 }, 400),
        SupervisionDecision::Restart { backoff_ms: 400 }
    );
    assert_eq!(
        SupervisionDecision::from_verdict(PanicVerdict::CircuitBreak { until_ms: 7 }, 400),
        SupervisionDecision::CircuitBreak { until_ms: 7 }
    );
}

#[test]
fn jitter_stays_within_ceiling() {
    assert_eq!(full_jitter_exec(0, 12345), 0);
    assert_eq!(full_jitter_exec(9, 25), 5);
    for attempt in 0..50u32 {
        assert!(jittered_backoff(attempt, 200) <= 200);
    }
}

#[test]
fn supervisor_counts_failures_until_success() {
    let mut sup = Supervisor::new();
    assert_eq!(sup.failure_count("cell"), 0);
    sup.register_cell("cell", SupervisionStrategy::Restart { max_retries: 5 });
    let _ = sup.record_panic("cell");
    let _ = sup.record_panic("cell");
    assert_eq!(sup.failure_count("cell"), 2);
    sup.record_success("cell");
    assert_eq!(sup.failure_count("cell"), 0);
    assert_eq!(sup.restart_count("cell"), 2);
}

#[test]
fn restored_open_breaker_holds_its_window() {
    let mut cb = CircuitBreaker::new(1, 60_000);
    cb.record_failure();
    let restored = CircuitBreaker::restore(&cb.snapshot());
    let mut restored = restored;
    assert!(!restored.allow_call());
}

fn decide(sup: &mut Supervisor, id: &str) -> SupervisionDecision {
    let verdict = sup.record_panic(id);
    let backoff = match verdict {
        PanicVerdict::Restart { attempt } => restart_backoff_ms(attempt, 100, 30_000, 2),
        _ => 0,
    };
    SupervisionDecision::from_verdict(verdict, backoff)
}

#[test]
fn test_restart_with_exponential_backoff() {
    let mut sup = Supervisor::new();
    sup.register_cell("test-cell", SupervisionStrategy::Restart { max_retries: 5 });
    for expected in [100u64, 200, 400, 800, 1600] {
        assert_eq!(decide(&mut sup, "test-cell"), SupervisionDecision::Restart { backoff_ms: expected });
    }
    assert_eq!(decide(&mut sup, "test-cell"), SupervisionDecision::Stop);
}

#[test]
fn test_supervisor_restart_with_exponential_backoff() {
    let mut sup = Supervisor::new();
    sup.register_cell("crashy-cell", SupervisionStrategy::Restart { max_retries: 3 });
    assert_eq!(decide(&mut sup, "crashy-cell"), SupervisionDecision::Restart { backoff_ms: 100 });
    assert_eq!(decide(&mut sup, "crashy-cell"), SupervisionDecision::Restart { backoff_ms: 200 });
    assert_eq!(decide(&mut sup, "crashy-cell"), SupervisionDecision::Restart { backoff_ms: 400 });
    assert_eq!(decide(&mut sup, "crashy-cell"), SupervisionDecision::Stop);
}

#[test]
fn test_backoff_caps_at_30_seconds() {
    let mut sup = Supervisor::new();
    sup.register_cell("test-cell", SupervisionStrategy::Restart { max_retries: 10 });
    for attempt in 1..=10 {
        match decide(&mut sup, "test-cell") {
            SupervisionDecision::Restart { backoff_ms } => {
                assert!(backoff_ms <= 30_000, "backoff should cap at 30s");
                if attempt >= 10 {
                    assert_eq!(backoff_ms, 30_000, "backoff should reach cap at attempt 10");
                }
            }
            _ => break,
        }
    }
}

#[test]
fn restart_backoff_edge_cases() {
    assert_eq!(restart_backoff_ms(0, 100, 30_000, 2), 100);
    assert_eq!(restart_backoff_ms(1, 50_000, 30_000, 2), 30_000);
    assert_eq!(restart_backoff_ms(3, 100, 30_000, 0), 0);
    assert_eq!(restart_backoff_ms(4, 100, 30_000, 1), 100);
    assert_eq!(restart_backoff_ms(u32::MAX, 100, 30_000, 3), 30_000);
    assert_eq!(restart_backoff_ms(3, 7, u64::MAX, 10), 700);
}

#[test]
fn circuit_snapshot_events_are_recognised() {
    assert_eq!(circuit_snapshot_event_type(), "circuit.snapshot");
    assert!(is_circuit_snapshot_event("circuit.snapshot"));
    assert!(!is_circuit_snapshot_event("circuit.opened"));
}
