use cellguard::runtime::data_source::{DataSourceError, SignalEventData};
use cellguard::json::JsonValue;
use cellguard::runtime::bus::{BusInterceptor, InterceptDecision, RoutingTable};
use cellguard::runtime::commands::{command_envelope, format_command_msg_id, CommandIds};
use cellguard::runtime::constraint_validator::{ConstraintValidator, ValidationContext};
use cellguard::runtime::dispatch::{
    circuit_hold_actions, hash_sequence_number_exec, snapshot_step_exec, supervision_actions,
    DispatchAction, EntropyEventKind,
};
use cellguard::runtime::dlq::{DeadLetter, DeadLetterQueue};
use cellguard::runtime::dlq_store::{DeadLetterStore, MemoryDeadLetterStore};
use cellguard::runtime::entropy_interceptors::{EmergencyInterceptor, ThrottleCounters};
use cellguard::runtime::guardian::ArchitectureGuardian;
use cellguard::runtime::health::Heartbeat;
use cellguard::runtime::interceptors::{
    CapabilityVersionInterceptor, GuardInterceptor, HopLimitInterceptor, IdempotencyInterceptor,
    LoopDetectInterceptor, SchemaVersionInterceptor,
};
use cellguard::runtime::loop_detector::{LoopDetector, LruCorrelationMap};
use cellguard::runtime::mailbox::Mailbox;
use cellguard::runtime::message_bus::MessageBus;
use cellguard::runtime::server::{HealthResponse, MetricsRegistry, NoopRegistry};
use cellguard::runtime::supervisor::SupervisionDecision;
use cellguard::runtime::telemetry::NoopTracer;
use cellguard::signal::{KernelError, Layer, SchemaVersion, SignalEnvelope, SignalKind};

fn envelope(id: &str, corr: &str, from: Layer, to: Layer, target: Option<&str>, hops: u32) -> SignalEnvelope {
    SignalEnvelope {
        msg_id: id.to_string(),
        correlation_id: corr.to_string(),
        trace_id: None,
        signal_type: "Test".to_string(),
        timestamp_ns: 0,
        kind: SignalKind::Command,
        source_layer: from,
        target_layer: to,
        source_cell: None,
        target_cell: target.map(|s| s.to_string()),
        payload: JsonValue::Null,
        schema_version: SchemaVersion::new(1),
        parent_msg_id: None,
        hop_count: hops,
    }
}

fn make_env(hops: u32, id: &str) -> SignalEnvelope {
    envelope(id, "c", Layer::Exec, Layer::Exec, None, hops)
}

fn loop_env(target: &str, cid: &str) -> SignalEnvelope {
    envelope(&format!("m-{}-{}", cid, target), cid, Layer::Exec, Layer::Exec, Some(target), 0)
}

fn is_allow(d: &InterceptDecision) -> bool {
    matches!(d, InterceptDecision::Allow)
}

fn is_reject(d: &InterceptDecision) -> bool {
    matches!(d, InterceptDecision::Reject { .. })
}

// Interceptors.

#[test]
fn hop_limit_blocks() {
    let mut i = HopLimitInterceptor::new(3);
    let e = make_env(3, "a");
    assert!(is_reject(&i.intercept(&e)));
}

#[test]
fn hop_limit_allows() {
    let mut i = HopLimitInterceptor::new(8);
    let e = make_env(1, "b");
    assert!(is_allow(&i.intercept(&e)));
}

#[test]
fn idempotency_blocks_duplicate() {
    let mut i = IdempotencyInterceptor::default();
    let e = make_env(0, "dup");
    assert!(is_allow(&i.intercept(&e)));
    assert!(is_reject(&i.intercept(&e)));
}

#[test]
fn schema_version_blocks_zero() {
    let mut i = SchemaVersionInterceptor;
    let mut e = make_env(0, "sv");
    e.schema_version = SchemaVersion::new(0);
    assert!(is_reject(&i.intercept(&e)));
}

#[test]
fn guard_blocks_forbidden_signal() {
    let mut i = GuardInterceptor::new();
    let mut e = make_env(0, "g");
    e.signal_type = "ForbiddenSignal".into();
    assert!(is_reject(&i.intercept(&e)));
}

#[test]
fn guard_allows_normal_signal() {
    let mut i = GuardInterceptor::new();
    let e = make_env(0, "g");
    assert!(is_allow(&i.intercept(&e)));
}

#[test]
fn capability_version_interceptor_allows_when_no_registered() {
    let mut interceptor =
        CapabilityVersionInterceptor::new(ConstraintValidator::new(ValidationContext::default()));
    let env = make_env(0, "cap-ok");
    assert!(is_allow(&interceptor.intercept(&env)));
}

#[test]
fn guard_interceptor_blocks_forbidden_signal() {
    let mut interceptor = GuardInterceptor;
    let mut env = make_env(0, "guard-bad");
    env.signal_type = "ForbiddenSignal".to_string();
    env.source_layer = Layer::Exec;
    env.target_layer = Layer::Exec;
    assert!(is_reject(&interceptor.intercept(&env)));
}

#[test]
fn guard_interceptor_allows_normal_signal() {
    let mut interceptor = GuardInterceptor;
    let mut env = make_env(0, "guard-ok");
    env.signal_type = "NormalSignal".to_string();
    assert!(is_allow(&interceptor.intercept(&env)));
}

#[test]
fn hop_limit_interceptor_blocks_excessive_hops() {
    let mut interceptor = HopLimitInterceptor::new(3);
    let env = make_env(3, "hop");
    assert!(is_reject(&interceptor.intercept(&env)));
}

#[test]
fn schema_version_interceptor_blocks_zero() {
    let mut interceptor = SchemaVersionInterceptor;
    let mut env = make_env(0, "schema");
    env.schema_version = SchemaVersion::new(0);
    assert!(is_reject(&interceptor.intercept(&env)));
}

#[test]
fn idempotency_interceptor_blocks_duplicate() {
    let mut interceptor = IdempotencyInterceptor::default();
    let env = make_env(0, "dup");
    assert!(is_allow(&interceptor.intercept(&env)));
    assert!(is_reject(&interceptor.intercept(&env)));
}

#[test]
fn interceptor_reasons_are_exact() {
    let mut hop = HopLimitInterceptor::new(3);
    match hop.intercept(&make_env(5, "x")) {
        InterceptDecision::Reject { reason } => assert_eq!(reason, "hop limit 3 exceeded (current hops: 5)"),
        other => panic!("{other:?}"),
    }
    let mut idem = IdempotencyInterceptor::new();
    idem.intercept(&make_env(0, "m1"));
    match idem.intercept(&make_env(0, "m1")) {
        InterceptDecision::Reject { reason } => assert_eq!(reason, "duplicate message id: m1"),
        other => panic!("{other:?}"),
    }
    let mut guard = GuardInterceptor::default();
    let mut e = make_env(0, "g");
    e.signal_type = "ForbiddenSignal".to_string();
    match guard.intercept(&e) {
        InterceptDecision::Reject { reason } => assert_eq!(reason, "guard blocked signal: ForbiddenSignal"),
        other => panic!("{other:?}"),
    }
    assert_eq!(HopLimitInterceptor::default().name(), "hop-limit");
}

#[test]
fn hop_limit_default_is_eight() {
    let mut hop = HopLimitInterceptor::default();
    assert!(is_allow(&hop.intercept(&make_env(7, "a"))));
    assert!(is_reject(&hop.intercept(&make_env(8, "b"))));
}

// Guardian.

#[test]
fn test_layer_violation_exec_to_agent_rejected() {
    let mut guardian = ArchitectureGuardian::new();
    let env = envelope("m", "c", Layer::Exec, Layer::Agent, Some("agent-cell"), 0);
    assert!(is_reject(&guardian.intercept(&env)));
}

#[test]
fn test_layer_violation_oversight_can_send_to_all() {
    let mut guardian = ArchitectureGuardian::new();
    for target_layer in [Layer::Oversight, Layer::Agent, Layer::Validate, Layer::Exec] {
        let env = envelope("m", "c", Layer::Oversight, target_layer, Some("target"), 0);
        assert!(is_allow(&guardian.intercept(&env)), "Oversight -> {:?} should be allowed", target_layer);
    }
}

#[test]
fn test_layer_violation_exec_to_exec_allowed() {
    let mut guardian = ArchitectureGuardian::new();
    let env = envelope("m", "c", Layer::Exec, Layer::Exec, Some("exec-2"), 0);
    assert!(is_allow(&guardian.intercept(&env)));
}

#[test]
fn test_layer_violation_validate_to_exec_allowed() {
    let mut guardian = ArchitectureGuardian::new();
    let env = envelope("m", "c", Layer::Validate, Layer::Exec, Some("exec-cell"), 0);
    assert!(is_allow(&guardian.intercept(&env)));
}

#[test]
fn test_layer_violation_exec_to_validate_rejected() {
    let mut guardian = ArchitectureGuardian::new();
    let env = envelope("m", "c", Layer::Exec, Layer::Validate, Some("val-cell"), 0);
    assert!(is_reject(&guardian.intercept(&env)));
}

#[test]
fn guardian_counts_each_violation_kind() {
    let mut g = ArchitectureGuardian::default();
    match g.intercept(&envelope("m", "c", Layer::Exec, Layer::Agent, None, 0)) {
        InterceptDecision::Reject { reason } => assert_eq!(reason, "illegal layer transition Exec→Agent"),
        other => panic!("{other:?}"),
    }
    match g.intercept(&make_env(9, "h")) {
        InterceptDecision::Reject { reason } => assert_eq!(reason, "hop count 9 exceeds limit 8"),
        other => panic!("{other:?}"),
    }
    let mut newer = make_env(0, "s");
    newer.schema_version = SchemaVersion::new(2);
    match g.intercept(&newer) {
        InterceptDecision::Reject { reason } => {
            assert_eq!(reason, "schema version too new: envelope 2 cannot be read by system 1")
        }
        other => panic!("{other:?}"),
    }
    assert!(is_allow(&g.intercept(&make_env(8, "ok"))));
    let s = g.stats();
    assert_eq!((s.layer_violations, s.hop_violations, s.schema_violations), (1, 1, 1));
}

// Loop detection.

#[test]
fn test_normal_chain_passes() {
    let mut d = LoopDetector::new(5, 100);
    assert!(d.check_and_record(&loop_env("a", "c1")).is_ok());
    assert!(d.check_and_record(&loop_env("b", "c1")).is_ok());
    assert!(d.check_and_record(&loop_env("c", "c1")).is_ok());
}

#[test]
fn test_loop_detected_on_revisit() {
    let mut d = LoopDetector::new(5, 100);
    assert!(d.check_and_record(&loop_env("a", "c1")).is_ok());
    assert!(d.check_and_record(&loop_env("b", "c1")).is_ok());
    assert!(d.check_and_record(&loop_env("a", "c1")).is_err());
}

#[test]
fn test_long_chain_rejected() {
    let mut d = LoopDetector::new(2, 100);
    assert!(d.check_and_record(&loop_env("a", "c1")).is_ok());
    assert!(d.check_and_record(&loop_env("b", "c1")).is_ok());
    assert!(d.check_and_record(&loop_env("c", "c1")).is_err());
}

#[test]
fn test_lru_eviction() {
    let mut d = LoopDetector::new(5, 3);
    d.check_and_record(&loop_env("a", "c1")).unwrap();
    d.check_and_record(&loop_env("a", "c2")).unwrap();
    d.check_and_record(&loop_env("a", "c3")).unwrap();
    assert_eq!(d.tracked_count(), 3);
    d.check_and_record(&loop_env("a", "c4")).unwrap();
    assert_eq!(d.tracked_count(), 3);
}

#[test]
fn loop_messages_are_exact() {
    let mut d = LoopDetector::new(5, 100);
    d.check_and_record(&loop_env("a", "c1")).unwrap();
    d.check_and_record(&loop_env("b", "c1")).unwrap();
    assert_eq!(
        d.check_and_record(&loop_env("a", "c1")).unwrap_err(),
        "message loop detected for correlation c1: revisiting cell a after visiting 2 cells"
    );
    let mut short = LoopDetector::new(1, 100);
    short.check_and_record(&loop_env("a", "c9")).unwrap();
    assert_eq!(
        short.check_and_record(&loop_env("b", "c9")).unwrap_err(),
        "message chain too long for correlation c9: visited 1 cells (max 1)"
    );
}

#[test]
fn loop_detector_uses_layer_without_target_cell() {
    let mut d = LoopDetector::new(5, 100);
    let e = envelope("m", "c1", Layer::Exec, Layer::Exec, None, 0);
    let e2 = envelope("m2", "c1", Layer::Exec, Layer::Agent, None, 0);
    d.check_and_record(&e).unwrap();
    d.check_and_record(&e2).unwrap();
    let err = d.check_and_record(&e).unwrap_err();
    assert!(err.contains("revisiting cell layer:Exec"), "{err}");
}

#[test]
fn revisit_with_one_cell_is_allowed() {
    let mut d = LoopDetector::new(5, 100);
    d.check_and_record(&loop_env("a", "c1")).unwrap();
    assert!(d.check_and_record(&loop_env("a", "c1")).is_ok());
}

#[test]
fn lru_map_evicts_oldest_first() {
    let mut m = LruCorrelationMap::new(2);
    m.get_or_default("x");
    m.get_or_default("y");
    m.get_or_default("x");
    m.get_or_default("z");
    assert_eq!(m.len(), 2);
    let mut d = LoopDetector::new(5, 1);
    d.check_and_record(&loop_env("a", "c1")).unwrap();
    d.check_and_record(&loop_env("b", "c1")).unwrap();
    d.check_and_record(&loop_env("a", "c2")).unwrap();
    // c1 was forgotten, so revisiting "a" under c1 starts afresh.
    assert!(d.check_and_record(&loop_env("a", "c1")).is_ok());
    assert_eq!(d.tracked_count(), 1);
}

#[test]
fn loop_detect_interceptor_rejects_revisit() {
    let mut i = LoopDetectInterceptor::default();
    assert!(is_allow(&i.intercept(&loop_env("a", "k"))));
    assert!(is_allow(&i.intercept(&loop_env("b", "k"))));
    assert!(is_reject(&i.intercept(&loop_env("a", "k"))));
}

// Dead letters.

#[test]
fn test_dlq_enqueue_and_drain() {
    let mut dlq = DeadLetterQueue::new(10);
    dlq.enqueue(make_env(0, "dlq-test"), "mailbox full").unwrap();
    dlq.enqueue(make_env(0, "dlq-test"), "target not found").unwrap();
    assert_eq!(dlq.len(), 2);
    let drained = dlq.drain();
    assert_eq!(drained.len(), 2);
    assert_eq!(drained[0].reason, "mailbox full");
    assert!(dlq.is_empty());
}

#[test]
fn test_dlq_capacity_returns_error_when_full() {
    let mut dlq = DeadLetterQueue::new(3);
    for i in 0..3 {
        let env = make_env(0, &format!("m{}", i));
        dlq.enqueue(env, &format!("reason{}", i)).unwrap();
    }
    assert_eq!(dlq.len(), 3);
    let env = make_env(0, "m-full");
    let result = dlq.enqueue(env, "overflow");
    assert!(result.is_err());
    assert_eq!(dlq.len(), 3);
}

#[test]
fn test_dlq_basic_enqueue_and_drain() {
    let mut dlq = DeadLetterQueue::new(100);
    let env = envelope("m", "c", Layer::Exec, Layer::Exec, Some("dst"), 0);
    let _ = dlq.enqueue(env, "test failure reason");
    assert_eq!(dlq.len(), 1);
    let drained = dlq.drain();
    assert_eq!(drained.len(), 1);
    assert_eq!(dlq.len(), 0);
}

#[test]
fn dlq_full_error_is_resource_exhausted() {
    let mut dlq = DeadLetterQueue::new(0);
    match dlq.enqueue_at(make_env(0, "x"), "r", 5) {
        Err(KernelError::ResourceExhausted { resource, cell_id }) => {
            assert_eq!(resource, "dlq capacity 0 exceeded");
            assert_eq!(cell_id, "dlq");
        }
        other => panic!("{other:?}"),
    }
    let mut dlq = DeadLetterQueue::default();
    dlq.enqueue_at(make_env(0, "y"), "why", 42).unwrap();
    let all = dlq.peek_all();
    assert_eq!(all[0].timestamp_ns, 42);
    assert_eq!(all[0].envelope.msg_id, "y");
    assert_eq!(dlq.len(), 1);
}

fn letter(id: &str) -> DeadLetter {
    DeadLetter { envelope: make_env(0, id), reason: "test".into(), timestamp_ns: 1 }
}

#[test]
fn memory_store_peek_ack_retry() {
    let mut store = MemoryDeadLetterStore::new();
    store.enqueue(letter("m1")).unwrap();
    store.enqueue(letter("m2")).unwrap();
    store.enqueue(letter("m2")).unwrap();
    assert_eq!(store.peek(10).len(), 3);
    assert_eq!(store.peek(1).len(), 1);
    assert!(store.ack("m1"));
    assert!(!store.ack("m1"));
    let env = store.retry("m2").unwrap();
    assert_eq!(env.msg_id, "m2");
    assert_eq!(store.len(), 1);
    assert!(store.retry("nope").is_none());
}

// Mailboxes and the bus.

#[test]
fn mailbox_push_pop_fifo() {
    let mut mb = Mailbox::new(2);
    mb.push(make_env(0, "m1")).unwrap();
    mb.push(make_env(0, "m2")).unwrap();
    let back = mb.push(make_env(0, "m3")).unwrap_err();
    assert_eq!(back.msg_id, "m3");
    assert_eq!(mb.len(), 2);
    assert_eq!(mb.pop().unwrap().msg_id, "m1");
    assert_eq!(mb.pop().unwrap().msg_id, "m2");
    assert!(mb.pop().is_none());
    assert!(mb.is_empty());
    assert_eq!(mb.capacity(), 2);
}

#[test]
fn mailbox_drain_takes_all() {
    let mut mb = Mailbox::default();
    assert_eq!(mb.capacity(), 1024);
    mb.push(make_env(0, "a")).unwrap();
    mb.push(make_env(0, "b")).unwrap();
    let all = mb.drain();
    assert_eq!(all.iter().map(|e| e.msg_id.clone()).collect::<Vec<_>>(), vec!["a", "b"]);
    assert!(mb.is_empty());
}

#[test]
fn routing_resolves_target_or_layer() {
    let mut t = RoutingTable::new();
    t.register_cell("a", Layer::Exec);
    t.register_cell("b", Layer::Agent);
    t.register_cell("c", Layer::Exec);
    assert_eq!(t.resolve(&envelope("m", "c", Layer::Exec, Layer::Exec, Some("b"), 0)), vec!["b"]);
    assert!(t.resolve(&envelope("m", "c", Layer::Exec, Layer::Exec, Some("zz"), 0)).is_empty());
    assert_eq!(t.resolve(&envelope("m", "c", Layer::Exec, Layer::Exec, None, 0)), vec!["a", "c"]);
}

struct RejectExecToAgent;

impl BusInterceptor for RejectExecToAgent {
    fn name(&self) -> &'static str {
        "reject-exec-agent"
    }

    fn intercept(&mut self, env: &SignalEnvelope) -> InterceptDecision {
        if env.source_layer == Layer::Exec && env.target_layer == Layer::Agent {
            InterceptDecision::Reject { reason: "exec cannot talk to agent".into() }
        } else {
            InterceptDecision::Allow
        }
    }
}

struct RedirectTo(&'static str);

impl BusInterceptor for RedirectTo {
    fn name(&self) -> &'static str {
        "redirect"
    }

    fn intercept(&mut self, _env: &SignalEnvelope) -> InterceptDecision {
        InterceptDecision::Redirect { target_cell: self.0.to_string() }
    }
}

#[test]
fn bus_delivers_to_registered_cell() {
    let mut bus = MessageBus::new();
    bus.register_cell("cell-a", Mailbox::new(16), Layer::Exec);
    let env = envelope("m", "c", Layer::Exec, Layer::Exec, Some("cell-a"), 0);
    assert_eq!(bus.publish(env).unwrap(), 1);
    assert_eq!(bus.pop("cell-a").unwrap().msg_id, "m");
    assert_eq!(bus.delivered_count(), 1);
    assert_eq!(bus.cell_count(), 1);
}

#[test]
fn bus_rejects_layer_violation_and_hop_limit() {
    let mut bus = MessageBus::default();
    let err = bus.publish(envelope("m", "c", Layer::Exec, Layer::Agent, None, 0)).unwrap_err();
    assert!(matches!(err, KernelError::LayerViolation { .. }));
    let err = bus.publish(envelope("m", "c", Layer::Exec, Layer::Exec, None, 9)).unwrap_err();
    assert!(matches!(err, KernelError::HandoffLimitExceeded { hops: 9, .. }));
    assert_eq!(bus.rejected_count(), 0);
}

#[test]
fn bus_interceptor_rejection_is_counted() {
    let mut bus = MessageBus::new();
    bus.register_interceptor(Box::new(GuardInterceptor));
    bus.register_interceptor(Box::new(RejectExecToAgent));
    bus.register_cell("cell-a", Mailbox::new(16), Layer::Exec);
    let env = envelope("m", "c", Layer::Exec, Layer::Exec, Some("cell-a"), 0);
    assert!(bus.publish(env).is_ok());
    assert_eq!(bus.rejected_count(), 0);
    let mut bad = envelope("m2", "c", Layer::Exec, Layer::Exec, Some("cell-a"), 0);
    bad.signal_type = "ForbiddenSignal".into();
    match bus.publish(bad).unwrap_err() {
        KernelError::SignalValidationFailed(reason) => assert!(reason.contains("guard blocked signal")),
        other => panic!("{other:?}"),
    }
    assert_eq!(bus.rejected_count(), 1);
}

#[test]
fn bus_redirect_and_full_mailbox() {
    let mut bus = MessageBus::new();
    bus.register_cell("small", Mailbox::new(1), Layer::Exec);
    bus.register_interceptor(Box::new(RedirectTo("small")));
    let env = envelope("m1", "c", Layer::Exec, Layer::Exec, None, 0);
    assert_eq!(bus.publish(env).unwrap(), 1);
    let env = envelope("m2", "c", Layer::Exec, Layer::Exec, None, 0);
    assert_eq!(bus.publish(env).unwrap(), 0);
    assert_eq!(bus.pop("small").unwrap().msg_id, "m1");
    assert!(bus.pop("small").is_none());
    assert!(bus.pop("unknown").is_none());
}

// Governance interceptors.

#[test]
fn emergency_allows_when_disabled() {
    let mut interceptor = EmergencyInterceptor::new(false);
    let env = envelope("test", "corr", Layer::Exec, Layer::Exec, Some("target-cell"), 0);
    assert!(is_allow(&interceptor.intercept(&env)));
}

#[test]
fn emergency_rejects_when_enabled() {
    let mut interceptor = EmergencyInterceptor::new(true);
    let env = envelope("test", "corr", Layer::Exec, Layer::Exec, Some("target-cell"), 0);
    assert!(is_reject(&interceptor.intercept(&env)));
}

#[test]
fn emergency_allows_oversight() {
    let mut interceptor = EmergencyInterceptor::new(true);
    let env = envelope("test", "corr", Layer::Oversight, Layer::Exec, Some("target-cell"), 0);
    assert!(is_allow(&interceptor.intercept(&env)));
}

#[test]
fn emergency_toggle() {
    let mut interceptor = EmergencyInterceptor::new(false);
    assert!(!interceptor.is_enabled());
    assert!(interceptor.toggle());
    assert!(interceptor.is_enabled());
    assert!(!interceptor.toggle());
    assert!(!interceptor.is_enabled());
    interceptor.set_enabled(true);
    assert!(interceptor.is_enabled());
}

#[test]
fn throttle_counts_refuse_every_threshold_th() {
    let mut t = ThrottleCounters::new();
    assert!(!t.count_and_check("cell", 2));
    assert!(t.count_and_check("cell", 2));
    assert!(!t.count_and_check("cell", 2));
    let mut allowed = 0;
    while allowed < 99 && !t.count_and_check("other", 100) {
        allowed += 1;
    }
    assert_eq!(allowed, 99);
    assert!(t.count_and_check("other", 100));
    t.clear_all();
    assert!(t.count_and_check("x", 1));
}

// Validators.

#[test]
fn validator_checks_signals_and_direction() {
    let env = make_env(0, "v");
    let v = ConstraintValidator::new(ValidationContext::from_envelope(&env));
    assert_eq!(v.ctx.capability_dimensions.len(), 3);
    assert_eq!(v.ctx.signal_type.as_deref(), Some("Test"));
    assert!(is_allow(&v.validate_signal_allowed(&env, &[])));
    assert!(is_allow(&v.validate_signal_allowed(&env, &["Other", "Test"])));
    match v.validate_signal_allowed(&env, &["Other"]) {
        InterceptDecision::Reject { reason } => assert_eq!(reason, "signal 'Test' is not allowed"),
        other => panic!("{other:?}"),
    }
    let up = envelope("m", "c", Layer::Validate, Layer::Agent, None, 0);
    match v.validate_layer_direction(&up) {
        InterceptDecision::Reject { reason } => assert_eq!(reason, "layer violation: Validate -> Agent"),
        other => panic!("{other:?}"),
    }
    assert!(is_allow(&v.validate_layer_direction(&env)));
}

// Commands, heartbeat and dispatch decisions.

#[test]
fn command_ids_count_up() {
    assert_eq!(format_command_msg_id(17, 3), "cmd-17-3");
    let mut ids = CommandIds::new();
    assert_eq!(ids.next_msg_id_at(5), "cmd-5-0");
    assert_eq!(ids.next_msg_id_at(5), "cmd-5-1");
    assert!(ids.next_msg_id().starts_with("cmd-"));
    assert!(ids.next_msg_id().ends_with("-3"));
}

#[test]
fn command_envelope_comes_from_oversight() {
    let env = command_envelope("cmd-1-0".to_string(), "Start", JsonValue::Null, Some("cell"), Layer::Agent, 9);
    assert_eq!(env.correlation_id, "corr-cmd-1-0");
    assert_eq!(env.source_layer, Layer::Oversight);
    assert_eq!(env.target_cell.as_deref(), Some("cell"));
    assert_eq!(env.schema_version, SchemaVersion::new(1));
    assert_eq!(env.kind, SignalKind::Command);
    assert!(env.validate_layer_transition().is_ok());
}

#[test]
fn heartbeat_goes_stale() {
    let mut h = Heartbeat::new();
    assert!(!h.evaluate_at(1_000_000, 10));
    h.touch_at(100);
    assert!(!h.evaluate_at(110, 10));
    assert!(h.evaluate_at(111, 10));
    assert!(h.degraded);
    h.touch_at(200);
    assert!(!h.degraded);
    assert!(!h.evaluate_at(50, 10));
}

#[test]
fn supervision_actions_for_each_decision() {
    let plan = supervision_actions("c1", SupervisionDecision::Restart { backoff_ms: 250 }, true);
    assert_eq!(plan.len(), 4);
    match &plan[1] {
        DispatchAction::EmitSuccess { message } => assert_eq!(message, "cell_restart: c1 (backoff_ms=250)"),
        other => panic!("{other:?}"),
    }
    assert!(matches!(plan[2], DispatchAction::WaitMs { ms: 250 }));
    assert!(matches!(plan[3], DispatchAction::RestartCell));
    assert_eq!(supervision_actions("c1", SupervisionDecision::Restart { backoff_ms: 0 }, true).len(), 3);
    assert_eq!(supervision_actions("c1", SupervisionDecision::Restart { backoff_ms: 9 }, false).len(), 2);
    let stop = supervision_actions("c1", SupervisionDecision::Stop, true);
    match &stop[0] {
        DispatchAction::EmitFailure { message, details } => {
            assert_eq!(message, "cell_stopped: c1");
            assert_eq!(details, "supervisor stopped cell");
        }
        other => panic!("{other:?}"),
    }
    let brk = supervision_actions("c1", SupervisionDecision::CircuitBreak { until_ms: 1 }, true);
    assert!(matches!(
        brk[0],
        DispatchAction::RecordEntropy { event: EntropyEventKind::CircuitBreak, .. }
    ));
    assert_eq!(circuit_hold_actions("k").len(), 2);
}

#[test]
fn snapshot_counting_and_sequence_numbers() {
    assert_eq!(snapshot_step_exec(0), (1, false));
    assert_eq!(snapshot_step_exec(98), (99, false));
    assert_eq!(snapshot_step_exec(99), (0, true));
    assert_eq!(hash_sequence_number_exec(&[1, 2]), 258);
    let mut bytes = [0u8; 32];
    bytes[31] = 7;
    bytes[0] = 9;
    assert_eq!(hash_sequence_number_exec(&bytes), 7);
}

// Server and telemetry stand-ins.

#[test]
fn default_health_response_is_ok() {
    let response = HealthResponse::default();
    assert_eq!(response.status, "ok");
    assert_eq!(response.cells_running, 0);
    assert!(!response.preflight_passed);
}

#[test]
fn noop_registry_and_tracer_do_nothing() {
    let r = NoopRegistry;
    assert_eq!(r.encode(), "");
    assert!(r.describe().is_empty());
    let span = NoopTracer.start("work");
    span.set_attribute("k", "v");
    span.end();
}

// Start-up rules.

use cellguard::runtime::startup::{
    external_signal_check, preflight_failure_message, preflight_issues, restart_total, topology_edges,
    witness_dlq_envelope,
};
use cellguard::runtime::supervisor::{SupervisionStrategy, Supervisor};

#[test]
fn preflight_flags_non_zero_major_versions() {
    let cells = vec![("a".to_string(), 0u64), ("b".to_string(), 2), ("c".to_string(), 1)];
    let issues = preflight_issues(&cells);
    assert_eq!(
        issues,
        vec![
            "cell b has non-zero major version 2: not 0.x pre-release".to_string(),
            "cell c has non-zero major version 1: not 0.x pre-release".to_string(),
        ]
    );
    assert_eq!(
        preflight_failure_message(&issues),
        "preflight failed: cell b has non-zero major version 2: not 0.x pre-release; cell c has non-zero major version 1: not 0.x pre-release"
    );
    assert!(preflight_issues(&vec![("ok".to_string(), 0)]).is_empty());
    assert_eq!(preflight_failure_message(&vec![]), "preflight failed: ");
}

#[test]
fn external_signals_keep_layer_rule() {
    assert!(external_signal_check(Layer::Agent, Layer::Exec, "Go").is_ok());
    match external_signal_check(Layer::Exec, Layer::Oversight, "Up") {
        Err(KernelError::LayerViolation { from, to, source_cell, signal_type }) => {
            assert_eq!((from, to), (Layer::Exec, Layer::Oversight));
            assert_eq!(source_cell, "external");
            assert_eq!(signal_type, "Up");
        }
        other => panic!("{other:?}"),
    }
}

#[test]
fn topology_edges_follow_layer_rule() {
    let cells = vec![
        ("o".to_string(), Layer::Oversight),
        ("a".to_string(), Layer::Agent),
        ("e".to_string(), Layer::Exec),
    ];
    let edges = topology_edges(&cells);
    let expected: Vec<(String, String)> = vec![("o", "a"), ("o", "e"), ("a", "e")]
        .into_iter()
        .map(|(x, y)| (x.to_string(), y.to_string()))
        .collect();
    assert_eq!(edges, expected);
}

#[test]
fn witness_dead_letter_envelope() {
    let env = witness_dlq_envelope("w1", "cell-a", "corr", None, 77, Some("m0".to_string()), Layer::Exec, "bad json");
    assert_eq!(env.msg_id, "witness-dlq");
    assert_eq!(env.signal_type, "WitnessSerializationFailed");
    assert_eq!(env.target_layer, Layer::Oversight);
    assert_eq!(env.target_cell.as_deref(), Some("oversight:witness-dlq"));
    assert_eq!(env.parent_msg_id.as_deref(), Some("m0"));
    match &env.payload {
        JsonValue::Object(members) => {
            assert_eq!(members.len(), 3);
            assert_eq!(members[2].0, "reason");
        }
        other => panic!("{other:?}"),
    }
}

#[test]
fn restart_total_sums_known_cells() {
    let mut sup = Supervisor::new();
    sup.register_cell("a", SupervisionStrategy::Restart { max_retries: 5 });
    sup.register_cell("b", SupervisionStrategy::Restart { max_retries: 5 });
    let _ = sup.record_panic_at("a", 1);
    let _ = sup.record_panic_at("a", 2);
    let _ = sup.record_panic_at("b", 3);
    let cells = vec!["a".to_string(), "b".to_string(), "ghost".to_string()];
    assert_eq!(restart_total(&sup, &cells), 3);
}

#[test]
fn layer_rule_matrix() {
    let layers = [Layer::Oversight, Layer::Agent, Layer::Validate, Layer::Exec];
    for (i, from) in layers.iter().enumerate() {
        for (j, to) in layers.iter().enumerate() {
            let expected = i == 0 || i <= j;
            assert_eq!(from.can_send_to(*to), expected, "{:?} -> {:?}", from, to);
        }
    }
    assert_eq!(Layer::Validate.debug_name(), "Validate");
    assert!(SchemaVersion::new(1).can_read(SchemaVersion::new(1)));
    assert!(!SchemaVersion::new(1).can_read(SchemaVersion::new(2)));
}

#[test]
fn data_source_error_texts() {
    assert_eq!(DataSourceError::NotInitialized.message(), "data source not initialized");
    assert_eq!(DataSourceError::SignalSubscribeFailed.message(), "failed to subscribe to signals");
    let ev = SignalEventData { ts_ns: 1, cell_id: "c".into(), signal_type: "T".into(), status: "ok".into() };
    assert_eq!(ev.clone().cell_id, "c");
}

#[test]
fn envelope_clone_is_equal_field_by_field() {
    let mut e = envelope("m", "c", Layer::Agent, Layer::Exec, Some("t"), 3);
    e.payload = JsonValue::Array(vec![JsonValue::Bool(true), JsonValue::String("x".into())]);
    let c = e.clone();
    assert_eq!(c.msg_id, e.msg_id);
    assert_eq!(c.hop_count, 3);
    assert_eq!(format!("{:?}", c.payload), format!("{:?}", e.payload));
}

#[test]
fn guardian_counters_sum_to_rejections() {
    let mut g = ArchitectureGuardian::new();
    let envs = vec![
        envelope("a", "c", Layer::Exec, Layer::Agent, None, 0),
        make_env(3, "b"),
        make_env(12, "c"),
        envelope("d", "c", Layer::Exec, Layer::Agent, None, 20),
        make_env(8, "e"),
    ];
    let mut rejected = 0u64;
    for env in &envs {
        if is_reject(&g.intercept(env)) {
            rejected += 1;
        }
    }
    let s = g.stats();
    assert_eq!((s.layer_violations, s.hop_violations, s.schema_violations), (2, 1, 0));
    assert_eq!(s.layer_violations + s.hop_violations + s.schema_violations, rejected);
}

#[test]
fn lru_map_known_key_is_not_moved() {
    let mut m = LruCorrelationMap::new(2);
    assert_eq!(m.get_or_default("x"), 0);
    assert_eq!(m.get_or_default("y"), 1);
    assert_eq!(m.get_or_default("x"), 0);
    assert_eq!(m.get_or_default("z"), 1);
    assert_eq!(m.len(), 2);
    assert_eq!(m.get_or_default("y"), 0);
}

#[test]
fn test_dlq_capacity_limit_drops_oldest() {
    let mut dlq = DeadLetterQueue::new(3);
    for i in 0..5 {
        let env = envelope(&format!("src-{}", i), "c", Layer::Exec, Layer::Exec, Some("dst"), 0);
        let _ = dlq.enqueue(env, &format!("failure-{}", i));
    }
    assert_eq!(dlq.len(), 3);
    let drained = dlq.drain();
    assert_eq!(drained[0].reason, "failure-2");
    assert_eq!(drained[1].reason, "failure-3");
    assert_eq!(drained[2].reason, "failure-4");
}

#[test]
fn full_dlq_keeps_new_letter_and_reports_overflow() {
    let mut dlq = DeadLetterQueue::new(1);
    dlq.enqueue_at(make_env(0, "a"), "first", 1).unwrap();
    assert!(dlq.enqueue_at(make_env(0, "b"), "second", 2).is_err());
    let all = dlq.peek_all();
    assert_eq!(all.len(), 1);
    assert_eq!(all[0].reason, "second");
    assert_eq!(all[0].timestamp_ns, 2);
}
