use lokai_engine::broker::circuit::{CircuitBreakerRegistry, CircuitState};
use lokai_engine::broker::decision::{
    decode_reason, decode_target, encode_target_opt, CandidateEstimate, SchedulerDecision,
    SchedulerDecisionId, SchedulerReason,
};
use lokai_engine::broker::decision_store::{InMemorySchedulerStore, SchedulerDecisionStore};
use lokai_engine::broker::estimate::{estimate_finish_ms, CandidateInputs, UncertaintyModel};
use lokai_engine::broker::fallback::{
    classify_inference_error, classify_provider_message, continues_after_worker_loss,
    fallback_action, next_fallback,
    FallbackAction, FallbackFailureClass, InferenceError,
};
use lokai_engine::broker::metrics::{AdmissionMetrics, SchedulerMetrics};
use lokai_engine::broker::priority::{ComputePriority, FairnessPolicy};
use lokai_engine::broker::queue::{QueueLimits, QueueManager, QueueRequest};
use lokai_engine::broker::reservation::{
    decode_state, encode_state, InMemoryReservationStore, ReservationState, ReservationStore,
    ReservationTarget, ResourceReservation,
};
use lokai_engine::broker::speculate::{
    should_speculate_for_tail, speculation_allowed, speculative_race_sessions, SpeculationDenyReason,
    SpeculationProfile,
};
use lokai_engine::broker::target::{
    labels_to_targets, parse_target_label, target_type_label, ExecutionTargetId,
};

fn worker(id: &str) -> ExecutionTargetId {
    ExecutionTargetId::Worker {
        worker_id: id.to_string(),
    }
}

fn label_of(t: &Option<ExecutionTargetId>) -> Option<String> {
    t.as_ref().map(|x| x.as_label())
}

#[test]
fn fallback_matrix_and_next() {
    assert_eq!(
        fallback_action(FallbackFailureClass::RemoteRejectBeforeStart),
        FallbackAction::NextEligibleOrLocal
    );
    assert_eq!(
        fallback_action(FallbackFailureClass::PermanentPolicy),
        FallbackAction::FailExplicit
    );
    let order = vec![worker("a"), ExecutionTargetId::Local];
    let next = next_fallback(&order, &worker("a"));
    assert_eq!(label_of(&next), Some("local".to_string()));
}

#[test]
fn secret_scan_failure_never_falls_back_to_another_target() {
    assert_eq!(
        fallback_action(classify_inference_error(&InferenceError::SecretScanFailed {
            reason: "scanner down".into(),
        })),
        FallbackAction::FailExplicit
    );
    assert_eq!(
        fallback_action(classify_inference_error(&InferenceError::RemoteSecretDenied {
            reason: "pem-private-key".into(),
        })),
        FallbackAction::FailExplicit
    );
}

#[test]
fn remote_reject_and_transport_failure_map_to_next_eligible() {
    assert_eq!(
        fallback_action(FallbackFailureClass::RemoteRejectBeforeStart),
        FallbackAction::NextEligibleOrLocal
    );
    assert_eq!(
        fallback_action(FallbackFailureClass::TransientTransport),
        FallbackAction::RetryThenNextThenLocal { max_same_worker: 1 }
    );
    let err = InferenceError::Provider("connection reset".into());
    let class = classify_inference_error(&err);
    assert!(matches!(
        class,
        FallbackFailureClass::WorkerLoss
            | FallbackFailureClass::TransientTransport
            | FallbackFailureClass::RemoteRejectBeforeStart
    ));
    let transport = InferenceError::Provider("transport timeout".into());
    assert_eq!(
        classify_inference_error(&transport),
        FallbackFailureClass::TransientTransport
    );
}

#[test]
fn worker_loss_and_hop_skip_keep_failover_open() {
    assert_eq!(
        fallback_action(FallbackFailureClass::WorkerLoss),
        FallbackAction::NewAttemptAfterLeaseExpire
    );
    assert_ne!(
        fallback_action(FallbackFailureClass::WorkerLoss),
        FallbackAction::FailExplicit
    );
    let lost = InferenceError::Preempted {
        node_id: "w1".into(),
    };
    assert_eq!(
        classify_inference_error(&lost),
        FallbackFailureClass::WorkerLoss
    );
    let hop_skip =
        InferenceError::Provider("failover hop ineligible: worker_quarantined".into());
    assert_eq!(
        classify_inference_error(&hop_skip),
        FallbackFailureClass::CapabilityExpired
    );
    assert_eq!(
        fallback_action(FallbackFailureClass::CapabilityExpired),
        FallbackAction::NextEligibleOrLocal
    );
}

#[test]
fn next_fallback_past_the_end_and_unknown_target() {
    let order = vec![worker("a"), worker("b")];
    assert!(next_fallback(&order, &worker("b")).is_none());
    assert!(next_fallback(&order, &worker("zz")).is_none());
    assert_eq!(
        label_of(&next_fallback(&order, &worker("a"))),
        Some("b".to_string())
    );
}

#[test]
fn provider_messages_classify_by_keyword() {
    assert_eq!(
        classify_provider_message("Worker REJECTED before start"),
        FallbackFailureClass::RemoteRejectBeforeStart
    );
    assert_eq!(
        classify_inference_error(&InferenceError::Provider("placement denied".into())),
        FallbackFailureClass::PermanentPolicy
    );
    assert_eq!(
        classify_provider_message("worker lost mid-stream"),
        FallbackFailureClass::WorkerLoss
    );
    assert_eq!(
        classify_inference_error(&InferenceError::GpuSpillDetected),
        FallbackFailureClass::LocalExhaustion
    );
    assert_eq!(
        classify_inference_error(&InferenceError::WorkerBusy),
        FallbackFailureClass::RemoteRejectBeforeStart
    );
}

fn reserved(id: &str) -> ResourceReservation {
    ResourceReservation {
        reservation_id: id.to_string(),
        run_id: "r".into(),
        task_id: "t".into(),
        attempt_id: "a".into(),
        target_scope: ReservationTarget::Local,
        issued_at_ms: 1_000,
        expires_at_ms: 61_000,
        reservation_epoch: 1,
        state: ReservationState::Reserved,
        speculative: false,
    }
}

#[test]
fn in_memory_reservation_is_intentional_loss() {
    let mut persist = InMemoryReservationStore::default();
    persist.upsert(&reserved("res_ephemeral")).unwrap();
    assert_eq!(persist.list_active().unwrap().len(), 1);
    drop(persist);
    let restarted = InMemoryReservationStore::default();
    assert!(restarted.list_active().unwrap().is_empty());
    assert!(restarted.get("res_ephemeral").unwrap().is_none());
}

#[test]
fn reservation_read_after_write_and_release() {
    let mut store = InMemoryReservationStore::default();
    store.upsert(&reserved("r1")).unwrap();
    store.upsert(&reserved("r2")).unwrap();
    let mut again = reserved("r1");
    again.reservation_epoch = 7;
    store.upsert(&again).unwrap();
    assert_eq!(store.get("r1").unwrap().unwrap().reservation_epoch, 7);
    assert_eq!(store.list_active().unwrap().len(), 2);
    store.mark_released("r1", ReservationState::Released).unwrap();
    assert_eq!(
        store.get("r1").unwrap().unwrap().state,
        ReservationState::Released
    );
    assert_eq!(
        store.get("r2").unwrap().unwrap().state,
        ReservationState::Reserved
    );
    let active = store.list_active().unwrap();
    assert_eq!(active.len(), 1);
    assert_eq!(active[0].reservation_id, "r2");
    store.mark_released("missing", ReservationState::Expired).unwrap();
    assert!(store.get("missing").unwrap().is_none());
}

#[test]
fn reservation_state_text_round_trips() {
    for st in [
        ReservationState::Proposed,
        ReservationState::Reserved,
        ReservationState::Dispatched,
        ReservationState::Running,
        ReservationState::Released,
        ReservationState::Expired,
        ReservationState::Canceled,
        ReservationState::OverBudget,
    ] {
        assert_eq!(decode_state(encode_state(st)), st);
    }
    assert_eq!(encode_state(ReservationState::OverBudget), "over_budget");
}

fn decision(id: &str, pending: bool) -> SchedulerDecision {
    SchedulerDecision {
        decision_id: SchedulerDecisionId(id.to_string()),
        run_id: "r".into(),
        task_id: "t".into(),
        attempt_id: "a".into(),
        candidates: vec![],
        selected_target: Some(ExecutionTargetId::Local),
        fallback_order: vec![ExecutionTargetId::Local],
        uncertainty_margin_ms: 0,
        reason: SchedulerReason::LocalFaster,
        model_version: "v1".into(),
        decided_at_ms: 0,
        pending,
    }
}

#[test]
fn decision_store_reads_back_what_was_written() {
    let mut store = InMemorySchedulerStore::new();
    store.upsert(&decision("d1", true)).unwrap();
    store.upsert(&decision("d2", false)).unwrap();
    let loaded = store.get("d1").unwrap().unwrap();
    assert_eq!(loaded.decision_id.0, "d1");
    assert!(store.get("nope").unwrap().is_none());
    assert_eq!(store.list_pending().unwrap().len(), 1);
    store.upsert(&decision("d1", false)).unwrap();
    assert!(store.list_pending().unwrap().is_empty());
    assert!(!store.get("d1").unwrap().unwrap().pending);
}

#[test]
fn target_labels_round_trip() {
    let w = worker("w7");
    assert_eq!(w.as_label(), "w7");
    assert_eq!(parse_target_label("w7").as_label(), "w7");
    assert!(matches!(parse_target_label("LOCAL"), ExecutionTargetId::Local));
    assert_eq!(parse_target_label("local").as_label(), "local");
    let ts = labels_to_targets(&["local".to_string(), "x".to_string()]);
    assert_eq!(ts.len(), 2);
    assert_eq!(ts[1].as_label(), "x");
    assert_eq!(target_type_label(None), "local");
    assert_eq!(target_type_label(Some(&ExecutionTargetId::Local)), "local");
    assert_eq!(target_type_label(Some(&w)), "remote");
}

#[test]
fn decision_text_codecs_round_trip() {
    let enc = encode_target_opt(Some(&worker("w2")));
    assert_eq!(
        decode_target(&enc).map(|t| t.as_label()),
        Some("w2".to_string())
    );
    assert_eq!(enc, "worker:w2");
    assert!(decode_target(&encode_target_opt(None)).is_none());
    for r in [SchedulerReason::LocalFaster, SchedulerReason::CircuitOpen] {
        assert_eq!(decode_reason(r.as_str()), r);
    }
}

fn cand(target: ExecutionTargetId, finish: u64, margin: u64) -> CandidateEstimate {
    CandidateEstimate {
        target,
        estimated_finish_ms: finish,
        uncertainty_margin_ms: margin,
        scored_ms: finish,
        cold_start: false,
        queue_depth: 0,
    }
}

#[test]
fn tail_speculation_on_uncertain_or_thin_remote() {
    let mut d = decision("d", false);
    d.selected_target = Some(worker("w_fast"));
    d.candidates = vec![
        cand(ExecutionTargetId::Local, 2_060, 25),
        cand(worker("w_fast"), 550, 300),
    ];
    assert!(should_speculate_for_tail(&d));
    d.candidates = vec![
        cand(ExecutionTargetId::Local, 10_000, 25),
        cand(worker("w_fast"), 1_000, 10),
    ];
    d.uncertainty_margin_ms = 0;
    assert!(!should_speculate_for_tail(&d));
    d.uncertainty_margin_ms = 200;
    assert!(should_speculate_for_tail(&d));
    d.selected_target = Some(ExecutionTargetId::Local);
    assert!(!should_speculate_for_tail(&d));
}

#[test]
fn race_sessions_name_both_legs() {
    let (p, s) = speculative_race_sessions("sess");
    assert_eq!(p, "sess:primary");
    assert_eq!(s, "sess:spec");
}

#[test]
fn circuit_breaker_opens_and_half_opens() {
    let mut reg = CircuitBreakerRegistry::new(2, 20, 1);
    assert!(reg.allows_dispatch_at("w1", 0));
    reg.record_failure_at("w1", 0);
    assert!(reg.allows_dispatch_at("w1", 1));
    reg.record_failure_at("w1", 1);
    assert!(!reg.allows_dispatch_at("w1", 2));
    assert_eq!(reg.state_at("w1", 2), CircuitState::Open);
    assert_eq!(reg.state_at("w1", 26), CircuitState::HalfOpen);
    reg.record_success("w1");
    assert_eq!(reg.state_at("w1", 27), CircuitState::Closed);
}

#[test]
fn half_open_failure_reopens_and_other_workers_are_untouched() {
    let mut reg = CircuitBreakerRegistry::new(3, 100, 2);
    for t in 0..3 {
        reg.record_failure_at("w1", t);
    }
    assert_eq!(reg.state_at("w1", 50), CircuitState::Open);
    assert_eq!(reg.state_at("w2", 50), CircuitState::Closed);
    assert_eq!(reg.state_at("w1", 102), CircuitState::HalfOpen);
    reg.record_success("w1");
    assert_eq!(reg.state_at("w1", 103), CircuitState::HalfOpen);
    reg.record_failure_at("w1", 104);
    assert_eq!(reg.state_at("w1", 150), CircuitState::Open);
    assert_eq!(reg.state_at("w1", 204), CircuitState::HalfOpen);
    reg.record_success("w1");
    reg.record_success("w1");
    assert_eq!(reg.state_at("w1", 205), CircuitState::Closed);
}

#[test]
fn default_registry_uses_three_failures() {
    let mut reg = CircuitBreakerRegistry::default_registry();
    reg.record_failure("w");
    reg.record_failure("w");
    assert!(reg.allows_dispatch("w"));
    reg.record_failure("w");
    assert!(!reg.allows_dispatch("w"));
}

fn qreq(run: &str, attempt: &str, p: ComputePriority, deadline: i64) -> QueueRequest {
    QueueRequest {
        attempt_id: attempt.to_string(),
        run_id: run.to_string(),
        task_id: format!("t_{attempt}"),
        priority: p,
        queue_deadline_ms: deadline,
        target_worker_id: None,
    }
}

#[test]
fn interactive_not_starved_by_background() {
    let mut queue = QueueManager::new(
        QueueLimits {
            global_max: 8,
            ..QueueLimits::default()
        },
        FairnessPolicy {
            max_consecutive_background: 1,
            interactive_reserved_slots: 2,
            age_boost_after_ms: 1,
        },
    );
    let now = 1_000;
    for i in 0..3 {
        let r = qreq("big", &format!("ab{i}"), ComputePriority::Background, now + 300_000);
        queue.enqueue(&r, now).unwrap();
    }
    let interactive = qreq("small", "ai", ComputePriority::Interactive, now + 300_000);
    queue.enqueue(&interactive, now).unwrap();
    let first = queue.pop_next(now).expect("queue non-empty");
    assert_eq!(first.0, "ai");
    assert_eq!(first.3, ComputePriority::Interactive);
}

fn fair() -> FairnessPolicy {
    FairnessPolicy {
        max_consecutive_background: 4,
        interactive_reserved_slots: 0,
        age_boost_after_ms: 1,
    }
}

#[test]
fn queue_enqueue_is_idempotent_and_remove_dequeues() {
    let mut q = QueueManager::new(QueueLimits::default(), fair());
    let a = q.enqueue(&qreq("r", "a1", ComputePriority::Normal, 10_000), 5).unwrap();
    assert_eq!(a.position, 0);
    assert_eq!(a.queued_at_ms, 5);
    let b = q.enqueue(&qreq("r", "a2", ComputePriority::Interactive, 10_000), 6).unwrap();
    assert_eq!(b.position, 1);
    let again = q.enqueue(&qreq("r", "a1", ComputePriority::Normal, 10_000), 7).unwrap();
    assert_eq!(again.position, 1);
    assert_eq!(q.depth(), 2);
    assert!(q.contains(&"a1".to_string()));
    assert!(q.remove(&"a1".to_string()));
    assert!(!q.contains(&"a1".to_string()));
    assert!(!q.remove(&"a1".to_string()));
    assert_eq!(q.depth(), 1);
}

#[test]
fn queue_caps_refuse_and_expired_work_is_dropped() {
    let limits = QueueLimits {
        global_max: 10,
        per_run_max: 2,
        per_worker_max: 3,
    };
    let mut q = QueueManager::new(limits, fair());
    q.enqueue(&qreq("r", "a1", ComputePriority::Normal, 100), 0).unwrap();
    q.enqueue(&qreq("r", "a2", ComputePriority::Normal, 5_000), 1).unwrap();
    assert!(q.enqueue(&qreq("r", "a3", ComputePriority::Normal, 5_000), 2).is_err());
    assert!(!q.contains(&"a3".to_string()));
    q.enqueue(&qreq("s", "b1", ComputePriority::Normal, 5_000), 3).unwrap();
    assert!(q.enqueue(&qreq("t", "c1", ComputePriority::Normal, 5_000), 4).is_err());
    let first = q.pop_next(200).unwrap();
    assert_eq!(first.0, "a2");
    assert!(!q.contains(&"a1".to_string()));
    assert_eq!(q.depth(), 1);
    assert!(q.pop_next(10_000).is_none());
    assert_eq!(q.depth(), 0);
}

#[test]
fn full_queue_evicts_for_urgent_work_only() {
    let limits = QueueLimits {
        global_max: 2,
        per_run_max: 64,
        per_worker_max: 64,
    };
    let mut q = QueueManager::new(limits, fair());
    q.enqueue(&qreq("r", "n1", ComputePriority::Normal, 5_000), 0).unwrap();
    q.enqueue(&qreq("r", "b1", ComputePriority::Background, 5_000), 1).unwrap();
    assert!(q.enqueue(&qreq("r", "n2", ComputePriority::Normal, 5_000), 2).is_err());
    q.enqueue(&qreq("r", "i1", ComputePriority::Interactive, 5_000), 3).unwrap();
    assert!(!q.contains(&"b1".to_string()));
    assert!(q.contains(&"i1".to_string()));
    let first = q.pop_next(4).unwrap();
    assert_eq!(first.0, "i1");
}

#[test]
fn background_refused_inside_interactive_reserve() {
    let limits = QueueLimits {
        global_max: 3,
        per_run_max: 64,
        per_worker_max: 64,
    };
    let policy = FairnessPolicy {
        max_consecutive_background: 4,
        interactive_reserved_slots: 2,
        age_boost_after_ms: 1,
    };
    let mut q = QueueManager::new(limits, policy);
    q.enqueue(&qreq("r", "b1", ComputePriority::Background, 5_000), 0).unwrap();
    assert!(q.enqueue(&qreq("r", "b2", ComputePriority::Background, 5_000), 1).is_err());
    q.enqueue(&qreq("r", "n1", ComputePriority::Normal, 5_000), 2).unwrap();
}

#[test]
fn queue_serves_by_rank_then_arrival() {
    let mut q = QueueManager::new(QueueLimits::default(), fair());
    q.enqueue(&qreq("r", "n1", ComputePriority::Normal, 5_000), 1).unwrap();
    q.enqueue(&qreq("r", "n2", ComputePriority::Normal, 5_000), 2).unwrap();
    q.enqueue(
        &qreq("r", "v1", ComputePriority::VerificationCritical, 5_000),
        3,
    )
    .unwrap();
    assert_eq!(q.pop_next(10).unwrap().0, "v1");
    assert_eq!(q.pop_next(10).unwrap().0, "n1");
    assert_eq!(q.pop_next(10).unwrap().0, "n2");
    assert!(q.pop_next(10).is_none());
}

#[test]
fn metrics_count_and_average() {
    let mut m = SchedulerMetrics::default();
    m.record_prediction_error(10);
    m.record_prediction_error(21);
    assert_eq!(m.mean_abs_prediction_error_ms(), Some(15));
    let mut a = AdmissionMetrics::default();
    a.record_admitted();
    a.record_rejected();
    assert_eq!(a.admitted, 1);
    assert_eq!(a.rejected, 1);
}

#[test]
fn estimate_sums_phases_and_margin() {
    let input = CandidateInputs {
        target: ExecutionTargetId::Local,
        admission_delay_ms: 20,
        queue_delay_ms: 20,
        connection_setup_ms: 0,
        input_transfer_ms: 0,
        cold_start_ms: 0,
        execution_ms: 2_000,
        result_transfer_ms: 0,
        verification_ms: 20,
        queue_depth: 0,
        transfer_bytes: 0,
        cold_start: false,
        uncertainty: UncertaintyModel {
            samples: 20,
            rolling_mae_ms: 10,
            cold_floor_ms: 25,
            ..UncertaintyModel::default()
        },
    };
    let e = estimate_finish_ms(&input);
    assert_eq!(e.finish_ms, 2_060);
    assert_eq!(e.uncertainty_margin_ms, 25);
    assert_eq!(e.scored_ms, 2_085);
    let mut noisy = input.clone();
    noisy.uncertainty.rolling_mae_ms = 100;
    noisy.cold_start = true;
    noisy.uncertainty.cold_model_extra_ms = 500;
    let e2 = estimate_finish_ms(&noisy);
    assert_eq!(e2.uncertainty_margin_ms, 620);
}

#[test]
fn lost_worker_attempt_continues_only_with_a_later_target() {
    let order = vec!["w1".to_string(), "w2".to_string()];
    assert!(continues_after_worker_loss(false, true, &order, "w1"));
    assert!(!continues_after_worker_loss(false, true, &order, "w2"));
    assert!(!continues_after_worker_loss(false, true, &order, "w3"));
    assert!(!continues_after_worker_loss(true, true, &order, "w1"));
    assert!(!continues_after_worker_loss(false, false, &order, "w1"));
    assert!(!continues_after_worker_loss(false, true, &[], "w1"));
    let with_local = vec!["w1".to_string(), "LOCAL".to_string()];
    assert!(continues_after_worker_loss(false, true, &with_local, "w1"));
}

#[test]
fn speculation_refusals_come_in_order() {
    let ok = SpeculationProfile { shard_kind: false, supports_speculation: true, side_effect_free: true };
    assert_eq!(speculation_allowed(ok, true), Ok(()));
    assert_eq!(speculation_allowed(ok, false), Err(SpeculationDenyReason::ConfigDisabled));
    let shard = SpeculationProfile { shard_kind: true, ..ok };
    assert_eq!(speculation_allowed(shard, true), Err(SpeculationDenyReason::NonIdempotentKind));
    let unsupported = SpeculationProfile { supports_speculation: false, side_effect_free: false, ..ok };
    assert_eq!(speculation_allowed(unsupported, true), Err(SpeculationDenyReason::JobProfileDisallows));
    let effectful = SpeculationProfile { side_effect_free: false, ..ok };
    assert_eq!(speculation_allowed(effectful, true), Err(SpeculationDenyReason::SideEffectful));
    assert_eq!(SpeculationDenyReason::SideEffectful.as_str(), "side_effectful");
}

use lokai_engine::broker::dispatch::{
    is_local_worker_id, requested_target, revalidate_before_dispatch, target_worker_id,
    validate_request, RegistryAnswer, WorkerSchedulingState,
};
use lokai_engine::broker::types::{
    cancel_outcome, finish_outcome, CancellationReason, ComputeBrokerError, ComputeRequest,
    ComputeStatus, LocalOnlyReason, PlacementDecisionReference, PlacementVerdict,
};

fn compute_request(placement: PlacementVerdict, expires_at_ms: i64, target: Option<&str>) -> ComputeRequest {
    ComputeRequest {
        job_kind: "Infer".to_string(),
        process_class: false,
        secret: false,
        placement_decision: PlacementDecisionReference { decision: placement, issued_at_ms: 0, expires_at_ms },
        speculative: false,
        target_worker_id: target.map(|t| t.to_string()),
        fallback_order: vec![],
        scheduler_decision_id: None,
        trace_decision_id: None,
    }
}

const LOCAL_ONLY: PlacementVerdict = PlacementVerdict::LocalOnly { reason: LocalOnlyReason::CapabilityUnavailable };

fn dispatch_req(target: Option<&str>, process_class: bool) -> ComputeRequest {
    let mut r = compute_request(PlacementVerdict::Eligible { first_target: Some("w1".to_string()) }, 1_000, target);
    r.process_class = process_class;
    r
}

fn answer(state: WorkerSchedulingState, supports_kind: Option<bool>) -> Option<RegistryAnswer> {
    Some(RegistryAnswer { state, supports_kind })
}

#[test]
fn capability_expiry_blocks_dispatch() {
    let r = dispatch_req(Some("w1"), false);
    assert!(matches!(
        revalidate_before_dispatch(&r, answer(WorkerSchedulingState::Expired, Some(true)), 500),
        Err(ComputeBrokerError::CapabilityStale { ref worker_id, ref detail })
            if worker_id == "w1" && detail == "capability advertisement expired"
    ));
    assert!(revalidate_before_dispatch(&r, answer(WorkerSchedulingState::Eligible, Some(true)), 500).is_ok());
    assert!(matches!(
        revalidate_before_dispatch(&r, answer(WorkerSchedulingState::Eligible, Some(false)), 500),
        Err(ComputeBrokerError::WorkerTargetRefused { ref job_kind, ref worker_id })
            if job_kind == "Infer" && worker_id == "w1"
    ));
    assert!(matches!(
        revalidate_before_dispatch(&r, answer(WorkerSchedulingState::Eligible, None), 500),
        Err(ComputeBrokerError::CapabilityStale { ref detail, .. }) if detail == "worker capabilities not cached"
    ));
    assert!(matches!(
        revalidate_before_dispatch(&r, None, 500),
        Err(ComputeBrokerError::CapabilityStale { ref detail, .. })
            if detail == "no capability registry for remote dispatch"
    ));
    assert!(matches!(
        revalidate_before_dispatch(&r, answer(WorkerSchedulingState::Eligible, Some(true)), 1_000),
        Err(ComputeBrokerError::PlacementExpired)
    ));
}

#[test]
fn local_target_skips_registry_but_process_jobs_never_leave() {
    let local = dispatch_req(Some("LOCAL"), false);
    assert!(revalidate_before_dispatch(&local, None, 0).is_ok());
    assert_eq!(target_worker_id(&local), None);
    assert_eq!(requested_target(&local), Some("LOCAL".to_string()));
    let shard_local = dispatch_req(Some("local"), true);
    assert!(matches!(
        revalidate_before_dispatch(&shard_local, None, 0),
        Err(ComputeBrokerError::WorkerTargetRefused { ref worker_id, .. }) if worker_id == "local"
    ));
    let mut shard_unnamed = dispatch_req(None, true);
    shard_unnamed.placement_decision.decision = LOCAL_ONLY;
    assert!(revalidate_before_dispatch(&shard_unnamed, None, 0).is_ok());
    let from_placement = dispatch_req(None, false);
    assert_eq!(target_worker_id(&from_placement), Some("w1".to_string()));
    let mut denied = dispatch_req(None, false);
    denied.placement_decision.decision = PlacementVerdict::Denied;
    assert!(matches!(revalidate_before_dispatch(&denied, None, 0), Err(ComputeBrokerError::PlacementExpired)));
    assert!(is_local_worker_id("Local"));
    assert!(!is_local_worker_id("w1"));
}

#[test]
fn submission_checks_placement_then_speculation() {
    let mut r = dispatch_req(None, false);
    assert!(validate_request(&r, false, 10).is_ok());
    r.speculative = true;
    assert!(matches!(
        validate_request(&r, false, 10),
        Err(ComputeBrokerError::Other(ref s)) if s == "job kind does not support speculation"
    ));
    assert!(validate_request(&r, true, 10).is_ok());
    assert!(matches!(validate_request(&r, true, 1_000), Err(ComputeBrokerError::PlacementExpired)));
}

fn base_dispatch(placement: PlacementVerdict) -> ComputeRequest {
    compute_request(placement, 300_000, Some("w1"))
}

fn eligible_on(worker: &str) -> PlacementVerdict {
    PlacementVerdict::Eligible { first_target: Some(worker.to_string()) }
}

#[test]
fn expired_placement_rejected() {
    let mut req = base_dispatch(LOCAL_ONLY);
    req.target_worker_id = None;
    req.placement_decision.expires_at_ms = -1_000;
    assert!(matches!(
        revalidate_before_dispatch(&req, None, 0),
        Err(ComputeBrokerError::PlacementExpired)
    ));
}

#[test]
fn expired_capability_rejects_remote() {
    let mut req = base_dispatch(eligible_on("w1"));
    let later: i64 = 2 * 24 * 3_600_000;
    req.placement_decision.expires_at_ms = later + 300_000;
    // Two days on, the registry holds the worker's advertisement as expired.
    let result = revalidate_before_dispatch(&req, answer(WorkerSchedulingState::Expired, Some(true)), later);
    assert!(
        matches!(result, Err(ComputeBrokerError::CapabilityStale { .. })),
        "result={result:?}"
    );
}

#[test]
fn local_fallback_skips_remote_capability_cache() {
    let mut req = base_dispatch(LOCAL_ONLY);
    req.target_worker_id = Some(lokai_engine::broker::target::LOCAL_NODE_ID.to_string());
    // An empty registry knows nothing of any worker.
    revalidate_before_dispatch(&req, answer(WorkerSchedulingState::NotCached, None), 0)
        .expect("local Infer must not require a cached remote capability advertisement");
    revalidate_before_dispatch(&req, None, 0)
        .expect("local Infer must not fail closed without a capability registry");
}

#[test]
fn uncached_remote_still_fail_closed() {
    let mut req = base_dispatch(eligible_on("gpu-box"));
    req.target_worker_id = Some("gpu-box".to_string());
    let result = revalidate_before_dispatch(&req, answer(WorkerSchedulingState::NotCached, None), 0);
    match result {
        Err(ComputeBrokerError::CapabilityStale { worker_id, .. }) => {
            assert_eq!(worker_id, "gpu-box");
        }
        other => panic!("expected CapabilityStale for gpu-box, got {other:?}"),
    }
}

#[test]
fn named_worker_embed_refused_when_ads_are_infer_only() {
    let mut req = base_dispatch(eligible_on("w1"));
    req.job_kind = "Embed".to_string();
    req.target_worker_id = Some("w1".to_string());
    // The worker advertises Infer only: eligible, but not for this kind.
    let result = revalidate_before_dispatch(&req, answer(WorkerSchedulingState::Eligible, Some(false)), 0);
    match result {
        Err(ComputeBrokerError::WorkerTargetRefused { job_kind, worker_id }) => {
            assert_eq!(job_kind, "Embed");
            assert_eq!(worker_id, "w1");
        }
        other => panic!("expected WorkerTargetRefused for Embed, got {other:?}"),
    }
}

#[test]
fn speculation_denied_for_test_shard() {
    let infer = SpeculationProfile { shard_kind: false, supports_speculation: true, side_effect_free: true };
    let test_shard = SpeculationProfile { shard_kind: true, supports_speculation: false, side_effect_free: false };
    assert!(speculation_allowed(test_shard, true).is_err());
    assert!(speculation_allowed(infer, true).is_ok());
    // The default configuration does not allow speculation.
    assert!(speculation_allowed(infer, false).is_err());
}

use lokai_engine::broker::stamp::{
    apply_execution_target, apply_scheduler_decision, stamp_fabric_preferred,
    stamp_fabric_single_target, FabricRouting,
};

fn remote_decision(id: &str, fallback: Vec<ExecutionTargetId>) -> SchedulerDecision {
    let mut d = decision(id, true);
    d.selected_target = Some(ExecutionTargetId::Worker { worker_id: "w1".to_string() });
    d.fallback_order = fallback;
    d.uncertainty_margin_ms = 10;
    d.reason = SchedulerReason::RemoteFaster;
    d.model_version = "weighted_v1".into();
    d
}

#[test]
fn remote_selection_sets_eligible_placement() {
    let mut req = compute_request(LOCAL_ONLY, 300_000, None);
    let decision = remote_decision("sched_1", vec![]);
    apply_scheduler_decision(&mut req, &decision, 1_000);
    assert_eq!(req.scheduler_decision_id.as_deref(), Some("sched_1"));
    assert_eq!(req.trace_decision_id.as_deref(), Some("sched_1"));
    assert_eq!(req.target_worker_id.as_deref(), Some("w1"));
    assert!(matches!(req.placement_decision.decision, PlacementVerdict::Eligible { .. }));
    assert_eq!(req.placement_decision.issued_at_ms, 1_000);
    assert_eq!(req.placement_decision.expires_at_ms, 301_000);
}

#[test]
fn stamp_fabric_copies_fallback_order() {
    let mut fabric: Option<FabricRouting> = None;
    let decision = remote_decision(
        "sched_fb",
        vec![ExecutionTargetId::Worker { worker_id: "w1".to_string() }, ExecutionTargetId::Local],
    );
    stamp_fabric_preferred(&mut fabric, &decision);
    let meta = fabric.as_ref().unwrap();
    assert_eq!(meta.preferred_target.as_deref(), Some("w1"));
    assert_eq!(meta.fallback_order, vec!["w1".to_string(), "local".to_string()]);
    assert_eq!(meta.scheduler_decision_id.as_deref(), Some("sched_fb"));
}

#[test]
fn local_selection_keeps_secret_reason_and_hops_retarget() {
    let mut req = compute_request(PlacementVerdict::Denied, 0, Some("w9"));
    req.secret = true;
    let d = decision("d_local", false);
    apply_scheduler_decision(&mut req, &d, 5);
    assert_eq!(req.target_worker_id.as_deref(), Some("local"));
    assert!(matches!(
        req.placement_decision.decision,
        PlacementVerdict::LocalOnly { reason: LocalOnlyReason::SecretLocalOnly }
    ));
    assert_eq!(req.fallback_order, vec!["local".to_string()]);
    assert!(revalidate_before_dispatch(&req, None, 10).is_ok());

    apply_execution_target(&mut req, &ExecutionTargetId::Worker { worker_id: "w2".to_string() }, 20);
    assert_eq!(req.target_worker_id.as_deref(), Some("w2"));
    assert_eq!(req.fallback_order, vec!["local".to_string()]);
    assert_eq!(req.scheduler_decision_id.as_deref(), Some("d_local"));
    assert!(matches!(
        req.placement_decision.decision,
        PlacementVerdict::Eligible { first_target: Some(ref w) } if w == "w2"
    ));
    assert_eq!(req.placement_decision.expires_at_ms, 300_020);
}

#[test]
fn single_hop_stamp_keeps_earlier_decision_id() {
    let mut fabric: Option<FabricRouting> = None;
    stamp_fabric_single_target(&mut fabric, &ExecutionTargetId::Local, None);
    let meta = fabric.clone().unwrap();
    assert_eq!(meta.preferred_target.as_deref(), Some("local"));
    assert_eq!(meta.fallback_order, vec!["local".to_string()]);
    assert_eq!(meta.scheduler_decision_id, None);
    stamp_fabric_single_target(&mut fabric, &ExecutionTargetId::Worker { worker_id: "w3".to_string() }, Some("d7"));
    let meta = fabric.clone().unwrap();
    assert_eq!(meta.fallback_order, vec!["w3".to_string()]);
    assert_eq!(meta.scheduler_decision_id.as_deref(), Some("d7"));
    assert_eq!(meta.trace_decision_id.as_deref(), Some("d7"));
    stamp_fabric_single_target(&mut fabric, &ExecutionTargetId::Local, None);
    assert_eq!(fabric.unwrap().scheduler_decision_id.as_deref(), Some("d7"));
}

use lokai_engine::broker::feedback::{record_prediction_feedback, record_scheduler_metrics};

fn cand_at(target: ExecutionTargetId, finish: u64, cold: bool, depth: u32) -> CandidateEstimate {
    let mut c = cand(target, finish, 0);
    c.cold_start = cold;
    c.queue_depth = depth;
    c
}

#[test]
fn prediction_feedback_measures_the_selected_estimate() {
    let mut m = SchedulerMetrics::default();
    let mut d = remote_decision("d", vec![]);
    d.candidates = vec![
        cand_at(ExecutionTargetId::Local, 900, false, 0),
        cand_at(ExecutionTargetId::Worker { worker_id: "w1".into() }, 1_000, true, 3),
    ];
    let f = record_prediction_feedback(&mut m, &d, 1_250).unwrap();
    assert_eq!(f.abs_error_ms, 250);
    assert!(f.cold_start);
    assert!(matches!(f.target, ExecutionTargetId::Worker { ref worker_id } if worker_id == "w1"));
    let f = record_prediction_feedback(&mut m, &d, 700).unwrap();
    assert_eq!(f.abs_error_ms, 300);
    assert_eq!(m.prediction_samples, 2);
    assert_eq!(m.mean_abs_prediction_error_ms(), Some(275));
    // No candidate for the selection: the estimate counts as 0.
    d.candidates.clear();
    assert_eq!(record_prediction_feedback(&mut m, &d, 40).unwrap().abs_error_ms, 40);
    d.selected_target = None;
    assert!(record_prediction_feedback(&mut m, &d, 40).is_none());
    assert_eq!(m.prediction_samples, 3);
}

#[test]
fn decision_metrics_count_reason_and_deepest_queue() {
    let mut m = SchedulerMetrics::default();
    let mut d = remote_decision("d", vec![]);
    d.candidates = vec![
        cand_at(ExecutionTargetId::Local, 1, false, 2),
        cand_at(ExecutionTargetId::Worker { worker_id: "w1".into() }, 1, false, 7),
        cand_at(ExecutionTargetId::Worker { worker_id: "w2".into() }, 1, false, 4),
    ];
    record_scheduler_metrics(&mut m, &d);
    assert_eq!((m.decisions, m.offload, m.local_preferred, m.circuit_open), (1, 1, 0, 0));
    assert_eq!((m.queue_depth_samples, m.queue_depth_sum), (1, 7));
    d.reason = SchedulerReason::CircuitOpen;
    d.candidates.clear();
    record_scheduler_metrics(&mut m, &d);
    assert_eq!((m.decisions, m.circuit_open, m.queue_depth_samples), (2, 1, 1));
    d.reason = SchedulerReason::LocalFaster;
    record_scheduler_metrics(&mut m, &d);
    assert_eq!(m.local_preferred, 1);
}

#[test]
fn attempt_outcomes_release_or_cancel() {
    let (st, status) = finish_outcome(true, Some("ignored".into()));
    assert_eq!(st, ReservationState::Released);
    assert!(matches!(status, ComputeStatus::Succeeded));
    let (st, status) = finish_outcome(false, None);
    assert_eq!(st, ReservationState::Canceled);
    assert!(matches!(status, ComputeStatus::Failed { ref reason } if reason == "dispatch failed"));
    let (_, status) = finish_outcome(false, Some("worker busy".into()));
    assert!(matches!(status, ComputeStatus::Failed { ref reason } if reason == "worker busy"));
    let (st, status) = cancel_outcome(&CancellationReason::WorkerLost);
    assert_eq!(st, ReservationState::Canceled);
    assert!(matches!(status, ComputeStatus::Canceled { ref reason } if reason == "worker_lost"));
}

use lokai_engine::broker::submit::{submit_outcome, submit_precheck, AdmissionVerdict};

#[test]
fn submission_needs_a_supervisor_after_placement_checks() {
    let r = compute_request(LOCAL_ONLY, 1_000, None);
    assert!(submit_precheck(&r, false, true, 10).is_ok());
    assert!(matches!(submit_precheck(&r, false, false, 10), Err(ComputeBrokerError::SupervisorRequired)));
    // An expired placement is reported before the missing supervisor.
    assert!(matches!(submit_precheck(&r, false, false, 1_000), Err(ComputeBrokerError::PlacementExpired)));
    let mut s = r.clone();
    s.speculative = true;
    assert!(matches!(submit_precheck(&s, false, false, 10), Err(ComputeBrokerError::Other(_))));
}

#[test]
fn admission_verdicts_set_status_answer_and_counters() {
    let mut m = AdmissionMetrics::default();
    let (st, ans) = submit_outcome(&mut m, AdmissionVerdict::Admitted { reservation_id: "res_1".into() });
    assert!(matches!(st, ComputeStatus::Reserved));
    assert_eq!(ans.unwrap(), Some("res_1".to_string()));
    let (st, ans) = submit_outcome(&mut m, AdmissionVerdict::Queued);
    assert!(matches!(st, ComputeStatus::Queued));
    assert_eq!(ans.unwrap(), None);
    let (st, ans) = submit_outcome(
        &mut m,
        AdmissionVerdict::Rejected { reason: "budget_exhausted".into(), message: "no slots".into() },
    );
    assert!(matches!(st, ComputeStatus::Rejected { ref reason } if reason == "budget_exhausted: no slots"));
    assert!(matches!(ans, Err(ComputeBrokerError::AdmissionRejected(ref s)) if s == "budget_exhausted: no slots"));
    assert_eq!((m.admitted, m.queued, m.rejected), (1, 1, 1));
}

#[test]
fn decision_store_keeps_the_last_upsert_per_id() {
    let mut store = InMemorySchedulerStore::new();
    let mut a2 = decision("a", false);
    a2.model_version = "v2".into();
    for d in [decision("a", true), decision("b", true), a2, decision("c", false)] {
        store.upsert(&d).unwrap();
    }
    let a = store.get("a").unwrap().unwrap();
    assert_eq!(a.model_version, "v2");
    assert!(!a.pending);
    assert!(store.get("z").unwrap().is_none());
    let pending: Vec<String> = store.list_pending().unwrap().iter().map(|d| d.decision_id.0.clone()).collect();
    assert_eq!(pending, vec!["b".to_string()]);
}

#[test]
fn never_failed_worker_stays_closed() {
    let mut reg = CircuitBreakerRegistry::new(1, 30_000, 1);
    reg.record_failure_at("w_bad", 0);
    reg.record_success("w_ok");
    let _ = reg.state_at("w_ok", 5);
    reg.record_failure_at("w_bad", 10);
    assert_eq!(reg.state_at("w_ok", 100_000), CircuitState::Closed);
    assert!(reg.allows_dispatch_at("w_ok", 100_000));
    assert_eq!(reg.state_at("w_new", 7), CircuitState::Closed);
    assert_eq!(reg.state_at("w_bad", 11), CircuitState::Open);
}

use lokai_engine::broker::attempts::{AttemptRecord, AttemptTable};

fn attempt(id: &str, target: Option<&str>, fallback: &[&str], reservation: Option<&str>) -> AttemptRecord {
    let mut req = compute_request(LOCAL_ONLY, 1_000, target);
    req.fallback_order = fallback.iter().map(|s| s.to_string()).collect();
    AttemptRecord {
        attempt_id: id.into(),
        status: ComputeStatus::Reserved,
        reservation_id: reservation.map(|r| r.to_string()),
        request: req,
    }
}

#[test]
fn worker_loss_lists_continue_attempts() {
    let mut table = AttemptTable::new();
    // Without attempts targeting the worker, the continue list is empty.
    let (cont, res) = table.on_worker_lost("w_missing", &vec![]);
    assert!(cont.is_empty() && res.is_empty());
    table.record(attempt("a1", Some("w1"), &["w1", "w2"], Some("res1")));
    table.record(attempt("a2", Some("w1"), &["w1"], None));
    table.record(attempt("a3", Some("w2"), &["w2", "w1"], Some("res3")));
    let mut secret = attempt("a4", Some("w1"), &["w1", "local"], Some("res4"));
    secret.request.secret = true;
    table.record(secret);
    let (cont, res) = table.on_worker_lost("w1", &vec!["a1".to_string(), "a2".to_string(), "a4".to_string()]);
    assert_eq!(cont, vec!["a1".to_string()]);
    assert_eq!(res, vec!["res1".to_string(), "res4".to_string()]);
    assert!(matches!(table.status("a1").unwrap(), ComputeStatus::Canceled { ref reason } if reason == "worker_lost"));
    assert!(matches!(table.status("a3").unwrap(), ComputeStatus::Reserved));
    assert!(matches!(table.status("zz"), Err(ComputeBrokerError::UnknownAttempt)));
}

#[test]
fn attempt_table_finishes_and_cancels() {
    let mut table = AttemptTable::new();
    table.record(attempt("a", None, &[], Some("r")));
    table.finish("a", false, None);
    assert!(matches!(table.status("a").unwrap(), ComputeStatus::Failed { ref reason } if reason == "dispatch failed"));
    table.finish("a", true, None);
    assert!(matches!(table.status("a").unwrap(), ComputeStatus::Succeeded));
    assert_eq!(table.cancel("a", &CancellationReason::UserCanceled), Some("r".to_string()));
    assert!(matches!(table.status("a").unwrap(), ComputeStatus::Canceled { ref reason } if reason == "user_canceled"));
    assert_eq!(table.cancel("nope", &CancellationReason::UserCanceled), None);
    // Recording the same attempt again replaces it.
    table.record(attempt("a", None, &[], None));
    assert!(matches!(table.status("a").unwrap(), ComputeStatus::Reserved));
    assert_eq!(table.cancel("a", &CancellationReason::RunCanceled), None);
}
