use lokai_engine::enroll::crypto::KeyPair;
use lokai_engine::node::revoke::{
    check_server_cert, revoke_outcome, revoke_request, RevokeError, RevokeResponse,
};
use lokai_engine::node::scheduler::{
    is_circle_priority, priority_rank, should_preempt, CancelReason, GpuSlot, GrantStep,
    JobPriority, RefusedJobStatus, SchedulerError, SlotJob, TakeSlot,
};

fn job(id: &str, priority: JobPriority) -> SlotJob {
    SlotJob {
        job_id: id.to_string(),
        priority,
    }
}

#[test]
fn priority_ordering() {
    assert!(priority_rank(JobPriority::OwnerInteractive) > priority_rank(JobPriority::OwnerBackground));
    assert!(
        priority_rank(JobPriority::OwnerBackground) > priority_rank(JobPriority::CircleInteractive)
    );
    assert!(should_preempt(
        JobPriority::CircleBackground,
        JobPriority::OwnerInteractive
    ));
    assert!(!should_preempt(
        JobPriority::OwnerInteractive,
        JobPriority::CircleBackground
    ));
    assert!(is_circle_priority(JobPriority::CircleInteractive));
    assert!(!is_circle_priority(JobPriority::OwnerBackground));
}

#[test]
fn cancel_job_signals_matching_running() {
    let mut slot = GpuSlot::new();
    assert!(matches!(
        slot.try_take(job("typed_job", JobPriority::CircleInteractive), 0),
        TakeSlot::Granted { preempted: None }
    ));
    assert!(!slot.cancel_job(&"other".to_string()));
    assert!(slot.cancel_job(&"typed_job".to_string()));
}

#[test]
fn owner_activity_blocks_circle_submit() {
    let mut slot = GpuSlot::new();
    let sig = slot.signal_owner_activity(1_000, 60_000);
    assert!(sig.cancel_running.is_none());
    assert!(slot.owner_active_at(1_000));
    assert!(matches!(
        slot.try_take(job("c1", JobPriority::CircleInteractive), 2_000),
        TakeSlot::OwnerBlocks
    ));
    assert!(!slot.owner_active_at(61_000));
    assert!(matches!(
        slot.try_take(job("c1", JobPriority::CircleInteractive), 61_000),
        TakeSlot::Granted { .. }
    ));
}

#[test]
fn owner_interactive_preempts_circle_running() {
    let mut slot = GpuSlot::new();
    slot.try_take(job("circle", JobPriority::CircleInteractive), 0);
    match slot.try_take(job("owner", JobPriority::OwnerInteractive), 1) {
        TakeSlot::Granted { preempted } => assert_eq!(preempted.as_deref(), Some("circle")),
        other => panic!("unexpected {other:?}"),
    }
    assert_eq!(slot.running_job().as_deref(), Some("owner"));
    assert!(matches!(
        slot.try_take(job("circle2", JobPriority::CircleInteractive), 2),
        TakeSlot::Busy
    ));
    assert!(matches!(
        slot.try_take(job("owner", JobPriority::OwnerInteractive), 3),
        TakeSlot::AlreadyRunning
    ));
    assert!(slot.release(&"owner".to_string()));
    assert!(slot.running_job().is_none());
}

#[test]
fn signal_owner_activity_cancels_running_circle() {
    let mut slot = GpuSlot::new();
    slot.try_take(job("circle", JobPriority::CircleBackground), 0);
    let sig = slot.signal_owner_activity(5, 30_000);
    assert_eq!(sig.cancel_running.as_deref(), Some("circle"));
}

#[test]
fn busy_jobs_wait_in_queue_instead_of_rejection() {
    let mut slot = GpuSlot::new();
    slot.try_take(job("first", JobPriority::CircleInteractive), 0);
    assert_eq!(slot.queue_depth(), 1);
    assert!(matches!(
        slot.try_take(job("second", JobPriority::CircleInteractive), 1),
        TakeSlot::Busy
    ));
    slot.push_waiter(job("second", JobPriority::CircleInteractive));
    assert_eq!(slot.queue_depth(), 2);
    assert!(matches!(slot.grant_next_step(2, true), GrantStep::Blocked));
    assert!(slot.release(&"first".to_string()));
    match slot.grant_next_step(3, true) {
        GrantStep::Granted { job_id, preempted } => {
            assert_eq!(job_id, "second");
            assert!(preempted.is_none());
        }
        other => panic!("unexpected {other:?}"),
    }
    assert_eq!(slot.queue_depth(), 1);
    assert!(slot.release(&"second".to_string()));
    assert_eq!(slot.queue_depth(), 0);
    assert!(matches!(slot.grant_next_step(4, true), GrantStep::NoWaiters));
}

#[test]
fn owner_activity_rejects_queued_circle_waiters() {
    let mut slot = GpuSlot::new();
    slot.try_take(job("first", JobPriority::OwnerBackground), 0);
    slot.push_waiter(job("second", JobPriority::CircleInteractive));
    slot.push_waiter(job("owner2", JobPriority::OwnerBackground));
    slot.push_waiter(job("third", JobPriority::CircleBackground));
    let sig = slot.signal_owner_activity(1, 30_000);
    assert!(sig.cancel_running.is_none());
    assert_eq!(sig.rejected, vec!["second".to_string(), "third".to_string()]);
    assert_eq!(slot.queue_depth(), 2);
}

#[test]
fn dropped_waiter_does_not_reserve_slot() {
    let mut slot = GpuSlot::new();
    slot.try_take(job("first", JobPriority::OwnerBackground), 0);
    slot.push_waiter(job("abandoned", JobPriority::OwnerBackground));
    slot.release(&"first".to_string());
    match slot.grant_next_step(1, false) {
        GrantStep::Dropped(id) => assert_eq!(id, "abandoned"),
        other => panic!("unexpected {other:?}"),
    }
    assert!(!slot.is_running(&"abandoned".to_string()));
    assert!(matches!(
        slot.try_take(job("next", JobPriority::OwnerBackground), 2),
        TakeSlot::Granted { .. }
    ));
}

#[test]
fn waiters_queue_by_rank_then_arrival() {
    let mut slot = GpuSlot::new();
    slot.try_take(job("run", JobPriority::OwnerInteractive), 0);
    slot.push_waiter(job("cb", JobPriority::CircleBackground));
    slot.push_waiter(job("ci1", JobPriority::CircleInteractive));
    slot.push_waiter(job("ob", JobPriority::OwnerBackground));
    slot.push_waiter(job("ci2", JobPriority::CircleInteractive));
    slot.remove_waiter(&"cb".to_string());
    slot.release(&"run".to_string());
    let mut order = Vec::new();
    for t in 0..3u64 {
        if let GrantStep::Granted { job_id, .. } = slot.grant_next_step(t, true) {
            slot.release(&job_id);
            order.push(job_id);
        }
    }
    assert_eq!(order, vec!["ob", "ci1", "ci2"]);
}

#[test]
fn circle_head_waiter_refused_while_owner_active() {
    let mut slot = GpuSlot::new();
    slot.push_waiter(job("c", JobPriority::CircleInteractive));
    slot.signal_owner_activity(0, 10);
    slot.push_waiter(job("c2", JobPriority::CircleInteractive));
    match slot.grant_next_step(5, true) {
        GrantStep::Refused(id, e) => {
            assert_eq!(id, "c2");
            assert_eq!(e, SchedulerError::OwnerActiveBlocksCircle);
            assert_eq!(e.message(), "owner active — circle jobs not accepted");
        }
        other => panic!("unexpected {other:?}"),
    }
}

#[test]
fn revoke_request_and_outcomes() {
    let k = KeyPair::generate();
    let req = revoke_request(&k, 7, Some("w1"));
    assert_eq!(req.coordinator_pubkey.0, k.public().0);
    assert_eq!(req.epoch, 7);
    assert_eq!(req.worker_id.as_deref(), Some("w1"));
    assert!(check_server_cert(&[]).is_err());
    assert!(check_server_cert(&[1, 2]).is_ok());
    let ok = revoke_outcome(None, 200, 7).unwrap();
    assert!(ok.ok && ok.epoch == 7);
    match revoke_outcome(None, 409, 7) {
        Err(RevokeError::Rejected(m)) => assert_eq!(m, "worker rejected revoke (HTTP 409)"),
        other => panic!("unexpected {other:?}"),
    }
    let refused = RevokeResponse {
        ok: false,
        error: Some("stale epoch".into()),
        epoch: 3,
    };
    match revoke_outcome(Some(refused), 200, 7) {
        Err(e) => assert_eq!(e.message(), "revoke rejected: stale epoch"),
        Ok(_) => panic!("refusal accepted"),
    }
    assert_eq!(
        RevokeError::NoServerCert.message(),
        "missing worker fabric TLS certificate — re-enroll to enable push revoke"
    );
}

use lokai_engine::node::fabric::{
    body_limit_refusal, cancel_target, ingress_answer, ingress_decision, lease_target_check,
    revoke_key_check, revoke_persist_answer, stale_policy_refusal, wants_stream,
    worker_accepts_data_class, BodyCollectError, IngressAnswer, IngressVerdict, RevokePersist,
};

#[test]
fn fabric_refusals() {
    assert!(!worker_accepts_data_class(true));
    let r = stale_policy_refusal(None, 3).unwrap();
    assert_eq!((r.status, r.error.as_str()), (403, "coordinator not enrolled"));
    let r = stale_policy_refusal(Some(5), 3).unwrap();
    assert_eq!(r.error, "policy epoch 3 below pinned 5");
    assert_eq!(r.code.as_deref(), Some("stale_policy_epoch"));
    assert!(stale_policy_refusal(Some(5), 5).is_none());
    match ingress_answer(IngressVerdict::DuplicateInFlight) {
        IngressAnswer::Refuse(r) => assert_eq!(r.code.as_deref(), Some("duplicate_in_flight")),
        other => panic!("unexpected {other:?}"),
    }
    match ingress_answer(IngressVerdict::Failed {
        internal: true,
        message: "disk".into(),
        code: "InternalFailure".into(),
    }) {
        IngressAnswer::Refuse(r) => assert_eq!(r.status, 500),
        other => panic!("unexpected {other:?}"),
    }
    assert!(matches!(
        ingress_answer(IngressVerdict::ReplayExisting {
            cached_response: Some("{}".into())
        }),
        IngressAnswer::Replay(_)
    ));
    assert!(matches!(ingress_answer(IngressVerdict::AcceptNew), IngressAnswer::Run));
    assert!(wants_stream(false, false, Some(true)));
    assert!(!wants_stream(false, false, None));
    assert_eq!(cancel_target(None, "a1"), "a1");
    assert_eq!(cancel_target(Some("j1".into()), "a1"), "j1");
    assert_eq!(lease_target_check(false, false).unwrap().status, 404);
    assert!(lease_target_check(true, false).is_none());
}

#[test]
fn revoke_checks_and_limits() {
    let coord = [7u8; 32];
    assert_eq!(revoke_key_check(&[1u8; 5], &coord).unwrap().status, 400);
    assert_eq!(revoke_key_check(&[1u8; 32], &coord).unwrap().status, 403);
    assert!(revoke_key_check(&coord, &coord).is_none());
    assert!(revoke_persist_answer(RevokePersist::Stored).is_none());
    let r = revoke_persist_answer(RevokePersist::Failed("locked".into())).unwrap();
    assert_eq!(r.error, "revoke persistence failed: locked");
    assert_eq!(r.code.as_deref(), Some("revoke_db_failed"));
    assert_eq!(ingress_decision(413), (true, "policy_denied"));
    assert_eq!(ingress_decision(200), (false, "authorized"));
    let big = body_limit_refusal(BodyCollectError::TooLarge);
    assert_eq!(big.error, "body exceeds max size (8388608 bytes)");
    assert_eq!(body_limit_refusal(BodyCollectError::Timeout).status, 408);
}

use lokai_engine::node::fabric::{fabric_route, not_implemented_refusal, owner_activity_ttl_secs, FabricRoute};

#[test]
fn fabric_routes() {
    assert_eq!(fabric_route("GET", "/v1/health"), FabricRoute::Health);
    assert_eq!(fabric_route("POST", "/v1/jobs/lease"), FabricRoute::JobsLease);
    assert_eq!(fabric_route("GET", "/v1/jobs"), FabricRoute::NotFound);
    assert_eq!(fabric_route("DELETE", "/v1/health"), FabricRoute::NotFound);
    let r = not_implemented_refusal("ledger");
    assert_eq!((r.status, r.error.as_str()), (501, "ledger not implemented on worker (N1+)"));
    assert_eq!(owner_activity_ttl_secs(0), 1);
    assert_eq!(owner_activity_ttl_secs(30), 30);
}

#[test]
fn worker_rejects_secret_data_class() {
    // Only the secret class is refused; repository and sensitive sources are accepted.
    assert!(!worker_accepts_data_class(true));
    assert!(worker_accepts_data_class(false));
}

#[test]
fn ingress_decision_maps_policy_statuses() {
    // `.0` is whether the policy denied the job.
    assert!(ingress_decision(403).0);
    assert!(!ingress_decision(200).0);
}

use lokai_engine::node::fabric::{ingress_persist_refusal, scheduler_refusal};

#[test]
fn scheduler_refusals_name_their_reason() {
    let (r, reason) = scheduler_refusal(&SchedulerError::OwnerActiveBlocksCircle);
    assert_eq!(r.status, 503);
    assert_eq!(r.error, "owner active — circle jobs not accepted");
    assert_eq!(r.code.as_deref(), Some("owner_active"));
    assert_eq!(reason, "owner_active");
    let (r, reason) = scheduler_refusal(&SchedulerError::Preempted(CancelReason::OwnerPreempt));
    assert_eq!((r.status, r.error.as_str(), r.code.as_deref()), (503, "preempted", Some("owner_preempt")));
    assert_eq!(reason, "owner_preempt");
    let r = ingress_persist_refusal("disk full");
    assert_eq!((r.status, r.error.as_str(), r.code.as_deref()), (500, "disk full", Some("ingress_persist_failed")));
}

#[test]
fn cancel_signal_preempts_and_maps_to_status() {
    assert_eq!(GpuSlot::check_cancelled(false), Ok(()));
    let e = GpuSlot::check_cancelled(true).unwrap_err();
    assert_eq!(e, SchedulerError::Preempted(CancelReason::OwnerPreempt));
    assert_eq!(GpuSlot::job_status_for_error(&e), RefusedJobStatus::Preempted);
    assert_eq!(
        GpuSlot::job_status_for_error(&SchedulerError::OwnerActiveBlocksCircle),
        RefusedJobStatus::Denied
    );
}

use lokai_engine::node::fabric::capability_revision_step;

#[test]
fn capability_revision_moves_on_inventory_change_only() {
    // First read: no previous fingerprint, the advertisement shows at least 1.
    assert_eq!(capability_revision_step(0, 77, 0), (0, 1));
    assert_eq!(capability_revision_step(77, 77, 1), (1, 1));
    assert_eq!(capability_revision_step(77, 78, 1), (2, 2));
    assert_eq!(capability_revision_step(78, 79, u64::MAX), (0, 1));
}

use lokai_engine::node::fabric::{
    chat_ingress_answer, chat_outcome, jobs_ingress_answer, lease_renewal_refusal, offer_refusal,
    ChatFacts, ChatResultStatus, ChatRun, LeaseFacts, OfferFacts,
};

fn offer() -> OfferFacts {
    OfferFacts {
        body_error: None,
        envelope_parses: true,
        secret: false,
        pinned_epoch: Some(3),
        job_epoch: 3,
        infer_payload: true,
        lease_refusal: None,
    }
}

fn refused(a: IngressAnswer) -> (u16, String, Option<String>) {
    match a {
        IngressAnswer::Refuse(r) => (r.status, r.error, r.code),
        other => panic!("expected a refusal, got {other:?}"),
    }
}

#[test]
fn job_offer_checks_come_in_order() {
    assert!(matches!(jobs_ingress_answer(offer(), IngressVerdict::AcceptNew), IngressAnswer::Run));
    // Several checks fail: the first in order answers.
    let mut f = offer();
    f.secret = true;
    f.pinned_epoch = None;
    f.infer_payload = false;
    assert_eq!(
        refused(jobs_ingress_answer(f, IngressVerdict::AcceptNew)),
        (403, "secret data class rejected on worker".to_string(), None)
    );
    let mut f = offer();
    f.job_epoch = 2;
    f.infer_payload = false;
    assert_eq!(
        refused(jobs_ingress_answer(f, IngressVerdict::AcceptNew)),
        (403, "policy epoch 2 below pinned 3".to_string(), Some("stale_policy_epoch".to_string()))
    );
    let mut f = offer();
    f.infer_payload = false;
    f.lease_refusal = Some("attempt canceled".into());
    assert_eq!(refused(jobs_ingress_answer(f, IngressVerdict::DuplicateInFlight)).0, 400);
    let mut f = offer();
    f.lease_refusal = Some("attempt canceled".into());
    assert_eq!(
        refused(jobs_ingress_answer(f, IngressVerdict::AcceptNew)),
        (409, "attempt canceled".to_string(), Some("lease_renewal_canceled".to_string()))
    );
    let mut f = offer();
    f.body_error = Some(BodyCollectError::Timeout);
    f.envelope_parses = false;
    assert_eq!(offer_refusal(f).unwrap().status, 408);
    let mut f = offer();
    f.envelope_parses = false;
    assert_eq!(offer_refusal(f).unwrap().error, "invalid json envelope");
    assert_eq!(refused(jobs_ingress_answer(offer(), IngressVerdict::DuplicateInFlight)).0, 409);
}

#[test]
fn lease_and_chat_checks_come_in_order() {
    let lease = || LeaseFacts {
        body_error: None,
        envelope_parses: true,
        context_error: None,
        lease_refusal: None,
        running: false,
        known_attempt: true,
    };
    assert!(lease_renewal_refusal(lease()).is_none());
    let mut f = lease();
    f.known_attempt = false;
    assert_eq!(lease_renewal_refusal(f).unwrap().status, 404);
    let mut f = lease();
    f.context_error = Some(("worker mismatch".into(), "InvalidEnvelope".into()));
    f.lease_refusal = Some("x".into());
    let r = lease_renewal_refusal(f).unwrap();
    assert_eq!((r.status, r.error.as_str(), r.code.as_deref()), (400, "worker mismatch", Some("InvalidEnvelope")));
    let mut f = lease();
    f.envelope_parses = false;
    assert_eq!(lease_renewal_refusal(f).unwrap().error, "invalid json lease envelope");

    let chat = || ChatFacts {
        body_error: None,
        job_parses: true,
        secret: false,
        pinned_epoch: Some(1),
        job_epoch: 1,
        envelope_error: None,
    };
    assert!(matches!(chat_ingress_answer(chat(), IngressVerdict::AcceptNew), IngressAnswer::Run));
    let mut f = chat();
    f.envelope_error = Some("no attempt id".into());
    assert_eq!(
        refused(chat_ingress_answer(f, IngressVerdict::AcceptNew)),
        (400, "no attempt id".to_string(), Some("invalid_job_envelope".to_string()))
    );
    let mut f = chat();
    f.job_parses = false;
    assert_eq!(refused(chat_ingress_answer(f, IngressVerdict::AcceptNew)).1, "invalid json");
}

#[test]
fn chat_outcomes_by_run() {
    let done = chat_outcome(ChatRun::Completed { content: "".into(), streamed: "hi".into() }, true);
    assert!(done.ok);
    assert_eq!((done.status, done.content.as_str()), (ChatResultStatus::Succeeded, "hi"));
    assert!(done.failure.is_none());
    let streamed = chat_outcome(ChatRun::Completed { content: "".into(), streamed: "hi".into() }, false);
    assert_eq!(streamed.content, "");
    let kept = chat_outcome(ChatRun::Completed { content: "a".into(), streamed: "b".into() }, true);
    assert_eq!(kept.content, "a");
    let pre = chat_outcome(ChatRun::Preempted, true);
    assert!(!pre.ok);
    assert_eq!(pre.status, ChatResultStatus::Preempted);
    assert_eq!(pre.error.as_deref(), Some("owner_preempt"));
    assert_eq!(pre.failure.as_deref(), Some("owner_preempt"));
    let err = chat_outcome(ChatRun::Failed("model missing".into()), false);
    assert_eq!((err.status, err.error.as_deref()), (ChatResultStatus::Error, Some("model missing")));
}
