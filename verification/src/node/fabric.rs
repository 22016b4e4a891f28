//! Decisions of the worker's fabric listener: which job offers, lease renewals,
//! cancellations and revocations it refuses, and with what answer. The host
//! reads the requests, looks up its stores and performs the effects.
use vstd::prelude::*;

use crate::node::limits::MAX_FABRIC_BODY_BYTES;
use crate::node::scheduler::SchedulerError;
use crate::text::{chars_of, decimal, push_decimal, push_str};

verus! {

/// A refusal the listener answers with: HTTP status, error text, and machine code.
#[derive(Debug)]
pub struct FabricRefusal {
    pub status: u16,
    pub error: String,
    pub code: Option<String>,
}

pub open spec fn refusal_is(r: FabricRefusal, status: u16, error: Seq<char>, code: Option<Seq<char>>) -> bool {
    &&& r.status == status
    &&& r.error@ == error
    &&& match (r.code, code) {
        (Some(a), Some(b)) => a@ == b,
        (None, None) => true,
        _ => false,
    }
}

fn refusal(status: u16, error: &str, code: Option<&str>) -> (r: FabricRefusal)
    ensures
        refusal_is(
            r,
            status,
            error@,
            match code {
                Some(c) => Some(c@),
                None => None,
            },
        ),
{
    FabricRefusal {
        status,
        error: String::from_str(error),
        code: match code {
            Some(c) => Some(String::from_str(c)),
            None => None,
        },
    }
}

/// A worker never runs secret-class work.
pub fn worker_accepts_data_class(secret: bool) -> (r: bool)
    ensures
        r == !secret,
{
    !secret
}

/// The refusal of a secret-class job.
pub fn secret_refusal() -> (r: FabricRefusal)
    ensures
        refusal_is(r, 403, "secret data class rejected on worker"@, None),
{
    refusal(403, "secret data class rejected on worker", None)
}

/// The policy-epoch check of a job: refused when the coordinator is not pinned
/// (`pinned_epoch` is `None`) or the job's epoch is below the pinned one.
pub fn stale_policy_refusal(pinned_epoch: Option<u64>, job_epoch: u64) -> (r: Option<FabricRefusal>)
    ensures
        match pinned_epoch {
            None => r matches Some(x) && refusal_is(x, 403, "coordinator not enrolled"@, None),
            Some(min) => if job_epoch < min {
                r matches Some(x) && refusal_is(
                    x,
                    403,
                    "policy epoch "@ + decimal(job_epoch as nat) + " below pinned "@ + decimal(
                        min as nat,
                    ),
                    Some("stale_policy_epoch"@),
                )
            } else {
                r is None
            },
        },
{
    match pinned_epoch {
        None => Some(refusal(403, "coordinator not enrolled", None)),
        Some(min) => if job_epoch < min {
            let mut m = String::from_str("policy epoch ");
            push_decimal(&mut m, job_epoch as u128);
            push_str(&mut m, " below pinned ");
            push_decimal(&mut m, min as u128);
            Some(FabricRefusal { status: 403, error: m, code: Some(String::from_str("stale_policy_epoch")) })
        } else {
            None
        },
    }
}

/// A job offer whose payload is not a version-1 inference job.
pub fn missing_infer_payload() -> (r: FabricRefusal)
    ensures
        refusal_is(r, 400, "missing V1Infer payload"@, None),
{
    refusal(400, "missing V1Infer payload", None)
}

/// A lease that may no longer be renewed (its attempt was canceled).
pub fn lease_canceled_refusal(message: String) -> (r: FabricRefusal)
    ensures
        refusal_is(r, 409, message@, Some("lease_renewal_canceled"@)),
{
    FabricRefusal { status: 409, error: message, code: Some(String::from_str("lease_renewal_canceled")) }
}

/// What the job ingress made of a delivery.
#[derive(Debug)]
pub enum IngressVerdict {
    /// The job already finished; its answer, when cached, is sent again.
    ReplayExisting { cached_response: Option<String> },
    DuplicateInFlight,
    AcceptNew,
    /// The ingress failed; `internal` for an internal failure, `code` the error code's name.
    Failed { internal: bool, message: String, code: String },
}

/// How the listener answers after the ingress verdict.
#[derive(Debug)]
pub enum IngressAnswer {
    /// Send the cached answer with status 200.
    Replay(String),
    Refuse(FabricRefusal),
    /// Run the job.
    Run,
}

/// `r` answers ingress verdict `v`: a cached replay is sent again, a
/// replay without cache and a duplicate are conflicts, a new job runs, and an
/// ingress failure is refused with its message and code.
pub open spec fn answers(r: IngressAnswer, v: IngressVerdict) -> bool {
    match v {
            IngressVerdict::ReplayExisting { cached_response: Some(c) } => r matches IngressAnswer::Replay(x) && x@ == c@,
            IngressVerdict::ReplayExisting { cached_response: None } => r matches IngressAnswer::Refuse(x)
                && refusal_is(x, 409, "terminal job missing cached response for replay"@, Some("replay_missing_cache"@)),
            IngressVerdict::DuplicateInFlight => r matches IngressAnswer::Refuse(x) && refusal_is(
                x,
                409,
                "duplicate job delivery in progress"@,
                Some("duplicate_in_flight"@),
            ),
            IngressVerdict::AcceptNew => r is Run,
            IngressVerdict::Failed { internal, message, code } => r matches IngressAnswer::Refuse(x)
                && refusal_is(x, if internal { 500 } else { 409 }, message@, Some(code@)),
        }
}

/// The answer to an ingress verdict.
pub fn ingress_answer(v: IngressVerdict) -> (r: IngressAnswer)
    ensures
        answers(r, v),
{
    match v {
        IngressVerdict::ReplayExisting { cached_response: Some(c) } => IngressAnswer::Replay(c),
        IngressVerdict::ReplayExisting { cached_response: None } => IngressAnswer::Refuse(
            refusal(409, "terminal job missing cached response for replay", Some("replay_missing_cache")),
        ),
        IngressVerdict::DuplicateInFlight => IngressAnswer::Refuse(
            refusal(409, "duplicate job delivery in progress", Some("duplicate_in_flight")),
        ),
        IngressVerdict::AcceptNew => IngressAnswer::Run,
        IngressVerdict::Failed { internal, message, code } => IngressAnswer::Refuse(
            FabricRefusal { status: if internal { 500 } else { 409 }, error: message, code: Some(code) },
        ),
    }
}

/// A job answers in a stream when the caller accepts NDJSON or server-sent
/// events, or the job asks to stream.
pub fn wants_stream(accepts_ndjson: bool, accepts_event_stream: bool, job_streams: Option<bool>) -> (r: bool)
    ensures
        r == (accepts_ndjson || accepts_event_stream || job_streams == Some(true)),
{
    accepts_ndjson || accepts_event_stream || match job_streams {
        Some(b) => b,
        None => false,
    }
}

/// The job a cancellation signals: the job mapped to the attempt, or, when
/// none is, a job named like the attempt.
pub fn cancel_target(mapped_job: Option<String>, attempt_id: &str) -> (r: String)
    ensures
        r@ == match mapped_job {
            Some(j) => j@,
            None => attempt_id@,
        },
{
    match mapped_job {
        Some(j) => j,
        None => String::from_str(attempt_id),
    }
}

/// The lease of a job that is neither running nor known for its attempt.
pub fn lease_target_check(running: bool, known_attempt: bool) -> (r: Option<FabricRefusal>)
    ensures
        (running || known_attempt) ==> r is None,
        !(running || known_attempt) ==> (r matches Some(x) && refusal_is(
            x,
            404,
            "no matching in-flight job for lease renewal"@,
            Some("lease_job_not_found"@),
        )),
{
    if !running && !known_attempt {
        Some(refusal(404, "no matching in-flight job for lease renewal", Some("lease_job_not_found")))
    } else {
        None
    }
}

/// A revoke request is accepted only for a 32-byte key equal to the
/// authenticated coordinator's.
pub fn revoke_key_check(requested: &[u8], coordinator: &[u8]) -> (r: Option<FabricRefusal>)
    ensures
        requested@.len() != 32 ==> (r matches Some(x) && refusal_is(x, 400, "bad coordinator pubkey"@, None)),
        requested@.len() == 32 && requested@ != coordinator@ ==> (r matches Some(x) && refusal_is(
            x,
            403,
            "revoke must match authenticated coordinator"@,
            None,
        )),
        requested@.len() == 32 && requested@ == coordinator@ ==> r is None,
{
    if requested.len() != 32 {
        return Some(refusal(400, "bad coordinator pubkey", None));
    }
    let mut same = requested.len() == coordinator.len();
    if same {
        let mut i: usize = 0;
        while i < requested.len()
            invariant
                i <= requested@.len(),
                requested@.len() == coordinator@.len(),
                same == forall|j: int| 0 <= j < i ==> requested@[j] == coordinator@[j],
            decreases requested.len() - i,
        {
            if requested[i] != coordinator[i] {
                same = false;
            }
            i = i + 1;
        }
        if same {
            assert(requested@ =~= coordinator@);
        }
    }
    if same {
        None
    } else {
        Some(refusal(403, "revoke must match authenticated coordinator", None))
    }
}

/// How persisting a revocation went.
#[derive(Debug)]
pub enum RevokePersist {
    Stored,
    /// The store refused, with its error text.
    Failed(String),
    /// The blocking task did not complete.
    TaskFailed,
}

/// The answer to a revocation once the store has been written: `None` means
/// success (the host then drops the pin, cancels running work and answers ok
/// with the epoch).
pub fn revoke_persist_answer(p: RevokePersist) -> (r: Option<FabricRefusal>)
    ensures
        match p {
            RevokePersist::Stored => r is None,
            RevokePersist::Failed(e) => r matches Some(x) && refusal_is(
                x,
                500,
                "revoke persistence failed: "@ + e@,
                Some("revoke_db_failed"@),
            ),
            RevokePersist::TaskFailed => r matches Some(x) && refusal_is(
                x,
                500,
                "revoke persistence task failed"@,
                Some("revoke_db_failed"@),
            ),
        },
{
    match p {
        RevokePersist::Stored => None,
        RevokePersist::Failed(e) => {
            let mut m = String::from_str("revoke persistence failed: ");
            push_str(&mut m, e.as_str());
            Some(FabricRefusal { status: 500, error: m, code: Some(String::from_str("revoke_db_failed")) })
        },
        RevokePersist::TaskFailed => Some(refusal(500, "revoke persistence task failed", Some("revoke_db_failed"))),
    }
}

/// Whether an ingress answer is logged as a denial, and with what reason:
/// 403, 503, 413 and 408 are policy denials; anything else was authorized.
pub fn ingress_decision(status: u16) -> (r: (bool, &'static str))
    ensures
        (status == 403 || status == 503 || status == 413 || status == 408) ==> (r.0 && r.1@
            == "policy_denied"@),
        !(status == 403 || status == 503 || status == 413 || status == 408) ==> (!r.0 && r.1@
            == "authorized"@),
{
    if status == 403 || status == 503 || status == 413 || status == 408 {
        (true, "policy_denied")
    } else {
        (false, "authorized")
    }
}

/// Why a request body could not be read.
#[derive(Debug, Clone, Copy, PartialEq, Eq, Structural)]
pub enum BodyCollectError {
    BadBody,
    TooLarge,
    Timeout,
}

/// The answer to a body that could not be read within the limits.
pub fn body_limit_refusal(err: BodyCollectError) -> (r: FabricRefusal)
    ensures
        match err {
            BodyCollectError::Timeout => refusal_is(r, 408, "request body deadline exceeded"@, Some("request_timeout"@)),
            BodyCollectError::TooLarge => refusal_is(
                r,
                413,
                "body exceeds max size ("@ + decimal(MAX_FABRIC_BODY_BYTES as nat) + " bytes)"@,
                Some("payload_too_large"@),
            ),
            BodyCollectError::BadBody => refusal_is(r, 400, "bad body"@, None),
        },
{
    match err {
        BodyCollectError::Timeout => refusal(408, "request body deadline exceeded", Some("request_timeout")),
        BodyCollectError::TooLarge => {
            let mut m = String::from_str("body exceeds max size (");
            push_decimal(&mut m, MAX_FABRIC_BODY_BYTES as u128);
            push_str(&mut m, " bytes)");
            FabricRefusal { status: 413, error: m, code: Some(String::from_str("payload_too_large")) }
        },
        BodyCollectError::BadBody => refusal(400, "bad body", None),
    }
}

/// The handler a fabric request goes to.
#[derive(Debug, Clone, Copy, PartialEq, Eq, Structural)]
pub enum FabricRoute {
    Health,
    Capabilities,
    ModelsVerified,
    CapacityStatus,
    Ledger,
    Chat,
    Jobs,
    JobsCancel,
    JobsLease,
    Revoke,
    OwnerActivity,
    EstatePolicy,
    Negotiate,
    NotFound,
}

pub open spec fn route_of(method: Seq<char>, path: Seq<char>) -> FabricRoute {
    if method == "GET"@ {
        if path == "/v1/health"@ {
            FabricRoute::Health
        } else if path == "/v1/capabilities"@ {
            FabricRoute::Capabilities
        } else if path == "/v1/models/verified"@ {
            FabricRoute::ModelsVerified
        } else if path == "/v1/capacity/status"@ {
            FabricRoute::CapacityStatus
        } else if path == "/v1/ledger"@ {
            FabricRoute::Ledger
        } else {
            FabricRoute::NotFound
        }
    } else if method == "POST"@ {
        if path == "/v1/chat"@ {
            FabricRoute::Chat
        } else if path == "/v1/jobs"@ {
            FabricRoute::Jobs
        } else if path == "/v1/jobs/cancel"@ {
            FabricRoute::JobsCancel
        } else if path == "/v1/jobs/lease"@ {
            FabricRoute::JobsLease
        } else if path == "/v1/revoke"@ {
            FabricRoute::Revoke
        } else if path == "/v1/owner/activity"@ {
            FabricRoute::OwnerActivity
        } else if path == "/v1/estate/policy"@ {
            FabricRoute::EstatePolicy
        } else if path == "/v1/negotiate"@ {
            FabricRoute::Negotiate
        } else {
            FabricRoute::NotFound
        }
    } else {
        FabricRoute::NotFound
    }
}

fn is(a: &str, b: &str) -> (r: bool)
    ensures
        r == (a@ == b@),
{
    let x = crate::text::chars_of(a);
    let y = crate::text::chars_of(b);
    crate::text::chars_eq(x.as_slice(), y.as_slice())
}

/// The handler for a request's method and path.
pub fn fabric_route(method: &str, path: &str) -> (r: FabricRoute)
    ensures
        r == route_of(method@, path@),
{
    if is(method, "GET") {
        if is(path, "/v1/health") {
            FabricRoute::Health
        } else if is(path, "/v1/capabilities") {
            FabricRoute::Capabilities
        } else if is(path, "/v1/models/verified") {
            FabricRoute::ModelsVerified
        } else if is(path, "/v1/capacity/status") {
            FabricRoute::CapacityStatus
        } else if is(path, "/v1/ledger") {
            FabricRoute::Ledger
        } else {
            FabricRoute::NotFound
        }
    } else if is(method, "POST") {
        if is(path, "/v1/chat") {
            FabricRoute::Chat
        } else if is(path, "/v1/jobs") {
            FabricRoute::Jobs
        } else if is(path, "/v1/jobs/cancel") {
            FabricRoute::JobsCancel
        } else if is(path, "/v1/jobs/lease") {
            FabricRoute::JobsLease
        } else if is(path, "/v1/revoke") {
            FabricRoute::Revoke
        } else if is(path, "/v1/owner/activity") {
            FabricRoute::OwnerActivity
        } else if is(path, "/v1/estate/policy") {
            FabricRoute::EstatePolicy
        } else if is(path, "/v1/negotiate") {
            FabricRoute::Negotiate
        } else {
            FabricRoute::NotFound
        }
    } else {
        FabricRoute::NotFound
    }
}

/// The answer to a route the worker does not serve yet.
pub fn not_implemented_refusal(feature: &str) -> (r: FabricRefusal)
    ensures
        refusal_is(r, 501, feature@ + " not implemented on worker (N1+)"@, Some("not_implemented"@)),
{
    let mut m = String::from_str(feature);
    push_str(&mut m, " not implemented on worker (N1+)");
    FabricRefusal { status: 501, error: m, code: Some(String::from_str("not_implemented")) }
}

/// The answer to an unknown route.
pub fn not_found_refusal() -> (r: FabricRefusal)
    ensures
        refusal_is(r, 404, "not found"@, None),
{
    refusal(404, "not found", None)
}

/// The owner-activity window a request asks for: at least one second.
pub fn owner_activity_ttl_secs(requested: u64) -> (r: u64)
    ensures
        r == (if requested >= 1 { requested } else { 1 }),
{
    if requested >= 1 {
        requested
    } else {
        1
    }
}

/// The answer to a job the local scheduler refused, with the reason recorded
/// as the job's terminal outcome: an owner-active refusal or an owner preemption.
pub fn scheduler_refusal(err: &SchedulerError) -> (r: (FabricRefusal, &'static str))
    ensures
        match *err {
            SchedulerError::OwnerActiveBlocksCircle => refusal_is(
                r.0,
                503,
                "owner active — circle jobs not accepted"@,
                Some("owner_active"@),
            ) && r.1@ == "owner_active"@,
            SchedulerError::Preempted(_) => refusal_is(r.0, 503, "preempted"@, Some("owner_preempt"@))
                && r.1@ == "owner_preempt"@,
        },
{
    match err {
        SchedulerError::OwnerActiveBlocksCircle => (
            refusal(503, "owner active — circle jobs not accepted", Some("owner_active")),
            "owner_active",
        ),
        SchedulerError::Preempted(_) => (refusal(503, "preempted", Some("owner_preempt")), "owner_preempt"),
    }
}

/// The answer when recording a job's terminal outcome failed.
pub fn ingress_persist_refusal(message: &str) -> (r: FabricRefusal)
    ensures
        refusal_is(r, 500, message@, Some("ingress_persist_failed"@)),
{
    refusal(500, message, Some("ingress_persist_failed"))
}

/// How the advertised capability revision moves when the model inventory is
/// read again: the stored counter goes up by one when a previous inventory was
/// fingerprinted (`prev_fingerprint` not 0) and the fingerprint changed; the
/// advertisement shows the counter, at least 1.
pub open spec fn revision_after(prev_fingerprint: u64, fingerprint: u64, revision: u64) -> (u64, u64) {
    let stored = if prev_fingerprint != 0 && prev_fingerprint != fingerprint {
        revision.wrapping_add(1)
    } else {
        revision
    };
    (stored, if stored >= 1 { stored } else { 1 })
}

/// The stored and the advertised capability revision after reading an
/// inventory with `fingerprint`.
pub fn capability_revision_step(prev_fingerprint: u64, fingerprint: u64, revision: u64) -> (r: (u64, u64))
    ensures
        r == revision_after(prev_fingerprint, fingerprint, revision),
{
    let stored = if prev_fingerprint != 0 && prev_fingerprint != fingerprint {
        revision.wrapping_add(1)
    } else {
        revision
    };
    let advertised = if stored >= 1 { stored } else { 1 };
    (stored, advertised)
}

/// A refusal as its status, error text and code.
pub open spec fn refusal_is_view(r: FabricRefusal, v: (u16, Seq<char>, Option<Seq<char>>)) -> bool {
    refusal_is(r, v.0, v.1, v.2)
}

/// What a job offer's checks found before the ingress is consulted.
#[derive(Debug)]
pub struct OfferFacts {
    /// Why the body could not be read, if it could not.
    pub body_error: Option<BodyCollectError>,
    /// The body is a JSON job-offer envelope.
    pub envelope_parses: bool,
    /// The job carries secret data.
    pub secret: bool,
    /// The coordinator's pinned policy epoch (`None`: not enrolled).
    pub pinned_epoch: Option<u64>,
    /// The policy epoch the offer carries.
    pub job_epoch: u64,
    /// The payload is a version-1 inference job.
    pub infer_payload: bool,
    /// Why the attempt's lease may not be renewed, if it may not.
    pub lease_refusal: Option<String>,
}

pub open spec fn body_refusal_view(e: BodyCollectError) -> (u16, Seq<char>, Option<Seq<char>>) {
    match e {
        BodyCollectError::Timeout => (408, "request body deadline exceeded"@, Some("request_timeout"@)),
        BodyCollectError::TooLarge => (
            413,
            "body exceeds max size ("@ + decimal(MAX_FABRIC_BODY_BYTES as nat) + " bytes)"@,
            Some("payload_too_large"@),
        ),
        BodyCollectError::BadBody => (400, "bad body"@, None),
    }
}

pub open spec fn stale_refusal_view(pinned_epoch: Option<u64>, job_epoch: u64) -> Option<(u16, Seq<char>, Option<Seq<char>>)> {
    match pinned_epoch {
        None => Some((403, "coordinator not enrolled"@, None)),
        Some(min) => if job_epoch < min {
            Some((
                403,
                "policy epoch "@ + decimal(job_epoch as nat) + " below pinned "@ + decimal(min as nat),
                Some("stale_policy_epoch"@),
            ))
        } else {
            None
        },
    }
}

/// The first refusal of a job offer, checked in order: the body, the
/// envelope, the data class, the policy epoch, the payload, the lease.
pub open spec fn offer_refusal_view(f: OfferFacts) -> Option<(u16, Seq<char>, Option<Seq<char>>)> {
    match f.body_error {
        Some(e) => Some(body_refusal_view(e)),
        None => if !f.envelope_parses {
            Some((400, "invalid json envelope"@, None))
        } else if f.secret {
            Some((403, "secret data class rejected on worker"@, None))
        } else if stale_refusal_view(f.pinned_epoch, f.job_epoch) is Some {
            stale_refusal_view(f.pinned_epoch, f.job_epoch)
        } else if !f.infer_payload {
            Some((400, "missing V1Infer payload"@, None))
        } else {
            match f.lease_refusal {
                Some(m) => Some((409, m@, Some("lease_renewal_canceled"@))),
                None => None,
            }
        },
    }
}

/// The refusal of a job offer before the ingress is consulted, if any; the
/// host consults the ingress only when there is none.
pub fn offer_refusal(f: OfferFacts) -> (r: Option<FabricRefusal>)
    ensures
        match offer_refusal_view(f) {
            None => r is None,
            Some(v) => r matches Some(x) && refusal_is_view(x, v),
        },
{
    match f.body_error {
        Some(e) => return Some(body_limit_refusal(e)),
        None => {},
    }
    if !f.envelope_parses {
        return Some(refusal(400, "invalid json envelope", None));
    }
    if !worker_accepts_data_class(f.secret) {
        return Some(secret_refusal());
    }
    match stale_policy_refusal(f.pinned_epoch, f.job_epoch) {
        Some(x) => return Some(x),
        None => {},
    }
    if !f.infer_payload {
        return Some(missing_infer_payload());
    }
    match f.lease_refusal {
        Some(m) => Some(lease_canceled_refusal(m)),
        None => None,
    }
}

/// The listener's answer to a job offer: the first refusal of its checks,
/// else the answer to what the ingress made of the delivery.
pub fn jobs_ingress_answer(f: OfferFacts, ingress: IngressVerdict) -> (r: IngressAnswer)
    ensures
        match offer_refusal_view(f) {
            Some(v) => r matches IngressAnswer::Refuse(x) && refusal_is_view(x, v),
            None => answers(r, ingress),
        },
{
    match offer_refusal(f) {
        Some(x) => IngressAnswer::Refuse(x),
        None => ingress_answer(ingress),
    }
}

/// What a lease renewal's checks found.
#[derive(Debug)]
pub struct LeaseFacts {
    /// Why the body could not be read, if it could not.
    pub body_error: Option<BodyCollectError>,
    /// The body is a JSON lease-renewal envelope.
    pub envelope_parses: bool,
    /// Why the lifecycle context is invalid (its message and error code's name), if it is.
    pub context_error: Option<(String, String)>,
    /// Why the attempt's lease may not be renewed, if it may not.
    pub lease_refusal: Option<String>,
    /// The job is running on this worker.
    pub running: bool,
    /// The attempt is known for this job.
    pub known_attempt: bool,
}

/// The first refusal of a lease renewal, checked in order: the body, the
/// envelope, the lifecycle context, the lease, the job's presence.
pub open spec fn lease_refusal_view(f: LeaseFacts) -> Option<(u16, Seq<char>, Option<Seq<char>>)> {
    match f.body_error {
        Some(e) => Some(body_refusal_view(e)),
        None => if !f.envelope_parses {
            Some((400, "invalid json lease envelope"@, None))
        } else {
            match f.context_error {
                Some((m, c)) => Some((400, m@, Some(c@))),
                None => match f.lease_refusal {
                    Some(m) => Some((409, m@, Some("lease_renewal_canceled"@))),
                    None => if !f.running && !f.known_attempt {
                        Some((404, "no matching in-flight job for lease renewal"@, Some("lease_job_not_found"@)))
                    } else {
                        None
                    },
                },
            }
        },
    }
}

/// The refusal of a lease renewal, if any; with none the host renews the lease.
pub fn lease_renewal_refusal(f: LeaseFacts) -> (r: Option<FabricRefusal>)
    ensures
        match lease_refusal_view(f) {
            None => r is None,
            Some(v) => r matches Some(x) && refusal_is_view(x, v),
        },
{
    match f.body_error {
        Some(e) => return Some(body_limit_refusal(e)),
        None => {},
    }
    if !f.envelope_parses {
        return Some(refusal(400, "invalid json lease envelope", None));
    }
    match f.context_error {
        Some((m, c)) => return Some(FabricRefusal { status: 400, error: m, code: Some(c) }),
        None => {},
    }
    match f.lease_refusal {
        Some(m) => return Some(lease_canceled_refusal(m)),
        None => {},
    }
    lease_target_check(f.running, f.known_attempt)
}

/// What a direct chat job's checks found before the ingress is consulted.
#[derive(Debug)]
pub struct ChatFacts {
    /// Why the body could not be read, if it could not.
    pub body_error: Option<BodyCollectError>,
    /// The body is a JSON chat job.
    pub job_parses: bool,
    /// The job carries secret data.
    pub secret: bool,
    /// The coordinator's pinned policy epoch (`None`: not enrolled).
    pub pinned_epoch: Option<u64>,
    /// The policy epoch the job carries.
    pub job_epoch: u64,
    /// Why the job could not be turned into a job envelope, if it could not.
    pub envelope_error: Option<String>,
}

/// The first refusal of a chat job, checked in order: the body, the JSON, the
/// data class, the policy epoch, the job envelope.
pub open spec fn chat_refusal_view(f: ChatFacts) -> Option<(u16, Seq<char>, Option<Seq<char>>)> {
    match f.body_error {
        Some(e) => Some(body_refusal_view(e)),
        None => if !f.job_parses {
            Some((400, "invalid json"@, None))
        } else if f.secret {
            Some((403, "secret data class rejected on worker"@, None))
        } else if stale_refusal_view(f.pinned_epoch, f.job_epoch) is Some {
            stale_refusal_view(f.pinned_epoch, f.job_epoch)
        } else {
            match f.envelope_error {
                Some(m) => Some((400, m@, Some("invalid_job_envelope"@))),
                None => None,
            }
        },
    }
}

/// The listener's answer to a chat job: the first refusal of its checks, else
/// the answer to what the ingress made of the delivery.
pub fn chat_ingress_answer(f: ChatFacts, ingress: IngressVerdict) -> (r: IngressAnswer)
    ensures
        match chat_refusal_view(f) {
            Some(v) => r matches IngressAnswer::Refuse(x) && refusal_is_view(x, v),
            None => answers(r, ingress),
        },
{
    match f.body_error {
        Some(e) => return IngressAnswer::Refuse(body_limit_refusal(e)),
        None => {},
    }
    if !f.job_parses {
        return IngressAnswer::Refuse(refusal(400, "invalid json", None));
    }
    if !worker_accepts_data_class(f.secret) {
        return IngressAnswer::Refuse(secret_refusal());
    }
    match stale_policy_refusal(f.pinned_epoch, f.job_epoch) {
        Some(x) => return IngressAnswer::Refuse(x),
        None => {},
    }
    match f.envelope_error {
        Some(m) => return IngressAnswer::Refuse(
            FabricRefusal { status: 400, error: m, code: Some(String::from_str("invalid_job_envelope")) },
        ),
        None => {},
    }
    ingress_answer(ingress)
}

/// How an admitted chat ran.
#[derive(Debug)]
pub enum ChatRun {
    /// The model answered with `content`; `streamed` is the text its tokens carried.
    Completed { content: String, streamed: String },
    /// The owner preempted the job.
    Preempted,
    /// Inference failed with this message.
    Failed(String),
}

/// The status a sealed chat result carries.
#[derive(Debug, Clone, Copy, PartialEq, Eq, Structural)]
pub enum ChatResultStatus {
    Succeeded,
    Preempted,
    Error,
}

/// What a finished chat answers and records: whether it is ok, the result's
/// status, error and message text, and the error its terminal outcome records
/// (`None`: completed).
#[derive(Debug)]
pub struct ChatOutcome {
    pub ok: bool,
    pub status: ChatResultStatus,
    pub error: Option<String>,
    pub content: String,
    pub failure: Option<String>,
}

/// The outcome of a chat run. A completed run whose answer is empty takes the
/// streamed text instead when `fill_from_stream` (the plain JSON answer does,
/// the NDJSON stream does not); a preemption fails as `owner_preempt`; an
/// inference failure fails with its message. A failed run's text is empty.
pub open spec fn chat_outcome_is(r: ChatOutcome, run: ChatRun, fill_from_stream: bool) -> bool {
    match run {
        ChatRun::Completed { content, streamed } => {
            &&& r.ok && r.status == ChatResultStatus::Succeeded && r.error is None && r.failure is None
            &&& r.content@ == (if fill_from_stream && content@.len() == 0 && streamed@.len() != 0 {
                streamed@
            } else {
                content@
            })
        },
        ChatRun::Preempted => {
            &&& !r.ok && r.status == ChatResultStatus::Preempted && r.content@.len() == 0
            &&& r.error matches Some(e) && e@ == "owner_preempt"@
            &&& r.failure matches Some(e) && e@ == "owner_preempt"@
        },
        ChatRun::Failed(m) => {
            &&& !r.ok && r.status == ChatResultStatus::Error && r.content@.len() == 0
            &&& r.error matches Some(e) && e@ == m@
            &&& r.failure matches Some(e) && e@ == m@
        },
    }
}

/// The outcome of a chat run, for the plain JSON answer (`fill_from_stream`)
/// or the final event of an NDJSON stream.
pub fn chat_outcome(run: ChatRun, fill_from_stream: bool) -> (r: ChatOutcome)
    ensures
        chat_outcome_is(r, run, fill_from_stream),
{
    match run {
        ChatRun::Completed { content, streamed } => {
            let c = chars_of(content.as_str());
            let t = chars_of(streamed.as_str());
            let text = if fill_from_stream && c.len() == 0 && t.len() != 0 {
                streamed
            } else {
                content
            };
            ChatOutcome { ok: true, status: ChatResultStatus::Succeeded, error: None, content: text, failure: None }
        },
        ChatRun::Preempted => ChatOutcome {
            ok: false,
            status: ChatResultStatus::Preempted,
            error: Some(String::from_str("owner_preempt")),
            content: String::new(),
            failure: Some(String::from_str("owner_preempt")),
        },
        ChatRun::Failed(m) => ChatOutcome {
            ok: false,
            status: ChatResultStatus::Error,
            error: Some(m.clone()),
            content: String::new(),
            failure: Some(m),
        },
    }
}

} // verus!
