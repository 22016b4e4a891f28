//! Status, retry and error types of compute requests.
use vstd::prelude::*;

use crate::broker::reservation::ReservationState;
use crate::text::push_str;

verus! {

#[derive(Debug, Clone)]
pub struct RetryPolicyReference {
    pub policy_id: String,
    pub max_attempts: u32,
}

impl Default for RetryPolicyReference {
    fn default() -> (r: Self)
        ensures
            r.policy_id@ == "default"@,
            r.max_attempts == 3,
    {
        RetryPolicyReference { policy_id: String::from_str("default"), max_attempts: 3 }
    }
}

#[derive(Debug, Clone)]
pub enum ComputeStatus {
    Queued,
    Reserved,
    Dispatched,
    Running,
    Succeeded,
    Failed { reason: String },
    Canceled { reason: String },
    Rejected { reason: String },
}

#[derive(Debug, Clone)]
pub enum CancellationReason {
    UserCanceled,
    RunCanceled,
    TaskCanceled,
    Superseded,
    DeadlineExceeded,
    WorkerLost,
    AdmissionRevoked,
    Other(String),
}

pub open spec fn cancellation_text(c: CancellationReason) -> Seq<char> {
    match c {
        CancellationReason::UserCanceled => "user_canceled"@,
        CancellationReason::RunCanceled => "run_canceled"@,
        CancellationReason::TaskCanceled => "task_canceled"@,
        CancellationReason::Superseded => "superseded"@,
        CancellationReason::DeadlineExceeded => "deadline_exceeded"@,
        CancellationReason::WorkerLost => "worker_lost"@,
        CancellationReason::AdmissionRevoked => "admission_revoked"@,
        CancellationReason::Other(s) => s@,
    }
}

impl CancellationReason {
    pub fn as_str(&self) -> (r: &str)
        ensures
            r@ == cancellation_text(*self),
    {
        match self {
            CancellationReason::UserCanceled => "user_canceled",
            CancellationReason::RunCanceled => "run_canceled",
            CancellationReason::TaskCanceled => "task_canceled",
            CancellationReason::Superseded => "superseded",
            CancellationReason::DeadlineExceeded => "deadline_exceeded",
            CancellationReason::WorkerLost => "worker_lost",
            CancellationReason::AdmissionRevoked => "admission_revoked",
            CancellationReason::Other(s) => s.as_str(),
        }
    }
}

#[derive(Debug)]
pub enum ComputeBrokerError {
    AdmissionRejected(String),
    StaleTaskVersion,
    AttemptNotActive,
    PlacementExpired,
    CapabilityStale { worker_id: String, detail: String },
    WorkerTargetRefused { job_kind: String, worker_id: String },
    OverBudget(String),
    WorkspaceMismatch,
    ArtifactsUnavailable,
    DataClassChanged,
    Canceled,
    SupervisorRequired,
    ResourceTooLarge,
    UnknownAttempt,
    Dispatch(String),
    Persist(String),
    Other(String),
}

pub open spec fn broker_error_text(e: ComputeBrokerError) -> Seq<char> {
    match e {
        ComputeBrokerError::AdmissionRejected(s) => "admission rejected: "@ + s@,
        ComputeBrokerError::StaleTaskVersion => "stale task version"@,
        ComputeBrokerError::AttemptNotActive => "attempt not active"@,
        ComputeBrokerError::PlacementExpired => "placement decision absent or expired"@,
        ComputeBrokerError::CapabilityStale { worker_id, detail } => "capability stale for worker "@
            + worker_id@ + ": "@ + detail@,
        ComputeBrokerError::WorkerTargetRefused { job_kind, worker_id } => "job kind "@ + job_kind@
            + " runs on the local target; worker "@ + worker_id@ + " refused"@,
        ComputeBrokerError::OverBudget(s) => "reservation over budget: "@ + s@,
        ComputeBrokerError::WorkspaceMismatch => "workspace version mismatch"@,
        ComputeBrokerError::ArtifactsUnavailable => "required artifacts unavailable"@,
        ComputeBrokerError::DataClassChanged => "data classification changed"@,
        ComputeBrokerError::Canceled => "run or task canceled"@,
        ComputeBrokerError::SupervisorRequired => "RunSupervisor required: submit refused without supervisor"@,
        ComputeBrokerError::ResourceTooLarge => "resource request exceeds hard policy limits"@,
        ComputeBrokerError::UnknownAttempt => "unknown attempt"@,
        ComputeBrokerError::Dispatch(s) => "dispatch failed: "@ + s@,
        ComputeBrokerError::Persist(s) => "persistence failed: "@ + s@,
        ComputeBrokerError::Other(s) => s@,
    }
}

fn text2(a: &str, b: &str) -> (r: String)
    ensures
        r@ == a@ + b@,
{
    let mut s = String::from_str(a);
    push_str(&mut s, b);
    s
}

impl ComputeBrokerError {
    /// The operator-facing text of the error.
    pub fn message(&self) -> (r: String)
        ensures
            r@ == broker_error_text(*self),
    {
        match self {
            ComputeBrokerError::AdmissionRejected(s) => text2("admission rejected: ", s.as_str()),
            ComputeBrokerError::StaleTaskVersion => String::from_str("stale task version"),
            ComputeBrokerError::AttemptNotActive => String::from_str("attempt not active"),
            ComputeBrokerError::PlacementExpired => String::from_str(
                "placement decision absent or expired",
            ),
            ComputeBrokerError::CapabilityStale { worker_id, detail } => {
                let mut s = text2("capability stale for worker ", worker_id.as_str());
                push_str(&mut s, ": ");
                push_str(&mut s, detail.as_str());
                s
            },
            ComputeBrokerError::WorkerTargetRefused { job_kind, worker_id } => {
                let mut s = text2("job kind ", job_kind.as_str());
                push_str(&mut s, " runs on the local target; worker ");
                push_str(&mut s, worker_id.as_str());
                push_str(&mut s, " refused");
                s
            },
            ComputeBrokerError::OverBudget(s) => text2("reservation over budget: ", s.as_str()),
            ComputeBrokerError::WorkspaceMismatch => String::from_str("workspace version mismatch"),
            ComputeBrokerError::ArtifactsUnavailable => String::from_str(
                "required artifacts unavailable",
            ),
            ComputeBrokerError::DataClassChanged => String::from_str("data classification changed"),
            ComputeBrokerError::Canceled => String::from_str("run or task canceled"),
            ComputeBrokerError::SupervisorRequired => String::from_str(
                "RunSupervisor required: submit refused without supervisor",
            ),
            ComputeBrokerError::ResourceTooLarge => String::from_str(
                "resource request exceeds hard policy limits",
            ),
            ComputeBrokerError::UnknownAttempt => String::from_str("unknown attempt"),
            ComputeBrokerError::Dispatch(s) => text2("dispatch failed: ", s.as_str()),
            ComputeBrokerError::Persist(s) => text2("persistence failed: ", s.as_str()),
            ComputeBrokerError::Other(s) => s.clone(),
        }
    }
}

/// Why a placement keeps a job on the local node.
#[derive(Debug, Clone, Copy, PartialEq, Eq, Structural)]
pub enum LocalOnlyReason {
    /// Secret data never leaves the local node.
    SecretLocalOnly,
    /// No remote capability fits the job.
    CapabilityUnavailable,
    /// Any other reason the trust policy gave.
    Other,
}

/// The trust verdict of a placement, as far as the broker reads it.
#[derive(Debug, Clone)]
pub enum PlacementVerdict {
    /// Eligible (after redaction or not), with the first of its listed targets.
    Eligible { first_target: Option<String> },
    LocalOnly { reason: LocalOnlyReason },
    Denied,
}

/// The placement decision a request carries.
#[derive(Debug, Clone)]
pub struct PlacementDecisionReference {
    pub decision: PlacementVerdict,
    /// When it was issued, in ms since the Unix epoch.
    pub issued_at_ms: i64,
    /// When it expires, in ms since the Unix epoch.
    pub expires_at_ms: i64,
}

/// What the broker reads and writes of a compute request.
#[derive(Debug, Clone)]
pub struct ComputeRequest {
    /// The job kind's name, as error messages show it.
    pub job_kind: String,
    /// The job kind runs as a sandboxed process (index and test shards).
    pub process_class: bool,
    /// The request carries secret data.
    pub secret: bool,
    pub placement_decision: PlacementDecisionReference,
    /// The request is the speculative leg of a race.
    pub speculative: bool,
    /// The target the scheduler assigned (a worker id or the local node's id).
    pub target_worker_id: Option<String>,
    /// Ordered fallback targets (worker ids or `local`).
    pub fallback_order: Vec<String>,
    /// The scheduler decision this request follows.
    pub scheduler_decision_id: Option<String>,
    /// The scheduler decision id as the trace context carries it.
    pub trace_decision_id: Option<String>,
}

/// How a finished attempt ends: its reservation is released on success and
/// canceled on failure; its status is success, or the failure with its error
/// (`dispatch failed` when none was given).
pub fn finish_outcome(ok: bool, err: Option<String>) -> (r: (ReservationState, ComputeStatus))
    ensures
        ok ==> r.0 == ReservationState::Released && r.1 is Succeeded,
        !ok ==> r.0 == ReservationState::Canceled && (r.1 matches ComputeStatus::Failed { reason } && reason@ == match err {
            Some(e) => e@,
            None => "dispatch failed"@,
        }),
{
    if ok {
        (ReservationState::Released, ComputeStatus::Succeeded)
    } else {
        let reason = match err {
            Some(e) => e,
            None => String::from_str("dispatch failed"),
        };
        (ReservationState::Canceled, ComputeStatus::Failed { reason })
    }
}

/// How an attempt ends when it is canceled, or its worker is lost: its
/// reservation is canceled and its status names the reason.
pub fn cancel_outcome(reason: &CancellationReason) -> (r: (ReservationState, ComputeStatus))
    ensures
        r.0 == ReservationState::Canceled,
        r.1 matches ComputeStatus::Canceled { reason: s } && s@ == cancellation_text(*reason),
{
    let mut s = String::new();
    push_str(&mut s, reason.as_str());
    (ReservationState::Canceled, ComputeStatus::Canceled { reason: s })
}

} // verus!
