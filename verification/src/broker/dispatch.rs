//! Revalidation of a compute request just before it is dispatched: the
//! placement must still hold, process-class jobs never go to a worker, and a
//! remote worker must still be eligible in the capability registry.
use vstd::prelude::*;

use crate::broker::target::{parse_target_label, target_of_label, ExecutionTargetId};
use crate::broker::types::{ComputeBrokerError, ComputeRequest, PlacementVerdict};
use crate::text::push_str;

verus! {

/// A worker's standing in the capability registry.
#[derive(Debug, Clone, Copy, PartialEq, Eq, Structural)]
pub enum WorkerSchedulingState {
    Eligible,
    Expired,
    Degraded,
    Quarantined,
    Draining,
    NotCached,
}

/// What the capability registry says of the dispatch target.
#[derive(Debug, Clone, Copy, PartialEq, Eq, Structural)]
pub struct RegistryAnswer {
    pub state: WorkerSchedulingState,
    /// Whether the worker's cached capabilities support the job kind; `None`
    /// when no capabilities are cached.
    pub supports_kind: Option<bool>,
}

/// A worker id that stands for the local node.
pub open spec fn is_local_id(id: Seq<char>) -> bool {
    target_of_label(id) is Local
}

/// Whether `id` names the local node rather than an enrolled worker.
pub fn is_local_worker_id(id: &str) -> (r: bool)
    ensures
        r == is_local_id(id@),
{
    match parse_target_label(id) {
        ExecutionTargetId::Local => true,
        ExecutionTargetId::Worker { .. } => false,
    }
}

pub open spec fn opt_view(o: Option<String>) -> Option<Seq<char>> {
    match o {
        Some(s) => Some(s@),
        None => None,
    }
}

/// The target exactly as the request names it: its own target, else the
/// placement's first eligible target.
pub open spec fn named_target(req: ComputeRequest) -> Option<Seq<char>> {
    match req.target_worker_id {
        Some(id) => Some(id@),
        None => match req.placement_decision.decision {
            PlacementVerdict::Eligible { first_target } => opt_view(first_target),
            _ => None,
        },
    }
}

/// The remote worker the request goes to: the named target unless it names the local node.
pub open spec fn remote_target(req: ComputeRequest) -> Option<Seq<char>> {
    match named_target(req) {
        Some(id) => if is_local_id(id) { None } else { Some(id) },
        None => None,
    }
}

fn copy_opt(o: &Option<String>) -> (r: Option<String>)
    ensures
        opt_view(r) == opt_view(*o),
{
    match o {
        Some(s) => Some(s.clone()),
        None => None,
    }
}

/// The target as the request names it, with no local-node filtering.
pub fn requested_target(req: &ComputeRequest) -> (r: Option<String>)
    ensures
        opt_view(r) == named_target(*req),
{
    match &req.target_worker_id {
        Some(id) => Some(id.clone()),
        None => match &req.placement_decision.decision {
            PlacementVerdict::Eligible { first_target } => copy_opt(first_target),
            _ => None,
        },
    }
}

/// The remote worker the request is dispatched to, if any.
pub fn target_worker_id(req: &ComputeRequest) -> (r: Option<String>)
    ensures
        opt_view(r) == remote_target(*req),
{
    match requested_target(req) {
        Some(id) => if is_local_worker_id(id.as_str()) { None } else { Some(id) },
        None => None,
    }
}

/// Why a request may not be dispatched.
pub enum DispatchRefusal {
    PlacementExpired,
    WorkerTargetRefused { job_kind: Seq<char>, worker_id: Seq<char> },
    CapabilityStale { worker_id: Seq<char>, detail: Seq<char> },
}

/// `e` is the broker error for refusal `x`.
pub open spec fn error_is(e: ComputeBrokerError, x: DispatchRefusal) -> bool {
    match x {
        DispatchRefusal::PlacementExpired => e is PlacementExpired,
        DispatchRefusal::WorkerTargetRefused { job_kind, worker_id } => e matches ComputeBrokerError::WorkerTargetRefused {
            job_kind: k,
            worker_id: w,
        } && k@ == job_kind && w@ == worker_id,
        DispatchRefusal::CapabilityStale { worker_id, detail } => e matches ComputeBrokerError::CapabilityStale {
            worker_id: w,
            detail: d,
        } && w@ == worker_id && d@ == detail,
    }
}

/// What the registry's answer means for a dispatch to `worker`.
pub open spec fn registry_refusal(worker: Seq<char>, job_kind: Seq<char>, a: RegistryAnswer) -> Option<DispatchRefusal> {
    match a.state {
        WorkerSchedulingState::Eligible => match a.supports_kind {
            None => Some(DispatchRefusal::CapabilityStale { worker_id: worker, detail: "worker capabilities not cached"@ }),
            Some(false) => Some(DispatchRefusal::WorkerTargetRefused { job_kind, worker_id: worker }),
            Some(true) => None,
        },
        WorkerSchedulingState::Expired => Some(DispatchRefusal::CapabilityStale { worker_id: worker, detail: "capability advertisement expired"@ }),
        WorkerSchedulingState::Degraded => Some(DispatchRefusal::CapabilityStale { worker_id: worker, detail: "dynamic capacity expired or worker degraded"@ }),
        WorkerSchedulingState::Quarantined => Some(DispatchRefusal::CapabilityStale { worker_id: worker, detail: "worker quarantined"@ }),
        WorkerSchedulingState::Draining => Some(DispatchRefusal::CapabilityStale { worker_id: worker, detail: "worker draining"@ }),
        WorkerSchedulingState::NotCached => Some(DispatchRefusal::CapabilityStale { worker_id: worker, detail: "worker capabilities not cached"@ }),
    }
}

/// The refusal for a request at `now`, given the registry's answer for its
/// remote target (`None` when no registry is held): an expired or denied
/// placement; a process-class job that names any target; a remote target with
/// no registry, or one the registry does not hold eligible for the job kind.
pub open spec fn revalidation(req: ComputeRequest, registry: Option<RegistryAnswer>, now: i64) -> Option<DispatchRefusal> {
    if req.placement_decision.expires_at_ms <= now || req.placement_decision.decision is Denied {
        Some(DispatchRefusal::PlacementExpired)
    } else if req.process_class && named_target(req) is Some {
        Some(DispatchRefusal::WorkerTargetRefused { job_kind: req.job_kind@, worker_id: named_target(req)->0 })
    } else {
        match remote_target(req) {
            None => None,
            Some(w) => match registry {
                None => Some(DispatchRefusal::CapabilityStale { worker_id: w, detail: "no capability registry for remote dispatch"@ }),
                Some(a) => registry_refusal(w, req.job_kind@, a),
            },
        }
    }
}

fn stale(worker: &String, detail: &str) -> (e: ComputeBrokerError)
    ensures
        e matches ComputeBrokerError::CapabilityStale { worker_id: w, detail: d } && w@ == worker@ && d@ == detail@,
{
    let mut d = String::new();
    push_str(&mut d, detail);
    ComputeBrokerError::CapabilityStale { worker_id: worker.clone(), detail: d }
}

/// A process-class job is refused on any named target.
pub fn refuse_process_on_worker_target(req: &ComputeRequest, worker_id: &String) -> (r: Result<(), ComputeBrokerError>)
    ensures
        req.process_class ==> (r matches Err(e) && error_is(e, DispatchRefusal::WorkerTargetRefused {
            job_kind: req.job_kind@,
            worker_id: worker_id@,
        })),
        !req.process_class ==> r is Ok,
{
    if req.process_class {
        return Err(ComputeBrokerError::WorkerTargetRefused { job_kind: req.job_kind.clone(), worker_id: worker_id.clone() });
    }
    Ok(())
}

/// Re-check placement expiry and, for a remote target, the registry's view of
/// it. `registry` is the registry's answer for `target_worker_id(req)`, or
/// `None` when no registry is held.
pub fn revalidate_before_dispatch(req: &ComputeRequest, registry: Option<RegistryAnswer>, now_ms: i64) -> (r: Result<(), ComputeBrokerError>)
    ensures
        match revalidation(*req, registry, now_ms) {
            None => r is Ok,
            Some(x) => r matches Err(e) && error_is(e, x),
        },
{
    if req.placement_decision.expires_at_ms <= now_ms {
        return Err(ComputeBrokerError::PlacementExpired);
    }
    if let PlacementVerdict::Denied = req.placement_decision.decision {
        return Err(ComputeBrokerError::PlacementExpired);
    }
    if let Some(named) = requested_target(req) {
        if let Err(e) = refuse_process_on_worker_target(req, &named) {
            return Err(e);
        }
    }
    let worker = match target_worker_id(req) {
        Some(w) => w,
        None => return Ok(()),
    };
    let answer = match registry {
        Some(a) => a,
        None => return Err(stale(&worker, "no capability registry for remote dispatch")),
    };
    match answer.state {
        WorkerSchedulingState::Eligible => match answer.supports_kind {
            None => Err(stale(&worker, "worker capabilities not cached")),
            Some(false) => Err(ComputeBrokerError::WorkerTargetRefused { job_kind: req.job_kind.clone(), worker_id: worker }),
            Some(true) => Ok(()),
        },
        WorkerSchedulingState::Expired => Err(stale(&worker, "capability advertisement expired")),
        WorkerSchedulingState::Degraded => Err(stale(&worker, "dynamic capacity expired or worker degraded")),
        WorkerSchedulingState::Quarantined => Err(stale(&worker, "worker quarantined")),
        WorkerSchedulingState::Draining => Err(stale(&worker, "worker draining")),
        WorkerSchedulingState::NotCached => Err(stale(&worker, "worker capabilities not cached")),
    }
}

/// A process-class job passes revalidation only when it names no target at
/// all: it is never sent to a worker, nor to a worker named like the local node.
pub proof fn lemma_process_class_never_targeted(req: ComputeRequest, registry: Option<RegistryAnswer>, now: i64)
    requires
        req.process_class,
        revalidation(req, registry, now) is None,
    ensures
        named_target(req) is None,
        remote_target(req) is None,
{
}

/// A request goes to a remote worker only while its placement is live and the
/// registry holds that worker eligible for the job kind.
pub proof fn lemma_remote_dispatch_needs_eligible_worker(req: ComputeRequest, registry: Option<RegistryAnswer>, now: i64)
    requires
        revalidation(req, registry, now) is None,
        remote_target(req) is Some,
    ensures
        now < req.placement_decision.expires_at_ms,
        !(req.placement_decision.decision is Denied),
        registry matches Some(a) && a.state == WorkerSchedulingState::Eligible && a.supports_kind == Some(true),
{
}

/// A request whose placement is live and that names no remote worker is
/// dispatched whatever the registry says, unless it is a process-class job
/// naming the local node.
pub proof fn lemma_local_dispatch_ignores_registry(req: ComputeRequest, registry: Option<RegistryAnswer>, now: i64)
    requires
        now < req.placement_decision.expires_at_ms,
        !(req.placement_decision.decision is Denied),
        remote_target(req) is None,
        !(req.process_class && named_target(req) is Some),
    ensures
        revalidation(req, registry, now) is None,
{
}

/// Checks at submission: the placement must still hold, and a speculative leg
/// needs a job kind whose profile allows speculation (`supports_speculation`).
pub fn validate_request(req: &ComputeRequest, supports_speculation: bool, now_ms: i64) -> (r: Result<(), ComputeBrokerError>)
    ensures
        (req.placement_decision.decision is Denied || req.placement_decision.expires_at_ms <= now_ms) ==> r matches Err(
            ComputeBrokerError::PlacementExpired,
        ),
        !(req.placement_decision.decision is Denied || req.placement_decision.expires_at_ms <= now_ms) && req.speculative && !supports_speculation
            ==> (r matches Err(ComputeBrokerError::Other(s)) && s@ == "job kind does not support speculation"@),
        !(req.placement_decision.decision is Denied || req.placement_decision.expires_at_ms <= now_ms) && !(req.speculative && !supports_speculation)
            ==> r is Ok,
{
    if let PlacementVerdict::Denied = req.placement_decision.decision {
        return Err(ComputeBrokerError::PlacementExpired);
    }
    if req.placement_decision.expires_at_ms <= now_ms {
        return Err(ComputeBrokerError::PlacementExpired);
    }
    if req.speculative && !supports_speculation {
        return Err(ComputeBrokerError::Other(String::from_str("job kind does not support speculation")));
    }
    Ok(())
}

} // verus!
