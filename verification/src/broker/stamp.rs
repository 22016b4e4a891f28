//! Writing a scheduler decision, or a single fallback hop, onto the requests
//! it routes: the compute request the broker admits and the routing metadata
//! of the chat request the inference pool runs.
use vstd::prelude::*;

use crate::broker::decision::{opt_target_view, SchedulerDecision};
use crate::broker::dispatch::{
    is_local_id, opt_view, registry_refusal, remote_target, revalidation, DispatchRefusal, RegistryAnswer,
};
use crate::broker::target::{label_of, ExecutionTargetId, TargetView};
use crate::broker::types::{ComputeRequest, LocalOnlyReason, PlacementVerdict};
use crate::text::views_of;

verus! {

/// How long a placement stamped from a scheduler decision stays valid: five minutes.
pub const PLACEMENT_TTL_MS: i64 = 300_000;

/// The labels of targets, in order.
pub open spec fn target_labels(ts: Seq<TargetView>) -> Seq<Seq<char>> {
    ts.map_values(|t: TargetView| label_of(t))
}

pub open spec fn targets_view(ts: Seq<ExecutionTargetId>) -> Seq<TargetView> {
    ts.map_values(|t: ExecutionTargetId| t@)
}

/// The label of an optional target.
pub open spec fn opt_label(t: Option<TargetView>) -> Option<Seq<char>> {
    match t {
        Some(x) => Some(label_of(x)),
        None => None,
    }
}

/// `p` is the placement a selection implies: eligible on the selected worker;
/// else local-only, because the data is secret or else for want of capability.
pub open spec fn placement_for(p: PlacementVerdict, selected: Option<TargetView>, secret: bool) -> bool {
    match selected {
        Some(TargetView::Worker(w)) => p matches PlacementVerdict::Eligible { first_target: Some(t) } && t@ == w,
        _ => p matches PlacementVerdict::LocalOnly { reason } && reason == (if secret {
            LocalOnlyReason::SecretLocalOnly
        } else {
            LocalOnlyReason::CapabilityUnavailable
        }),
    }
}

/// The labels of a list of targets.
pub fn labels_of(ts: &Vec<ExecutionTargetId>) -> (r: Vec<String>)
    ensures
        views_of(r@) == target_labels(targets_view(ts@)),
{
    let mut out: Vec<String> = Vec::new();
    let mut i: usize = 0;
    while i < ts.len()
        invariant
            i <= ts.len(),
            views_of(out@) == target_labels(targets_view(ts@)).take(i as int),
        decreases ts.len() - i,
    {
        let l = ts[i].as_label();
        proof {
            assert(target_labels(targets_view(ts@)).take(i + 1) =~= target_labels(targets_view(ts@)).take(
                i as int,
            ).push(l@));
        }
        out.push(l);
        assert(views_of(out@) =~= target_labels(targets_view(ts@)).take(i + 1));
        i = i + 1;
    }
    assert(target_labels(targets_view(ts@)).take(i as int) =~= target_labels(targets_view(ts@)));
    out
}

/// The placement a selection implies.
pub fn placement_for_selection(selected: Option<&ExecutionTargetId>, secret: bool) -> (p: PlacementVerdict)
    ensures
        placement_for(
            p,
            match selected {
                Some(t) => Some(t@),
                None => None,
            },
            secret,
        ),
{
    match selected {
        Some(ExecutionTargetId::Worker { worker_id }) => PlacementVerdict::Eligible { first_target: Some(worker_id.clone()) },
        _ => PlacementVerdict::LocalOnly {
            reason: if secret {
                LocalOnlyReason::SecretLocalOnly
            } else {
                LocalOnlyReason::CapabilityUnavailable
            },
        },
    }
}

fn label_opt(t: &Option<ExecutionTargetId>) -> (r: Option<String>)
    ensures
        opt_view(r) == opt_label(opt_target_view(*t)),
{
    match t {
        Some(x) => Some(x.as_label()),
        None => None,
    }
}

/// Follow a scheduler decision: record its id, its fallback labels and its
/// target, and re-issue the placement at `now_ms` for five minutes.
pub fn apply_scheduler_decision(req: &mut ComputeRequest, decision: &SchedulerDecision, now_ms: i64)
    requires
        now_ms <= i64::MAX - PLACEMENT_TTL_MS,
    ensures
        opt_view(final(req).scheduler_decision_id) == Some(decision@.decision_id),
        opt_view(final(req).trace_decision_id) == Some(decision@.decision_id),
        views_of(final(req).fallback_order@) == target_labels(decision@.fallback_order),
        opt_view(final(req).target_worker_id) == opt_label(decision@.selected_target),
        placement_for(final(req).placement_decision.decision, decision@.selected_target, old(req).secret),
        final(req).placement_decision.issued_at_ms == now_ms,
        final(req).placement_decision.expires_at_ms == now_ms + PLACEMENT_TTL_MS,
        final(req).job_kind == old(req).job_kind,
        final(req).process_class == old(req).process_class,
        final(req).secret == old(req).secret,
        final(req).speculative == old(req).speculative,
{
    let id = decision.decision_id.0.clone();
    req.scheduler_decision_id = Some(id.clone());
    req.trace_decision_id = Some(id);
    req.fallback_order = labels_of(&decision.fallback_order);
    assert(targets_view(decision.fallback_order@) == decision@.fallback_order);
    req.target_worker_id = label_opt(&decision.selected_target);
    req.placement_decision.decision = placement_for_selection(decision.selected_target.as_ref(), req.secret);
    req.placement_decision.issued_at_ms = now_ms;
    req.placement_decision.expires_at_ms = now_ms + PLACEMENT_TTL_MS;
}

/// Retarget an admitted request onto one fallback hop, re-issuing its placement
/// at `now_ms` for five minutes.
pub fn apply_execution_target(req: &mut ComputeRequest, target: &ExecutionTargetId, now_ms: i64)
    requires
        now_ms <= i64::MAX - PLACEMENT_TTL_MS,
    ensures
        opt_view(final(req).target_worker_id) == Some(label_of(target@)),
        placement_for(final(req).placement_decision.decision, Some(target@), old(req).secret),
        final(req).placement_decision.issued_at_ms == now_ms,
        final(req).placement_decision.expires_at_ms == now_ms + PLACEMENT_TTL_MS,
        final(req).fallback_order@ == old(req).fallback_order@,
        final(req).scheduler_decision_id == old(req).scheduler_decision_id,
        final(req).trace_decision_id == old(req).trace_decision_id,
        final(req).job_kind == old(req).job_kind,
        final(req).process_class == old(req).process_class,
        final(req).secret == old(req).secret,
        final(req).speculative == old(req).speculative,
{
    req.target_worker_id = Some(target.as_label());
    req.placement_decision.decision = placement_for_selection(Some(target), req.secret);
    req.placement_decision.issued_at_ms = now_ms;
    req.placement_decision.expires_at_ms = now_ms + PLACEMENT_TTL_MS;
}

/// The routing a chat request carries for the fabric.
#[derive(Debug, Clone)]
pub struct FabricRouting {
    /// The target to try first.
    pub preferred_target: Option<String>,
    /// The targets to fall back on, in order.
    pub fallback_order: Vec<String>,
    pub scheduler_decision_id: Option<String>,
    /// The scheduler decision id as the trace context carries it.
    pub trace_decision_id: Option<String>,
}

impl Default for FabricRouting {
    fn default() -> (r: Self)
        ensures
            r.preferred_target is None,
            r.fallback_order@.len() == 0,
            r.scheduler_decision_id is None,
            r.trace_decision_id is None,
    {
        FabricRouting { preferred_target: None, fallback_order: Vec::new(), scheduler_decision_id: None, trace_decision_id: None }
    }
}

fn routing_or_default(fabric: &mut Option<FabricRouting>) -> (m: FabricRouting)
    ensures
        match *old(fabric) {
            Some(o) => m == o,
            None => m.preferred_target is None && m.fallback_order@.len() == 0 && m.scheduler_decision_id is None
                && m.trace_decision_id is None,
        },
{
    let mut cur: Option<FabricRouting> = None;
    std::mem::swap(&mut cur, fabric);
    match cur {
        Some(m) => m,
        None => FabricRouting::default(),
    }
}

/// Route a chat request as a scheduler decision says: its selected target
/// first, then its fallback order.
pub fn stamp_fabric_preferred(fabric: &mut Option<FabricRouting>, decision: &SchedulerDecision)
    ensures
        *final(fabric) matches Some(m) && opt_view(m.preferred_target) == opt_label(decision@.selected_target)
            && views_of(m.fallback_order@) == target_labels(decision@.fallback_order)
            && opt_view(m.scheduler_decision_id) == Some(decision@.decision_id)
            && opt_view(m.trace_decision_id) == Some(decision@.decision_id),
{
    let mut m = routing_or_default(fabric);
    m.preferred_target = label_opt(&decision.selected_target);
    m.fallback_order = labels_of(&decision.fallback_order);
    assert(targets_view(decision.fallback_order@) == decision@.fallback_order);
    let id = decision.decision_id.0.clone();
    m.scheduler_decision_id = Some(id.clone());
    m.trace_decision_id = Some(id);
    *fabric = Some(m);
}

/// Route a chat request to one hop only, so the pool does not walk the whole
/// list again; the decision id, when given, is recorded too.
pub fn stamp_fabric_single_target(fabric: &mut Option<FabricRouting>, target: &ExecutionTargetId, decision_id: Option<&str>)
    ensures
        *final(fabric) matches Some(m) && opt_view(m.preferred_target) == Some(label_of(target@))
            && views_of(m.fallback_order@) == seq![label_of(target@)] && match decision_id {
            Some(id) => opt_view(m.scheduler_decision_id) == Some(id@) && opt_view(m.trace_decision_id) == Some(id@),
            None => match *old(fabric) {
                Some(o) => m.scheduler_decision_id == o.scheduler_decision_id && m.trace_decision_id
                    == o.trace_decision_id,
                None => m.scheduler_decision_id is None && m.trace_decision_id is None,
            },
        },
{
    let mut m = routing_or_default(fabric);
    let label = target.as_label();
    m.preferred_target = Some(label.clone());
    let mut order: Vec<String> = Vec::new();
    order.push(label);
    m.fallback_order = order;
    assert(views_of(m.fallback_order@) =~= seq![label_of(target@)]);
    if let Some(id) = decision_id {
        m.scheduler_decision_id = Some(String::from_str(id));
        m.trace_decision_id = Some(String::from_str(id));
    }
    *fabric = Some(m);
}

/// A request stamped for worker `w` is, while its placement lives, dispatched
/// to `w` exactly when the registry holds `w` eligible for the job kind; with
/// no registry it is refused as stale.
pub proof fn lemma_stamped_worker_dispatch(req: ComputeRequest, w: Seq<char>, registry: Option<RegistryAnswer>, now: i64)
    requires
        opt_view(req.target_worker_id) == opt_label(Some(TargetView::Worker(w))),
        placement_for(req.placement_decision.decision, Some(TargetView::Worker(w)), req.secret),
        !is_local_id(w),
        !req.process_class,
        now < req.placement_decision.expires_at_ms,
    ensures
        remote_target(req) == Some(w),
        revalidation(req, registry, now) == match registry {
            None => Some(DispatchRefusal::CapabilityStale {
                worker_id: w,
                detail: "no capability registry for remote dispatch"@,
            }),
            Some(a) => registry_refusal(w, req.job_kind@, a),
        },
{
}

/// A request stamped for the local node, or for no target, is dispatched
/// while its placement lives, whatever the registry says, unless it is a
/// process-class job that now names the local node.
pub proof fn lemma_stamped_local_dispatch(req: ComputeRequest, selected: Option<TargetView>, registry: Option<RegistryAnswer>, now: i64)
    requires
        !(selected is Some && selected->0 is Worker),
        opt_view(req.target_worker_id) == opt_label(selected),
        placement_for(req.placement_decision.decision, selected, req.secret),
        !(req.process_class && selected is Some),
        now < req.placement_decision.expires_at_ms,
    ensures
        revalidation(req, registry, now) is None,
{
}

} // verus!
