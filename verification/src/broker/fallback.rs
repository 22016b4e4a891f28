//! What to do after a remote attempt fails, by class of failure, and which
//! target comes next in a fallback order.
use vstd::prelude::*;

use crate::broker::target::{labels_to_targets, parse_target_label, target_of_label, ExecutionTargetId, TargetView};
use crate::text::{chars_of, contains, contains_chars, lower, lower_chars};

verus! {

#[derive(Debug, Clone, Copy, PartialEq, Eq, Structural)]
pub enum FallbackFailureClass {
    RemoteRejectBeforeStart,
    TransientTransport,
    WorkerLoss,
    PermanentPolicy,
    LocalExhaustion,
    CapabilityExpired,
    TrustDowngraded,
}

#[derive(Debug, Clone, PartialEq, Eq, Structural)]
pub enum FallbackAction {
    /// Try next eligible remote, else local if admitted.
    NextEligibleOrLocal,
    /// Bounded retry same worker, then next, then local.
    RetryThenNextThenLocal { max_same_worker: u32 },
    /// New attempt; never accept superseded result.
    NewAttemptAfterLeaseExpire,
    /// Do not retry same invalid placement.
    FailExplicit,
    /// Queue locally within deadline or remote if eligible.
    QueueLocalOrRemoteOrReject,
}

/// A failure reported by a remote inference attempt.
#[derive(Debug, Clone)]
pub enum InferenceError {
    WorkerBusy,
    Preempted { node_id: String },
    Egress(String),
    IncompleteStream,
    StreamTimeout,
    GpuSpillDetected,
    SecretScanFailed { reason: String },
    RemoteSecretDenied { reason: String },
    Decode(String),
    Provider(String),
}

pub open spec fn action_for(class: FallbackFailureClass) -> FallbackAction {
    match class {
        FallbackFailureClass::RemoteRejectBeforeStart
        | FallbackFailureClass::CapabilityExpired
        | FallbackFailureClass::TrustDowngraded => FallbackAction::NextEligibleOrLocal,
        FallbackFailureClass::TransientTransport => FallbackAction::RetryThenNextThenLocal {
            max_same_worker: 1,
        },
        FallbackFailureClass::WorkerLoss => FallbackAction::NewAttemptAfterLeaseExpire,
        FallbackFailureClass::PermanentPolicy => FallbackAction::FailExplicit,
        FallbackFailureClass::LocalExhaustion => FallbackAction::QueueLocalOrRemoteOrReject,
    }
}

pub fn fallback_action(class: FallbackFailureClass) -> (r: FallbackAction)
    ensures
        r == action_for(class),
{
    match class {
        FallbackFailureClass::RemoteRejectBeforeStart
        | FallbackFailureClass::CapabilityExpired
        | FallbackFailureClass::TrustDowngraded => FallbackAction::NextEligibleOrLocal,
        FallbackFailureClass::TransientTransport => {
            FallbackAction::RetryThenNextThenLocal { max_same_worker: 1 }
        },
        FallbackFailureClass::WorkerLoss => FallbackAction::NewAttemptAfterLeaseExpire,
        FallbackFailureClass::PermanentPolicy => FallbackAction::FailExplicit,
        FallbackFailureClass::LocalExhaustion => FallbackAction::QueueLocalOrRemoteOrReject,
    }
}

/// Class of a free-text provider failure, read from its lowercased text;
/// earlier keyword groups win.
pub open spec fn provider_class(m: Seq<char>) -> FallbackFailureClass {
    if contains(m, "secret"@) || contains(m, "denied"@) || contains(m, "policy"@) || contains(
        m,
        "placement denied"@,
    ) {
        FallbackFailureClass::PermanentPolicy
    } else if contains(m, "trust"@) || contains(m, "revok"@) {
        FallbackFailureClass::TrustDowngraded
    } else if contains(m, "failover hop ineligible"@) || contains(m, "expired"@) || contains(
        m,
        "capability"@,
    ) {
        FallbackFailureClass::CapabilityExpired
    } else if contains(m, "busy"@) || contains(m, "queue full"@) || contains(m, "draining"@)
        || contains(m, "reject"@) {
        FallbackFailureClass::RemoteRejectBeforeStart
    } else if contains(m, "worker lost"@) || contains(m, "worker_lost"@) || contains(
        m,
        "connection reset"@,
    ) {
        FallbackFailureClass::WorkerLoss
    } else {
        FallbackFailureClass::TransientTransport
    }
}

pub open spec fn error_class(e: InferenceError) -> FallbackFailureClass {
    match e {
        InferenceError::WorkerBusy => FallbackFailureClass::RemoteRejectBeforeStart,
        InferenceError::Preempted { .. } => FallbackFailureClass::WorkerLoss,
        InferenceError::Egress(_) => FallbackFailureClass::TransientTransport,
        InferenceError::IncompleteStream | InferenceError::StreamTimeout => {
            FallbackFailureClass::TransientTransport
        },
        InferenceError::GpuSpillDetected => FallbackFailureClass::LocalExhaustion,
        InferenceError::SecretScanFailed { .. } | InferenceError::RemoteSecretDenied { .. } => {
            FallbackFailureClass::PermanentPolicy
        },
        InferenceError::Decode(_) => FallbackFailureClass::PermanentPolicy,
        InferenceError::Provider(msg) => provider_class(lower(msg@)),
    }
}

fn has(m: &[char], word: &str) -> (r: bool)
    ensures
        r == contains(m@, word@),
{
    let w = chars_of(word);
    contains_chars(m, w.as_slice())
}

/// Class of a provider failure message.
pub fn classify_provider_message(msg: &str) -> (r: FallbackFailureClass)
    ensures
        r == provider_class(lower(msg@)),
{
    let raw = chars_of(msg);
    let m = lower_chars(raw.as_slice());
    let m = m.as_slice();
    if has(m, "secret") || has(m, "denied") || has(m, "policy") || has(m, "placement denied") {
        FallbackFailureClass::PermanentPolicy
    } else if has(m, "trust") || has(m, "revok") {
        FallbackFailureClass::TrustDowngraded
    } else if has(m, "failover hop ineligible") || has(m, "expired") || has(m, "capability") {
        FallbackFailureClass::CapabilityExpired
    } else if has(m, "busy") || has(m, "queue full") || has(m, "draining") || has(m, "reject") {
        FallbackFailureClass::RemoteRejectBeforeStart
    } else if has(m, "worker lost") || has(m, "worker_lost") || has(m, "connection reset") {
        FallbackFailureClass::WorkerLoss
    } else {
        FallbackFailureClass::TransientTransport
    }
}

/// Map a remote inference failure into a fallback class for `fallback_action`.
pub fn classify_inference_error(err: &InferenceError) -> (r: FallbackFailureClass)
    ensures
        r == error_class(*err),
{
    match err {
        InferenceError::WorkerBusy => FallbackFailureClass::RemoteRejectBeforeStart,
        InferenceError::Preempted { .. } => FallbackFailureClass::WorkerLoss,
        InferenceError::Egress(_) => FallbackFailureClass::TransientTransport,
        InferenceError::IncompleteStream | InferenceError::StreamTimeout => {
            FallbackFailureClass::TransientTransport
        },
        InferenceError::GpuSpillDetected => FallbackFailureClass::LocalExhaustion,
        InferenceError::SecretScanFailed { .. } | InferenceError::RemoteSecretDenied { .. } => {
            FallbackFailureClass::PermanentPolicy
        },
        InferenceError::Decode(_) => FallbackFailureClass::PermanentPolicy,
        InferenceError::Provider(msg) => classify_provider_message(msg.as_str()),
    }
}

/// Index of the first element equal to `x`, or -1.
pub open spec fn first_index_of<A>(s: Seq<A>, x: A) -> int
    decreases s.len(),
{
    if s.len() == 0 {
        -1
    } else if s.last() == x {
        let r = first_index_of(s.drop_last(), x);
        if r >= 0 {
            r
        } else {
            s.len() - 1
        }
    } else {
        first_index_of(s.drop_last(), x)
    }
}

pub proof fn lemma_first_index_of<A>(s: Seq<A>, x: A)
    ensures
        -1 <= first_index_of(s, x) < s.len(),
        first_index_of(s, x) >= 0 ==> s[first_index_of(s, x)] == x,
        forall|j: int| 0 <= j < s.len() && (first_index_of(s, x) < 0 || j < first_index_of(s, x))
            ==> s[j] != x,
    decreases s.len(),
{
    if s.len() > 0 {
        let t = s.drop_last();
        lemma_first_index_of(t, x);
        let f = first_index_of(s, x);
        assert forall|j: int| 0 <= j < s.len() && (f < 0 || j < f) implies s[j] != x by {
            if j < t.len() {
                assert(s[j] == t[j]);
            }
        }
    }
}

/// The target after the first occurrence of `failed` in `order`, if any.
pub open spec fn next_after(order: Seq<TargetView>, failed: TargetView) -> Option<TargetView> {
    let i = first_index_of(order, failed);
    if 0 <= i && i + 1 < order.len() {
        Some(order[i + 1])
    } else {
        None
    }
}

pub open spec fn views(order: Seq<ExecutionTargetId>) -> Seq<TargetView> {
    order.map_values(|t: ExecutionTargetId| t@)
}

/// Pick the next target from an ordered fallback list after `failed`.
pub fn next_fallback(order: &[ExecutionTargetId], failed: &ExecutionTargetId) -> (r: Option<
    ExecutionTargetId,
>)
    ensures
        match r {
            Some(t) => next_after(views(order@), failed@) == Some(t@),
            None => next_after(views(order@), failed@) is None,
        },
{
    let ghost vs = views(order@);
    proof {
        lemma_first_index_of(vs, failed@);
    }
    let mut seen = false;
    let mut i: usize = 0;
    while i < order.len()
        invariant
            i <= order.len(),
            vs == views(order@),
            vs.len() == order@.len(),
            -1 <= first_index_of(vs, failed@) < vs.len(),
            first_index_of(vs, failed@) >= 0 ==> vs[first_index_of(vs, failed@)] == failed@,
            forall|j: int| 0 <= j < vs.len() && (first_index_of(vs, failed@) < 0 || j < first_index_of(vs, failed@))
                ==> vs[j] != failed@,
            seen <==> (0 <= first_index_of(vs, failed@) < i),
            seen ==> first_index_of(vs, failed@) == i - 1,
        decreases order.len() - i,
    {
        if seen {
            return Some(order[i].duplicate());
        }
        if order[i].same(failed) {
            assert(vs[i as int] == failed@);
            seen = true;
        } else {
            assert(vs[i as int] != failed@);
        }
        i = i + 1;
    }
    None
}

/// The targets a fallback list of labels names, in order.
pub open spec fn label_targets(labels: Seq<String>) -> Seq<TargetView> {
    labels.map_values(|l: String| target_of_label(l@))
}

/// An attempt whose worker was lost continues elsewhere when it is not secret,
/// is an inference job, and its fallback order names a target after the lost worker.
pub open spec fn continues_after_loss(secret: bool, infer: bool, order: Seq<String>, worker_id: Seq<char>) -> bool {
    !secret && infer && next_after(label_targets(order), target_of_label(worker_id)) is Some
}

/// Whether an attempt on a lost worker continues on its next fallback target.
pub fn continues_after_worker_loss(secret: bool, infer: bool, fallback_order: &[String], worker_id: &str) -> (r: bool)
    ensures
        r == continues_after_loss(secret, infer, fallback_order@, worker_id@),
{
    if secret || !infer {
        return false;
    }
    let failed = parse_target_label(worker_id);
    let order = labels_to_targets(fallback_order);
    assert(views(order@) =~= label_targets(fallback_order@));
    next_fallback(order.as_slice(), &failed).is_some()
}

} // verus!
