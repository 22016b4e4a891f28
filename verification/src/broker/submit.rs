//! Submission of a compute request: the checks before admission, and what the
//! broker records and answers for each admission verdict. The admission
//! controller itself is the host's.
use vstd::prelude::*;

use crate::broker::dispatch::validate_request;
use crate::broker::metrics::AdmissionMetrics;
use crate::broker::types::{ComputeBrokerError, ComputeRequest, ComputeStatus};
use crate::text::push_str;

verus! {

/// Check a request before admission: the placement and speculation checks of
/// `validate_request`, then a run supervisor must be installed.
pub fn submit_precheck(req: &ComputeRequest, supports_speculation: bool, has_supervisor: bool, now_ms: i64) -> (r: Result<(), ComputeBrokerError>)
    ensures
        (req.placement_decision.decision is Denied || req.placement_decision.expires_at_ms <= now_ms) ==> r matches Err(
            ComputeBrokerError::PlacementExpired,
        ),
        !(req.placement_decision.decision is Denied || req.placement_decision.expires_at_ms <= now_ms)
            && req.speculative && !supports_speculation ==> (r matches Err(ComputeBrokerError::Other(s)) && s@
            == "job kind does not support speculation"@),
        !(req.placement_decision.decision is Denied || req.placement_decision.expires_at_ms <= now_ms)
            && !(req.speculative && !supports_speculation) && !has_supervisor ==> r matches Err(
            ComputeBrokerError::SupervisorRequired,
        ),
        !(req.placement_decision.decision is Denied || req.placement_decision.expires_at_ms <= now_ms)
            && !(req.speculative && !supports_speculation) && has_supervisor ==> r is Ok,
{
    match validate_request(req, supports_speculation, now_ms) {
        Err(e) => return Err(e),
        Ok(()) => {},
    }
    if !has_supervisor {
        return Err(ComputeBrokerError::SupervisorRequired);
    }
    Ok(())
}

/// What admission decided for a request.
#[derive(Debug)]
pub enum AdmissionVerdict {
    /// Admitted, with the reservation made for it.
    Admitted { reservation_id: String },
    Queued,
    /// Rejected, with the reason's name and a message.
    Rejected { reason: String, message: String },
}

/// The text of a rejection: `reason: message`.
pub open spec fn rejection_text(reason: Seq<char>, message: Seq<char>) -> Seq<char> {
    reason + ": "@ + message
}

/// Count an admission verdict and give the attempt's status with the answer
/// to the caller: the reservation id when admitted, none when queued, the
/// rejection as an error.
pub fn submit_outcome(metrics: &mut AdmissionMetrics, v: AdmissionVerdict) -> (r: (ComputeStatus, Result<Option<String>, ComputeBrokerError>))
    ensures
        match v {
            AdmissionVerdict::Admitted { reservation_id } => {
                &&& *final(metrics) == (AdmissionMetrics { admitted: old(metrics).admitted.wrapping_add(1), ..*old(metrics) })
                &&& r.0 is Reserved
                &&& r.1 matches Ok(Some(id)) && id@ == reservation_id@
            },
            AdmissionVerdict::Queued => {
                &&& *final(metrics) == (AdmissionMetrics { queued: old(metrics).queued.wrapping_add(1), ..*old(metrics) })
                &&& r.0 is Queued
                &&& r.1 matches Ok(None)
            },
            AdmissionVerdict::Rejected { reason, message } => {
                &&& *final(metrics) == (AdmissionMetrics { rejected: old(metrics).rejected.wrapping_add(1), ..*old(metrics) })
                &&& r.0 matches ComputeStatus::Rejected { reason: s } && s@ == rejection_text(reason@, message@)
                &&& r.1 matches Err(ComputeBrokerError::AdmissionRejected(s)) && s@ == rejection_text(reason@, message@)
            },
        },
{
    match v {
        AdmissionVerdict::Admitted { reservation_id } => {
            metrics.record_admitted();
            (ComputeStatus::Reserved, Ok(Some(reservation_id)))
        },
        AdmissionVerdict::Queued => {
            metrics.record_queued();
            (ComputeStatus::Queued, Ok(None))
        },
        AdmissionVerdict::Rejected { reason, message } => {
            metrics.record_rejected();
            let mut s = String::new();
            push_str(&mut s, reason.as_str());
            push_str(&mut s, ": ");
            push_str(&mut s, message.as_str());
            let t = s.clone();
            (ComputeStatus::Rejected { reason: s }, Err(ComputeBrokerError::AdmissionRejected(t)))
        },
    }
}

} // verus!
