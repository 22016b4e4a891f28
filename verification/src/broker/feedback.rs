//! What the broker learns from a scheduler decision: the counters it bumps
//! when the decision is taken, and the prediction error once the attempt ran.
use vstd::prelude::*;

use crate::broker::decision::{CandidateView, DecisionView, SchedulerDecision, SchedulerReason};
use crate::broker::metrics::SchedulerMetrics;
use crate::broker::speculate::{find_candidate, first_candidate};
use crate::broker::target::{ExecutionTargetId, TargetView};

verus! {

/// The estimate the decision made for target `t`: that of its first candidate, else 0.
pub open spec fn predicted_ms(d: DecisionView, t: TargetView) -> u64 {
    let i = first_candidate(d.candidates, t);
    if i >= 0 {
        d.candidates[i].estimated_finish_ms
    } else {
        0
    }
}

/// Whether the first candidate for `t` assumed a cold start.
pub open spec fn predicted_cold(d: DecisionView, t: TargetView) -> bool {
    let i = first_candidate(d.candidates, t);
    i >= 0 && d.candidates[i].cold_start
}

pub open spec fn abs_diff(a: u64, b: u64) -> u64 {
    if a >= b {
        (a - b) as u64
    } else {
        (b - a) as u64
    }
}

/// What a finished attempt teaches the calibration of its selected target.
pub struct PredictionFeedback {
    pub target: ExecutionTargetId,
    /// The estimate assumed a cold start.
    pub cold_start: bool,
    /// |actual - predicted| in ms.
    pub abs_error_ms: u64,
}

/// Record how far the decision's estimate for its selected target was from the
/// measured `actual_ms`, and hand back what the calibration of that target
/// learns. A decision with no selected target records nothing.
pub fn record_prediction_feedback(metrics: &mut SchedulerMetrics, decision: &SchedulerDecision, actual_ms: u64) -> (r: Option<PredictionFeedback>)
    ensures
        match decision@.selected_target {
            None => r is None && *final(metrics) == *old(metrics),
            Some(t) => r matches Some(f) && f.target@ == t && f.cold_start == predicted_cold(decision@, t)
                && f.abs_error_ms == abs_diff(actual_ms, predicted_ms(decision@, t)) && *final(metrics)
                == (SchedulerMetrics {
                prediction_error_abs_sum_ms: old(metrics).prediction_error_abs_sum_ms.wrapping_add(
                    abs_diff(actual_ms, predicted_ms(decision@, t)),
                ),
                prediction_samples: old(metrics).prediction_samples.wrapping_add(1),
                ..*old(metrics)
            }),
        },
{
    let selected = match &decision.selected_target {
        Some(t) => t,
        None => return None,
    };
    let (predicted, cold) = match find_candidate(decision, selected) {
        Some(i) => {
            assert(decision@.candidates[i as int] == decision.candidates@[i as int]@);
            (decision.candidates[i].estimated_finish_ms, decision.candidates[i].cold_start)
        },
        None => (0, false),
    };
    let abs_err: u64 = if actual_ms >= predicted {
        actual_ms - predicted
    } else {
        predicted - actual_ms
    };
    metrics.record_prediction_error(abs_err);
    Some(PredictionFeedback { target: selected.duplicate(), cold_start: cold, abs_error_ms: abs_err })
}

/// The deepest queue among the candidates, if there is any candidate.
pub open spec fn max_queue_depth(cs: Seq<CandidateView>) -> Option<u64>
    decreases cs.len(),
{
    if cs.len() == 0 {
        None
    } else {
        let d = cs.last().queue_depth as u64;
        match max_queue_depth(cs.drop_last()) {
            None => Some(d),
            Some(m) => Some(if m >= d { m } else { d }),
        }
    }
}

/// The counters after a decision: one decision more, one more offload, open
/// circuit or local preference by its reason, and one queue-depth sample of
/// the deepest candidate queue when there are candidates.
pub open spec fn after_decision(m: SchedulerMetrics, d: DecisionView) -> SchedulerMetrics {
    let m1 = SchedulerMetrics { decisions: m.decisions.wrapping_add(1), ..m };
    let m2 = match d.reason {
        SchedulerReason::RemoteFaster => SchedulerMetrics { offload: m1.offload.wrapping_add(1), ..m1 },
        SchedulerReason::CircuitOpen => SchedulerMetrics { circuit_open: m1.circuit_open.wrapping_add(1), ..m1 },
        _ => SchedulerMetrics { local_preferred: m1.local_preferred.wrapping_add(1), ..m1 },
    };
    match max_queue_depth(d.candidates) {
        None => m2,
        Some(q) => SchedulerMetrics {
            queue_depth_samples: m2.queue_depth_samples.wrapping_add(1),
            queue_depth_sum: m2.queue_depth_sum.wrapping_add(q),
            ..m2
        },
    }
}

/// Count a decision in the scheduler metrics.
pub fn record_scheduler_metrics(metrics: &mut SchedulerMetrics, decision: &SchedulerDecision)
    ensures
        *final(metrics) == after_decision(*old(metrics), decision@),
{
    metrics.record_decision();
    match decision.reason {
        SchedulerReason::RemoteFaster => metrics.record_offload(),
        SchedulerReason::CircuitOpen => metrics.record_circuit_open(),
        _ => metrics.record_local_preferred(),
    }
    let ghost cs = decision@.candidates;
    let mut best: Option<u64> = None;
    let mut i: usize = 0;
    while i < decision.candidates.len()
        invariant
            i <= decision.candidates@.len(),
            cs == decision@.candidates,
            cs.len() == decision.candidates@.len(),
            best == max_queue_depth(cs.take(i as int)),
        decreases decision.candidates.len() - i,
    {
        assert(cs[i as int] == decision.candidates@[i as int]@);
        assert(cs.take(i + 1).drop_last() =~= cs.take(i as int));
        let d = decision.candidates[i].queue_depth as u64;
        best = match best {
            None => Some(d),
            Some(m) => Some(if m >= d { m } else { d }),
        };
        i = i + 1;
    }
    assert(cs.take(i as int) =~= cs);
    if let Some(d) = best {
        metrics.record_queue_depth(d);
    }
}

} // verus!
