//! Completion-time estimates and the uncertainty margin added to them.
use vstd::prelude::*;

use crate::broker::target::ExecutionTargetId;

verus! {

/// Error model of one target's past predictions.
#[derive(Debug, Clone)]
pub struct UncertaintyModel {
    /// Absolute error floor for workers with little history (ms).
    pub cold_floor_ms: u64,
    /// Extra margin when the model is cold (ms).
    pub cold_model_extra_ms: u64,
    /// Rolling mean absolute error when history exists (ms).
    pub rolling_mae_ms: u64,
    /// Number of samples behind the rolling error.
    pub samples: u32,
}

impl Default for UncertaintyModel {
    fn default() -> (r: Self)
        ensures
            r.cold_floor_ms == 250,
            r.cold_model_extra_ms == 500,
            r.rolling_mae_ms == 0,
            r.samples == 0,
    {
        UncertaintyModel { cold_floor_ms: 250, cold_model_extra_ms: 500, rolling_mae_ms: 0, samples: 0 }
    }
}

pub open spec fn max_u64(a: u64, b: u64) -> u64 {
    if a >= b {
        a
    } else {
        b
    }
}

pub open spec fn sat_add(a: u64, b: u64) -> u64 {
    if a + b > u64::MAX {
        u64::MAX
    } else {
        (a + b) as u64
    }
}

/// Margin before the cold-start extra: the error floor for fewer than five
/// samples, else the rolling error inflated by a fifth.
pub open spec fn base_margin(u: UncertaintyModel) -> u64 {
    if u.samples < 5 {
        max_u64(u.cold_floor_ms, u.rolling_mae_ms)
    } else {
        (u.rolling_mae_ms * 120 / 100) as u64
    }
}

/// The margin in ms: never below 25.
pub open spec fn margin(u: UncertaintyModel, cold_start: bool) -> u64 {
    let m = if cold_start {
        sat_add(base_margin(u), u.cold_model_extra_ms)
    } else {
        base_margin(u)
    };
    max_u64(m, 25)
}

impl UncertaintyModel {
    /// Whether `margin_ms` can be computed without overflow.
    pub open spec fn margin_fits(self) -> bool {
        self.samples < 5 || self.rolling_mae_ms * 120 <= u64::MAX
    }

    pub fn margin_ms(&self, cold_start: bool) -> (r: u64)
        requires
            self.margin_fits(),
        ensures
            r == margin(*self, cold_start),
    {
        let mut m = if self.samples < 5 {
            if self.cold_floor_ms >= self.rolling_mae_ms {
                self.cold_floor_ms
            } else {
                self.rolling_mae_ms
            }
        } else {
            (self.rolling_mae_ms * 120) / 100
        };
        if cold_start {
            m = m.saturating_add(self.cold_model_extra_ms);
        }
        if m >= 25 {
            m
        } else {
            25
        }
    }
}

/// Everything known of one candidate target before it is scored.
#[derive(Debug, Clone)]
pub struct CandidateInputs {
    pub target: ExecutionTargetId,
    pub admission_delay_ms: u64,
    pub queue_delay_ms: u64,
    pub connection_setup_ms: u64,
    pub input_transfer_ms: u64,
    pub cold_start_ms: u64,
    pub execution_ms: u64,
    pub result_transfer_ms: u64,
    pub verification_ms: u64,
    pub queue_depth: u32,
    pub transfer_bytes: u64,
    pub cold_start: bool,
    pub uncertainty: UncertaintyModel,
}

#[derive(Debug, Clone)]
pub struct CompletionEstimate {
    pub finish_ms: u64,
    pub uncertainty_margin_ms: u64,
    pub scored_ms: u64,
}

/// Sum of the phases of a candidate, each addition saturating.
pub open spec fn finish_of(i: CandidateInputs) -> u64 {
    sat_add(
        sat_add(
            sat_add(
                sat_add(
                    sat_add(
                        sat_add(sat_add(i.admission_delay_ms, i.queue_delay_ms), i.connection_setup_ms),
                        i.input_transfer_ms,
                    ),
                    i.cold_start_ms,
                ),
                i.execution_ms,
            ),
            i.result_transfer_ms,
        ),
        i.verification_ms,
    )
}

/// Predicted finish, its margin, and their (saturating) sum used for scoring.
pub fn estimate_finish_ms(input: &CandidateInputs) -> (r: CompletionEstimate)
    requires
        input.uncertainty.margin_fits(),
    ensures
        r.finish_ms == finish_of(*input),
        r.uncertainty_margin_ms == margin(input.uncertainty, input.cold_start),
        r.scored_ms == sat_add(r.finish_ms, r.uncertainty_margin_ms),
{
    let finish = input.admission_delay_ms.saturating_add(input.queue_delay_ms).saturating_add(
        input.connection_setup_ms,
    ).saturating_add(input.input_transfer_ms).saturating_add(input.cold_start_ms).saturating_add(
        input.execution_ms,
    ).saturating_add(input.result_transfer_ms).saturating_add(input.verification_ms);
    let margin = input.uncertainty.margin_ms(input.cold_start);
    CompletionEstimate {
        finish_ms: finish,
        uncertainty_margin_ms: margin,
        scored_ms: finish.saturating_add(margin),
    }
}

/// A target with no history keeps at least its error floor as margin.
pub proof fn lemma_cold_margin_at_least_floor(u: UncertaintyModel, cold_start: bool)
    requires
        u.samples < 5,
    ensures
        margin(u, cold_start) >= u.cold_floor_ms,
        margin(u, cold_start) >= 25,
{
}

/// Every phase counts towards the finish: while the sum of the eight phases
/// fits in a `u64`, the finish is that sum.
pub proof fn lemma_finish_is_phase_sum(i: CandidateInputs)
    requires
        i.admission_delay_ms + i.queue_delay_ms + i.connection_setup_ms + i.input_transfer_ms + i.cold_start_ms
            + i.execution_ms + i.result_transfer_ms + i.verification_ms <= u64::MAX,
    ensures
        finish_of(i) == i.admission_delay_ms + i.queue_delay_ms + i.connection_setup_ms + i.input_transfer_ms
            + i.cold_start_ms + i.execution_ms + i.result_transfer_ms + i.verification_ms,
{
}

/// A longer cold start never gives an earlier finish, and below saturation
/// gives a strictly later one.
pub proof fn lemma_finish_grows_with_cold_start(i: CandidateInputs, extra: u64)
    requires
        i.cold_start_ms + extra <= u64::MAX,
    ensures
        finish_of(i) <= finish_of(CandidateInputs { cold_start_ms: (i.cold_start_ms + extra) as u64, ..i }),
        extra > 0 && i.admission_delay_ms + i.queue_delay_ms + i.connection_setup_ms + i.input_transfer_ms
            + i.cold_start_ms + extra + i.execution_ms + i.result_transfer_ms + i.verification_ms <= u64::MAX
            ==> finish_of(i) < finish_of(CandidateInputs { cold_start_ms: (i.cold_start_ms + extra) as u64, ..i }),
{
}

} // verus!
