//! Admission and scheduler counters, without payload content. Counters wrap
//! on overflow.
use vstd::prelude::*;

verus! {

pub struct AdmissionMetrics {
    pub admitted: u64,
    pub queued: u64,
    pub rejected: u64,
    pub canceled: u64,
    pub reservation_leaks: u64,
}

impl Default for AdmissionMetrics {
    fn default() -> (r: Self)
        ensures
            r.admitted == 0 && r.queued == 0 && r.rejected == 0 && r.canceled == 0
                && r.reservation_leaks == 0,
    {
        AdmissionMetrics { admitted: 0, queued: 0, rejected: 0, canceled: 0, reservation_leaks: 0 }
    }
}

impl AdmissionMetrics {
    pub fn record_admitted(&mut self)
        ensures
            *final(self) == (AdmissionMetrics { admitted: old(self).admitted.wrapping_add(1), ..*old(self) }),
    {
        self.admitted = self.admitted.wrapping_add(1);
    }

    pub fn record_queued(&mut self)
        ensures
            *final(self) == (AdmissionMetrics { queued: old(self).queued.wrapping_add(1), ..*old(self) }),
    {
        self.queued = self.queued.wrapping_add(1);
    }

    pub fn record_rejected(&mut self)
        ensures
            *final(self) == (AdmissionMetrics { rejected: old(self).rejected.wrapping_add(1), ..*old(self) }),
    {
        self.rejected = self.rejected.wrapping_add(1);
    }

    pub fn record_canceled(&mut self)
        ensures
            *final(self) == (AdmissionMetrics { canceled: old(self).canceled.wrapping_add(1), ..*old(self) }),
    {
        self.canceled = self.canceled.wrapping_add(1);
    }

    pub fn record_leak(&mut self)
        ensures
            *final(self) == (AdmissionMetrics {
                reservation_leaks: old(self).reservation_leaks.wrapping_add(1),
                ..*old(self)
            }),
    {
        self.reservation_leaks = self.reservation_leaks.wrapping_add(1);
    }
}

/// Scheduler decision counters. No high-cardinality labels.
pub struct SchedulerMetrics {
    pub decisions: u64,
    pub offload: u64,
    pub local_preferred: u64,
    pub fallback: u64,
    pub circuit_open: u64,
    pub speculation_denied: u64,
    /// Sum of |actual_ms - predicted_finish_ms| for mean absolute error.
    pub prediction_error_abs_sum_ms: u64,
    pub prediction_samples: u64,
    /// Speculative races launched.
    pub speculation_launched: u64,
    pub speculation_won_primary: u64,
    pub speculation_won_speculative: u64,
    /// Sum of loser-leg coordinator ms (extra cost).
    pub speculation_extra_ms_sum: u64,
    /// Sum of max(0, slower_leg_ms - winner_ms) when speculation helped.
    pub speculation_latency_saved_ms_sum: u64,
    pub queue_depth_samples: u64,
    pub queue_depth_sum: u64,
}

impl Default for SchedulerMetrics {
    fn default() -> (r: Self)
        ensures
            r == (SchedulerMetrics {
                decisions: 0,
                offload: 0,
                local_preferred: 0,
                fallback: 0,
                circuit_open: 0,
                speculation_denied: 0,
                prediction_error_abs_sum_ms: 0,
                prediction_samples: 0,
                speculation_launched: 0,
                speculation_won_primary: 0,
                speculation_won_speculative: 0,
                speculation_extra_ms_sum: 0,
                speculation_latency_saved_ms_sum: 0,
                queue_depth_samples: 0,
                queue_depth_sum: 0,
            }),
    {
        SchedulerMetrics {
            decisions: 0,
            offload: 0,
            local_preferred: 0,
            fallback: 0,
            circuit_open: 0,
            speculation_denied: 0,
            prediction_error_abs_sum_ms: 0,
            prediction_samples: 0,
            speculation_launched: 0,
            speculation_won_primary: 0,
            speculation_won_speculative: 0,
            speculation_extra_ms_sum: 0,
            speculation_latency_saved_ms_sum: 0,
            queue_depth_samples: 0,
            queue_depth_sum: 0,
        }
    }
}

/// Mean absolute error when at least one sample exists.
pub open spec fn mean_error(m: SchedulerMetrics) -> Option<u64> {
    if m.prediction_samples == 0 {
        None
    } else {
        Some((m.prediction_error_abs_sum_ms / m.prediction_samples) as u64)
    }
}

impl SchedulerMetrics {
    pub fn record_decision(&mut self)
        ensures
            *final(self) == (SchedulerMetrics { decisions: old(self).decisions.wrapping_add(1), ..*old(self) }),
    {
        self.decisions = self.decisions.wrapping_add(1);
    }

    pub fn record_offload(&mut self)
        ensures
            *final(self) == (SchedulerMetrics { offload: old(self).offload.wrapping_add(1), ..*old(self) }),
    {
        self.offload = self.offload.wrapping_add(1);
    }

    pub fn record_local_preferred(&mut self)
        ensures
            *final(self) == (SchedulerMetrics {
                local_preferred: old(self).local_preferred.wrapping_add(1),
                ..*old(self)
            }),
    {
        self.local_preferred = self.local_preferred.wrapping_add(1);
    }

    pub fn record_fallback(&mut self)
        ensures
            *final(self) == (SchedulerMetrics { fallback: old(self).fallback.wrapping_add(1), ..*old(self) }),
    {
        self.fallback = self.fallback.wrapping_add(1);
    }

    pub fn record_circuit_open(&mut self)
        ensures
            *final(self) == (SchedulerMetrics {
                circuit_open: old(self).circuit_open.wrapping_add(1),
                ..*old(self)
            }),
    {
        self.circuit_open = self.circuit_open.wrapping_add(1);
    }

    pub fn record_speculation_denied(&mut self)
        ensures
            *final(self) == (SchedulerMetrics {
                speculation_denied: old(self).speculation_denied.wrapping_add(1),
                ..*old(self)
            }),
    {
        self.speculation_denied = self.speculation_denied.wrapping_add(1);
    }

    pub fn record_prediction_error(&mut self, abs_error_ms: u64)
        ensures
            *final(self) == (SchedulerMetrics {
                prediction_error_abs_sum_ms: old(self).prediction_error_abs_sum_ms.wrapping_add(
                    abs_error_ms,
                ),
                prediction_samples: old(self).prediction_samples.wrapping_add(1),
                ..*old(self)
            }),
    {
        self.prediction_error_abs_sum_ms = self.prediction_error_abs_sum_ms.wrapping_add(
            abs_error_ms,
        );
        self.prediction_samples = self.prediction_samples.wrapping_add(1);
    }

    /// Mean absolute prediction error in ms, when at least one sample exists.
    pub fn mean_abs_prediction_error_ms(&self) -> (r: Option<u64>)
        ensures
            r == mean_error(*self),
    {
        let n = self.prediction_samples;
        if n == 0 {
            return None;
        }
        Some(self.prediction_error_abs_sum_ms / n)
    }

    pub fn prediction_sample_count(&self) -> (r: u64)
        ensures
            r == self.prediction_samples,
    {
        self.prediction_samples
    }

    pub fn record_speculation_launched(&mut self)
        ensures
            *final(self) == (SchedulerMetrics {
                speculation_launched: old(self).speculation_launched.wrapping_add(1),
                ..*old(self)
            }),
    {
        self.speculation_launched = self.speculation_launched.wrapping_add(1);
    }

    /// Count the race's winner, add the loser's time as extra cost, and the
    /// time saved when the loser was slower.
    pub fn record_speculation_race(&mut self, winner_primary: bool, winner_ms: u64, loser_ms: u64)
        ensures
            *final(self) == (SchedulerMetrics {
                speculation_won_primary: if winner_primary {
                    old(self).speculation_won_primary.wrapping_add(1)
                } else {
                    old(self).speculation_won_primary
                },
                speculation_won_speculative: if winner_primary {
                    old(self).speculation_won_speculative
                } else {
                    old(self).speculation_won_speculative.wrapping_add(1)
                },
                speculation_extra_ms_sum: old(self).speculation_extra_ms_sum.wrapping_add(loser_ms),
                speculation_latency_saved_ms_sum: if loser_ms > winner_ms {
                    old(self).speculation_latency_saved_ms_sum.wrapping_add((loser_ms - winner_ms) as u64)
                } else {
                    old(self).speculation_latency_saved_ms_sum
                },
                ..*old(self)
            }),
    {
        if winner_primary {
            self.speculation_won_primary = self.speculation_won_primary.wrapping_add(1);
        } else {
            self.speculation_won_speculative = self.speculation_won_speculative.wrapping_add(1);
        }
        self.speculation_extra_ms_sum = self.speculation_extra_ms_sum.wrapping_add(loser_ms);
        if loser_ms > winner_ms {
            self.speculation_latency_saved_ms_sum = self.speculation_latency_saved_ms_sum.wrapping_add(
                loser_ms - winner_ms,
            );
        }
    }

    pub fn record_queue_depth(&mut self, depth: u64)
        ensures
            *final(self) == (SchedulerMetrics {
                queue_depth_samples: old(self).queue_depth_samples.wrapping_add(1),
                queue_depth_sum: old(self).queue_depth_sum.wrapping_add(depth),
                ..*old(self)
            }),
    {
        self.queue_depth_samples = self.queue_depth_samples.wrapping_add(1);
        self.queue_depth_sum = self.queue_depth_sum.wrapping_add(depth);
    }
}

/// Sum of a sequence of samples.
pub open spec fn total(errs: Seq<u64>) -> int
    decreases errs.len(),
{
    if errs.len() == 0 {
        0
    } else {
        total(errs.drop_last()) + errs.last()
    }
}

/// The metrics after recording each error of `errs`, in order, from `m`.
pub open spec fn after_errors(m: SchedulerMetrics, errs: Seq<u64>) -> SchedulerMetrics
    decreases errs.len(),
{
    if errs.len() == 0 {
        m
    } else {
        let p = after_errors(m, errs.drop_last());
        SchedulerMetrics {
            prediction_error_abs_sum_ms: p.prediction_error_abs_sum_ms.wrapping_add(errs.last()),
            prediction_samples: p.prediction_samples.wrapping_add(1),
            ..p
        }
    }
}

/// Recording errors on fresh counters gives their mean, rounded down, as long
/// as neither counter wraps.
pub proof fn lemma_mean_of_recorded(m: SchedulerMetrics, errs: Seq<u64>)
    requires
        m.prediction_error_abs_sum_ms == 0,
        m.prediction_samples == 0,
        total(errs) <= u64::MAX,
        errs.len() <= u64::MAX,
        errs.len() > 0,
    ensures
        after_errors(m, errs).prediction_samples == errs.len(),
        after_errors(m, errs).prediction_error_abs_sum_ms == total(errs),
        mean_error(after_errors(m, errs)) == Some((total(errs) / (errs.len() as int)) as u64),
    decreases errs.len(),
{
    lemma_recorded_counts(m, errs);
}

proof fn lemma_total_prefix(errs: Seq<u64>)
    ensures
        errs.len() > 0 ==> total(errs.drop_last()) <= total(errs),
        total(errs) >= 0,
    decreases errs.len(),
{
    if errs.len() > 0 {
        lemma_total_prefix(errs.drop_last());
    }
}

proof fn lemma_recorded_counts(m: SchedulerMetrics, errs: Seq<u64>)
    requires
        m.prediction_error_abs_sum_ms == 0,
        m.prediction_samples == 0,
        total(errs) <= u64::MAX,
        errs.len() <= u64::MAX,
    ensures
        after_errors(m, errs).prediction_samples == errs.len(),
        after_errors(m, errs).prediction_error_abs_sum_ms == total(errs),
    decreases errs.len(),
{
    lemma_total_prefix(errs);
    if errs.len() > 0 {
        lemma_total_prefix(errs.drop_last());
        lemma_recorded_counts(m, errs.drop_last());
    }
}

} // verus!
