//! When to race a second target against the selected one.
use vstd::prelude::*;

use crate::broker::decision::{CandidateView, DecisionView, SchedulerDecision};
use crate::broker::target::{ExecutionTargetId, TargetView};
use crate::text::push_str;

verus! {

#[derive(Debug, Clone, Copy, PartialEq, Eq, Structural)]
pub enum SpeculationDenyReason {
    ConfigDisabled,
    JobProfileDisallows,
    SideEffectful,
    NonIdempotentKind,
}

impl SpeculationDenyReason {
    pub fn as_str(&self) -> (s: &'static str)
        ensures
            s@ == (match *self {
                SpeculationDenyReason::ConfigDisabled => "config_disabled"@,
                SpeculationDenyReason::JobProfileDisallows => "job_profile_disallows"@,
                SpeculationDenyReason::SideEffectful => "side_effectful"@,
                SpeculationDenyReason::NonIdempotentKind => "non_idempotent_kind"@,
            }),
    {
        match self {
            SpeculationDenyReason::ConfigDisabled => "config_disabled",
            SpeculationDenyReason::JobProfileDisallows => "job_profile_disallows",
            SpeculationDenyReason::SideEffectful => "side_effectful",
            SpeculationDenyReason::NonIdempotentKind => "non_idempotent_kind",
        }
    }
}

/// Session ids of the two legs of a speculative race: `<base>:primary` and
/// `<base>:spec`.
pub fn speculative_race_sessions(base_session: &str) -> (r: (String, String))
    ensures
        r.0@ == base_session@ + ":primary"@,
        r.1@ == base_session@ + ":spec"@,
{
    let mut primary = String::from_str(base_session);
    push_str(&mut primary, ":primary");
    let mut spec = String::from_str(base_session);
    push_str(&mut spec, ":spec");
    (primary, spec)
}

/// Index of the first candidate for target `t`, or -1.
pub open spec fn first_candidate(cs: Seq<CandidateView>, t: TargetView) -> int
    decreases cs.len(),
{
    if cs.len() == 0 {
        -1
    } else {
        let r = first_candidate(cs.drop_last(), t);
        if r >= 0 {
            r
        } else if cs.last().target == t {
            cs.len() - 1
        } else {
            -1
        }
    }
}

pub proof fn lemma_first_candidate(cs: Seq<CandidateView>, t: TargetView)
    ensures
        -1 <= first_candidate(cs, t) < cs.len(),
        first_candidate(cs, t) >= 0 ==> cs[first_candidate(cs, t)].target == t,
        forall|j: int|
            0 <= j < cs.len() && (first_candidate(cs, t) < 0 || j < first_candidate(cs, t))
                ==> #[trigger] cs[j].target != t,
    decreases cs.len(),
{
    if cs.len() > 0 {
        let s = cs.drop_last();
        lemma_first_candidate(s, t);
        let f = first_candidate(cs, t);
        assert forall|j: int| 0 <= j < cs.len() && (f < 0 || j < f) implies #[trigger] cs[j].target != t by {
            if j < s.len() {
                assert(cs[j] == s[j]);
            }
        }
    }
}

/// Finish estimate of the local candidate, 0 when there is none.
pub open spec fn local_finish(d: DecisionView) -> u64 {
    let i = first_candidate(d.candidates, TargetView::Local);
    if i >= 0 {
        d.candidates[i].estimated_finish_ms
    } else {
        0
    }
}

/// Whether the tail rule can be evaluated without overflow: the selected
/// remote's margin can be doubled.
pub open spec fn tail_fits(d: DecisionView) -> bool {
    match d.selected_target {
        Some(t) => {
            let i = first_candidate(d.candidates, t);
            i >= 0 ==> d.candidates[i].uncertainty_margin_ms * 2 <= u64::MAX
        },
        None => true,
    }
}

/// Speculate when a remote target is selected and either its margin is large
/// against its estimate, the speedup over local is under 1.5, or the decision's
/// own margin is at least 150 ms.
pub open spec fn tail_rule(d: DecisionView) -> bool {
    match d.selected_target {
        None => false,
        Some(TargetView::Local) => false,
        Some(t) => {
            let i = first_candidate(d.candidates, t);
            if i < 0 {
                false
            } else {
                let remote = d.candidates[i];
                let lf = local_finish(d);
                let rf = if remote.estimated_finish_ms >= 1 {
                    remote.estimated_finish_ms
                } else {
                    1
                };
                if remote.uncertainty_margin_ms >= 200 && remote.uncertainty_margin_ms * 2
                    >= remote.estimated_finish_ms {
                    true
                } else if lf > 0 && 2 * lf < 3 * rf {
                    true
                } else {
                    d.uncertainty_margin_ms >= 150
                }
            }
        },
    }
}

pub(crate) fn find_candidate(d: &SchedulerDecision, t: &ExecutionTargetId) -> (r: Option<usize>)
    ensures
        match r {
            Some(i) => i as int == first_candidate(d@.candidates, t@) && i < d.candidates@.len(),
            None => first_candidate(d@.candidates, t@) < 0,
        },
{
    let ghost cs = d@.candidates;
    proof {
        lemma_first_candidate(cs, t@);
    }
    let mut i: usize = 0;
    while i < d.candidates.len()
        invariant
            i <= d.candidates@.len(),
            cs == d@.candidates,
            cs.len() == d.candidates@.len(),
            -1 <= first_candidate(cs, t@) < cs.len(),
            first_candidate(cs, t@) >= 0 ==> cs[first_candidate(cs, t@)].target == t@,
            forall|j: int|
                0 <= j < cs.len() && (first_candidate(cs, t@) < 0 || j < first_candidate(cs, t@))
                    ==> #[trigger] cs[j].target != t@,
            forall|j: int| 0 <= j < i ==> #[trigger] cs[j].target != t@,
        decreases d.candidates.len() - i,
    {
        assert(cs[i as int] == d.candidates@[i as int]@);
        if d.candidates[i].target.same(t) {
            proof {
                let f = first_candidate(cs, t@);
                if f < 0 || f > i {
                    assert(cs[i as int].target != t@);
                } else if f < i {
                    assert(cs[f].target != t@);
                }
            }
            return Some(i);
        }
        i = i + 1;
    }
    None
}

/// Tail-latency trigger: speculate when the selected remote estimate has a large
/// uncertainty margin relative to the local candidate, or the expected speedup
/// is thin.
pub fn should_speculate_for_tail(decision: &SchedulerDecision) -> (r: bool)
    requires
        tail_fits(decision@),
    ensures
        r == tail_rule(decision@),
{
    let selected = match &decision.selected_target {
        Some(t) => t,
        None => return false,
    };
    if let ExecutionTargetId::Local = selected {
        return false;
    }
    let local = ExecutionTargetId::Local;
    let local_finish: u64 = match find_candidate(decision, &local) {
        Some(i) => {
            assert(decision@.candidates[i as int] == decision.candidates@[i as int]@);
            decision.candidates[i].estimated_finish_ms
        },
        None => 0,
    };
    let ri = match find_candidate(decision, selected) {
        Some(i) => i,
        None => return false,
    };
    assert(decision@.candidates[ri as int] == decision.candidates@[ri as int]@);
    let remote = &decision.candidates[ri];
    if remote.uncertainty_margin_ms >= 200 && remote.uncertainty_margin_ms * 2
        >= remote.estimated_finish_ms {
        return true;
    }
    if local_finish > 0 {
        let rf: u64 = if remote.estimated_finish_ms >= 1 {
            remote.estimated_finish_ms
        } else {
            1
        };
        if 2 * (local_finish as u128) < 3 * (rf as u128) {
            return true;
        }
    }
    decision.uncertainty_margin_ms >= 150
}

/// What a job kind's profile says about racing it.
#[derive(Debug, Clone, Copy, PartialEq, Eq)]
pub struct SpeculationProfile {
    /// The kind is one of the shard kinds (index or test shards), which are not idempotent.
    pub shard_kind: bool,
    /// The kind's profile allows a speculative second leg.
    pub supports_speculation: bool,
    /// The kind's profile has no side effects.
    pub side_effect_free: bool,
}

/// Why speculation is refused, checked in order: the configuration, the
/// kind's idempotence, the profile's support, the profile's side effects.
pub open spec fn speculation_refusal(config_allowed: bool, p: SpeculationProfile) -> Option<SpeculationDenyReason> {
    if !config_allowed {
        Some(SpeculationDenyReason::ConfigDisabled)
    } else if p.shard_kind {
        Some(SpeculationDenyReason::NonIdempotentKind)
    } else if !p.supports_speculation {
        Some(SpeculationDenyReason::JobProfileDisallows)
    } else if !p.side_effect_free {
        Some(SpeculationDenyReason::SideEffectful)
    } else {
        None
    }
}

/// Whether a job of the given profile may be raced, under the configuration's switch.
pub fn speculation_allowed(profile: SpeculationProfile, config_allowed: bool) -> (r: Result<(), SpeculationDenyReason>)
    ensures
        match speculation_refusal(config_allowed, profile) {
            Some(reason) => r == Err::<(), SpeculationDenyReason>(reason),
            None => r is Ok,
        },
{
    if !config_allowed {
        return Err(SpeculationDenyReason::ConfigDisabled);
    }
    if profile.shard_kind {
        return Err(SpeculationDenyReason::NonIdempotentKind);
    }
    if !profile.supports_speculation {
        return Err(SpeculationDenyReason::JobProfileDisallows);
    }
    if !profile.side_effect_free {
        return Err(SpeculationDenyReason::SideEffectful);
    }
    Ok(())
}

/// A remote selection whose speedup over local is thin (local finish under
/// 1.5 times the remote's) is raced, whatever the margins: with `r` the first
/// candidate of the selected worker and `l` the first local candidate.
pub proof fn lemma_thin_speedup_speculates(d: DecisionView, w: Seq<char>, r: int, l: int)
    requires
        d.selected_target == Some(TargetView::Worker(w)),
        0 <= r < d.candidates.len(),
        d.candidates[r].target == TargetView::Worker(w),
        forall|k: int| 0 <= k < r ==> d.candidates[k].target != TargetView::Worker(w),
        0 <= l < d.candidates.len(),
        d.candidates[l].target == TargetView::Local,
        forall|k: int| 0 <= k < l ==> d.candidates[k].target != TargetView::Local,
        d.candidates[l].estimated_finish_ms > 0,
        2 * d.candidates[l].estimated_finish_ms < 3 * (if d.candidates[r].estimated_finish_ms >= 1 {
            d.candidates[r].estimated_finish_ms
        } else {
            1
        }),
    ensures
        tail_rule(d),
{
    lemma_first_candidate(d.candidates, TargetView::Worker(w));
    lemma_first_candidate(d.candidates, TargetView::Local);
    let fr = first_candidate(d.candidates, TargetView::Worker(w));
    let fl = first_candidate(d.candidates, TargetView::Local);
    if fr < 0 || fr > r {
        assert(d.candidates[r].target == TargetView::Worker(w));
    }
    if fr >= 0 && fr < r {
        assert(d.candidates[fr].target == TargetView::Worker(w));
    }
    if fl < 0 || fl > l {
        assert(d.candidates[l].target == TargetView::Local);
    }
    if fl >= 0 && fl < l {
        assert(d.candidates[fl].target == TargetView::Local);
    }
}

/// Speculation only races a remote selection: a local or missing selection never speculates.
pub proof fn lemma_local_selection_never_speculates(d: DecisionView)
    requires
        d.selected_target is None || d.selected_target == Some(TargetView::Local),
    ensures
        !tail_rule(d),
{
}

} // verus!
