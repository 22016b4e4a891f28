//! Scheduler decisions as they are recorded: the scored candidates, the chosen
//! target and fallback order, and the reason, without any task content.
use vstd::prelude::*;

use crate::broker::target::{ExecutionTargetId, TargetView};
use crate::text::{chars_eq, chars_of, starts_with, starts_with_chars, slice_range, string_of};

verus! {

/// One scored candidate of a decision.
#[derive(Debug)]
pub struct CandidateEstimate {
    pub target: ExecutionTargetId,
    pub estimated_finish_ms: u64,
    pub uncertainty_margin_ms: u64,
    pub scored_ms: u64,
    /// The model was not loaded on the target when the estimate was made.
    pub cold_start: bool,
    /// Jobs queued on the target.
    pub queue_depth: u32,
}

pub struct CandidateView {
    pub target: TargetView,
    pub estimated_finish_ms: u64,
    pub uncertainty_margin_ms: u64,
    pub scored_ms: u64,
    pub cold_start: bool,
    pub queue_depth: u32,
}

impl View for CandidateEstimate {
    type V = CandidateView;

    open spec fn view(&self) -> CandidateView {
        CandidateView {
            target: self.target@,
            estimated_finish_ms: self.estimated_finish_ms,
            uncertainty_margin_ms: self.uncertainty_margin_ms,
            scored_ms: self.scored_ms,
            cold_start: self.cold_start,
            queue_depth: self.queue_depth,
        }
    }
}

impl CandidateEstimate {
    pub fn duplicate(&self) -> (r: CandidateEstimate)
        ensures
            r@ == self@,
    {
        CandidateEstimate {
            target: self.target.duplicate(),
            estimated_finish_ms: self.estimated_finish_ms,
            uncertainty_margin_ms: self.uncertainty_margin_ms,
            scored_ms: self.scored_ms,
            cold_start: self.cold_start,
            queue_depth: self.queue_depth,
        }
    }
}

/// Why the scheduler chose what it chose.
#[derive(Debug, Clone, Copy, PartialEq, Eq, Structural)]
pub enum SchedulerReason {
    LocalFirstPolicy,
    RemoteFaster,
    LocalFaster,
    EqualWithUncertainty,
    MinSpeedupNotMet,
    TransferTooLarge,
    CircuitOpen,
    Quarantined,
    SecretLocalOnly,
    NoEligibleRemote,
    DeadlineForcedLocal,
    QueueThreshold,
    FeatureFlagLocalFirst,
}

pub open spec fn reason_text(r: SchedulerReason) -> Seq<char> {
    match r {
        SchedulerReason::LocalFirstPolicy => "local_first_policy"@,
        SchedulerReason::RemoteFaster => "remote_faster"@,
        SchedulerReason::LocalFaster => "local_faster"@,
        SchedulerReason::EqualWithUncertainty => "equal_with_uncertainty"@,
        SchedulerReason::MinSpeedupNotMet => "min_speedup_not_met"@,
        SchedulerReason::TransferTooLarge => "transfer_too_large"@,
        SchedulerReason::CircuitOpen => "circuit_open"@,
        SchedulerReason::Quarantined => "quarantined"@,
        SchedulerReason::SecretLocalOnly => "secret_local_only"@,
        SchedulerReason::NoEligibleRemote => "no_eligible_remote"@,
        SchedulerReason::DeadlineForcedLocal => "deadline_forced_local"@,
        SchedulerReason::QueueThreshold => "queue_threshold"@,
        SchedulerReason::FeatureFlagLocalFirst => "feature_flag_local_first"@,
    }
}

/// The reason a stored text names; unknown text reads as no eligible remote.
pub open spec fn reason_of_text(s: Seq<char>) -> SchedulerReason {
    if s == "local_first_policy"@ {
        SchedulerReason::LocalFirstPolicy
    } else if s == "remote_faster"@ {
        SchedulerReason::RemoteFaster
    } else if s == "local_faster"@ {
        SchedulerReason::LocalFaster
    } else if s == "equal_with_uncertainty"@ {
        SchedulerReason::EqualWithUncertainty
    } else if s == "min_speedup_not_met"@ {
        SchedulerReason::MinSpeedupNotMet
    } else if s == "transfer_too_large"@ {
        SchedulerReason::TransferTooLarge
    } else if s == "circuit_open"@ {
        SchedulerReason::CircuitOpen
    } else if s == "quarantined"@ {
        SchedulerReason::Quarantined
    } else if s == "secret_local_only"@ {
        SchedulerReason::SecretLocalOnly
    } else if s == "no_eligible_remote"@ {
        SchedulerReason::NoEligibleRemote
    } else if s == "deadline_forced_local"@ {
        SchedulerReason::DeadlineForcedLocal
    } else if s == "queue_threshold"@ {
        SchedulerReason::QueueThreshold
    } else if s == "feature_flag_local_first"@ {
        SchedulerReason::FeatureFlagLocalFirst
    } else {
        SchedulerReason::NoEligibleRemote
    }
}

impl SchedulerReason {
    pub fn as_str(&self) -> (s: &'static str)
        ensures
            s@ == reason_text(*self),
    {
        match self {
            SchedulerReason::LocalFirstPolicy => "local_first_policy",
            SchedulerReason::RemoteFaster => "remote_faster",
            SchedulerReason::LocalFaster => "local_faster",
            SchedulerReason::EqualWithUncertainty => "equal_with_uncertainty",
            SchedulerReason::MinSpeedupNotMet => "min_speedup_not_met",
            SchedulerReason::TransferTooLarge => "transfer_too_large",
            SchedulerReason::CircuitOpen => "circuit_open",
            SchedulerReason::Quarantined => "quarantined",
            SchedulerReason::SecretLocalOnly => "secret_local_only",
            SchedulerReason::NoEligibleRemote => "no_eligible_remote",
            SchedulerReason::DeadlineForcedLocal => "deadline_forced_local",
            SchedulerReason::QueueThreshold => "queue_threshold",
            SchedulerReason::FeatureFlagLocalFirst => "feature_flag_local_first",
        }
    }
}

fn text_is(s: &[char], lit: &str) -> (r: bool)
    ensures
        r == (s@ == lit@),
{
    let l = chars_of(lit);
    chars_eq(s, l.as_slice())
}

/// Read a stored reason back.
pub fn decode_reason(raw: &str) -> (r: SchedulerReason)
    ensures
        r == reason_of_text(raw@),
{
    let s = chars_of(raw);
    let s = s.as_slice();
    if text_is(s, "local_first_policy") {
        SchedulerReason::LocalFirstPolicy
    } else if text_is(s, "remote_faster") {
        SchedulerReason::RemoteFaster
    } else if text_is(s, "local_faster") {
        SchedulerReason::LocalFaster
    } else if text_is(s, "equal_with_uncertainty") {
        SchedulerReason::EqualWithUncertainty
    } else if text_is(s, "min_speedup_not_met") {
        SchedulerReason::MinSpeedupNotMet
    } else if text_is(s, "transfer_too_large") {
        SchedulerReason::TransferTooLarge
    } else if text_is(s, "circuit_open") {
        SchedulerReason::CircuitOpen
    } else if text_is(s, "quarantined") {
        SchedulerReason::Quarantined
    } else if text_is(s, "secret_local_only") {
        SchedulerReason::SecretLocalOnly
    } else if text_is(s, "no_eligible_remote") {
        SchedulerReason::NoEligibleRemote
    } else if text_is(s, "deadline_forced_local") {
        SchedulerReason::DeadlineForcedLocal
    } else if text_is(s, "queue_threshold") {
        SchedulerReason::QueueThreshold
    } else if text_is(s, "feature_flag_local_first") {
        SchedulerReason::FeatureFlagLocalFirst
    } else {
        SchedulerReason::NoEligibleRemote
    }
}

/// Storage text of an optional target: empty, `local`, or `worker:<id>`.
pub open spec fn target_text(t: Option<TargetView>) -> Seq<char> {
    match t {
        None => Seq::empty(),
        Some(TargetView::Local) => "local"@,
        Some(TargetView::Worker(id)) => "worker:"@ + id,
    }
}

/// Target named by storage text; text without the `worker:` prefix names a
/// worker by the whole text.
pub open spec fn target_of_text(s: Seq<char>) -> Option<TargetView> {
    if s.len() == 0 {
        None
    } else if s == "local"@ {
        Some(TargetView::Local)
    } else if starts_with(s, "worker:"@) {
        Some(TargetView::Worker(s.skip("worker:"@.len() as int)))
    } else {
        Some(TargetView::Worker(s))
    }
}

pub fn encode_target_opt(t: Option<&ExecutionTargetId>) -> (r: String)
    ensures
        r@ == target_text(match t {
            Some(x) => Some(x@),
            None => None,
        }),
{
    match t {
        Some(ExecutionTargetId::Local) => String::from_str("local"),
        Some(ExecutionTargetId::Worker { worker_id }) => {
            let mut s = String::from_str("worker:");
            crate::text::push_str(&mut s, worker_id.as_str());
            s
        },
        None => String::new(),
    }
}

pub fn decode_target(raw: &str) -> (r: Option<ExecutionTargetId>)
    ensures
        match r {
            Some(t) => target_of_text(raw@) == Some(t@),
            None => target_of_text(raw@) is None,
        },
{
    let s = chars_of(raw);
    let prefix = chars_of("worker:");
    if s.len() == 0 {
        None
    } else if text_is(s.as_slice(), "local") {
        Some(ExecutionTargetId::Local)
    } else if starts_with_chars(s.as_slice(), prefix.as_slice()) {
        let id = slice_range(s.as_slice(), prefix.len(), s.len());
        assert(id@ =~= s@.skip(prefix@.len() as int));
        Some(ExecutionTargetId::Worker { worker_id: string_of(id.as_slice()) })
    } else {
        Some(ExecutionTargetId::Worker { worker_id: String::from_str(raw) })
    }
}

/// Stored text reads back as the target it was written from.
pub proof fn lemma_target_text_round_trip(t: Option<TargetView>)
    ensures
        target_of_text(target_text(t)) == t,
{
    reveal_strlit("local");
    reveal_strlit("worker:");
    match t {
        None => {},
        Some(TargetView::Local) => {},
        Some(TargetView::Worker(id)) => {
            let s = "worker:"@ + id;
            assert(s.take(7) =~= "worker:"@);
            assert(s.skip(7) =~= id);
            assert(s.len() > 0);
            assert(s != "local"@) by {
                assert(s[0] == 'w');
            }
        },
    }
}

/// Reason text reads back as the reason it was written from.
pub proof fn lemma_reason_text_round_trip(r: SchedulerReason)
    ensures
        reason_of_text(reason_text(r)) == r,
{
    reveal_strlit("local_first_policy");
    reveal_strlit("remote_faster");
    reveal_strlit("local_faster");
    reveal_strlit("equal_with_uncertainty");
    reveal_strlit("min_speedup_not_met");
    reveal_strlit("transfer_too_large");
    reveal_strlit("circuit_open");
    reveal_strlit("quarantined");
    reveal_strlit("secret_local_only");
    reveal_strlit("no_eligible_remote");
    reveal_strlit("deadline_forced_local");
    reveal_strlit("queue_threshold");
    reveal_strlit("feature_flag_local_first");
    assert("local_first_policy"@.len() == 18 && "local_first_policy"@[0] == 'l');
    assert("remote_faster"@.len() == 13 && "remote_faster"@[0] == 'r');
    assert("local_faster"@.len() == 12 && "local_faster"@[0] == 'l');
    assert("equal_with_uncertainty"@.len() == 22 && "equal_with_uncertainty"@[0] == 'e');
    assert("min_speedup_not_met"@.len() == 19 && "min_speedup_not_met"@[0] == 'm');
    assert("transfer_too_large"@.len() == 18 && "transfer_too_large"@[0] == 't');
    assert("circuit_open"@.len() == 12 && "circuit_open"@[0] == 'c');
    assert("quarantined"@.len() == 11 && "quarantined"@[0] == 'q');
    assert("secret_local_only"@.len() == 17 && "secret_local_only"@[0] == 's');
    assert("no_eligible_remote"@.len() == 18 && "no_eligible_remote"@[0] == 'n');
    assert("deadline_forced_local"@.len() == 21 && "deadline_forced_local"@[0] == 'd');
    assert("queue_threshold"@.len() == 15 && "queue_threshold"@[0] == 'q');
    assert("feature_flag_local_first"@.len() == 24 && "feature_flag_local_first"@[0] == 'f');
}

/// Identifier of a recorded decision.
#[derive(Debug)]
pub struct SchedulerDecisionId(pub String);

/// What the scheduler decided for one attempt.
#[derive(Debug)]
pub struct SchedulerDecision {
    pub decision_id: SchedulerDecisionId,
    pub run_id: String,
    pub task_id: String,
    pub attempt_id: String,
    pub candidates: Vec<CandidateEstimate>,
    pub selected_target: Option<ExecutionTargetId>,
    pub fallback_order: Vec<ExecutionTargetId>,
    pub uncertainty_margin_ms: u64,
    pub reason: SchedulerReason,
    pub model_version: String,
    /// When the decision was taken, in ms since the Unix epoch.
    pub decided_at_ms: i64,
    /// Not yet reconciled after a restart.
    pub pending: bool,
}

pub struct DecisionView {
    pub decision_id: Seq<char>,
    pub run_id: Seq<char>,
    pub task_id: Seq<char>,
    pub attempt_id: Seq<char>,
    pub candidates: Seq<CandidateView>,
    pub selected_target: Option<TargetView>,
    pub fallback_order: Seq<TargetView>,
    pub uncertainty_margin_ms: u64,
    pub reason: SchedulerReason,
    pub model_version: Seq<char>,
    pub decided_at_ms: i64,
    pub pending: bool,
}

pub open spec fn opt_target_view(t: Option<ExecutionTargetId>) -> Option<TargetView> {
    match t {
        Some(x) => Some(x@),
        None => None,
    }
}

impl View for SchedulerDecision {
    type V = DecisionView;

    open spec fn view(&self) -> DecisionView {
        DecisionView {
            decision_id: self.decision_id.0@,
            run_id: self.run_id@,
            task_id: self.task_id@,
            attempt_id: self.attempt_id@,
            candidates: self.candidates@.map_values(|c: CandidateEstimate| c@),
            selected_target: opt_target_view(self.selected_target),
            fallback_order: self.fallback_order@.map_values(|t: ExecutionTargetId| t@),
            uncertainty_margin_ms: self.uncertainty_margin_ms,
            reason: self.reason,
            model_version: self.model_version@,
            decided_at_ms: self.decided_at_ms,
            pending: self.pending,
        }
    }
}

fn copy_candidates(v: &Vec<CandidateEstimate>) -> (r: Vec<CandidateEstimate>)
    ensures
        r@.map_values(|c: CandidateEstimate| c@) == v@.map_values(|c: CandidateEstimate| c@),
{
    let mut out: Vec<CandidateEstimate> = Vec::new();
    let mut i: usize = 0;
    while i < v.len()
        invariant
            i <= v.len(),
            out@.len() == i,
            forall|j: int| 0 <= j < i ==> #[trigger] out@[j]@ == v@[j]@,
        decreases v.len() - i,
    {
        out.push(v[i].duplicate());
        i = i + 1;
    }
    assert(out@.map_values(|c: CandidateEstimate| c@) =~= v@.map_values(|c: CandidateEstimate| c@));
    out
}

fn copy_targets(v: &Vec<ExecutionTargetId>) -> (r: Vec<ExecutionTargetId>)
    ensures
        r@.map_values(|t: ExecutionTargetId| t@) == v@.map_values(|t: ExecutionTargetId| t@),
{
    let mut out: Vec<ExecutionTargetId> = Vec::new();
    let mut i: usize = 0;
    while i < v.len()
        invariant
            i <= v.len(),
            out@.len() == i,
            forall|j: int| 0 <= j < i ==> #[trigger] out@[j]@ == v@[j]@,
        decreases v.len() - i,
    {
        out.push(v[i].duplicate());
        i = i + 1;
    }
    assert(out@.map_values(|t: ExecutionTargetId| t@) =~= v@.map_values(|t: ExecutionTargetId| t@));
    out
}

impl SchedulerDecision {
    /// A copy with the same contents.
    pub fn duplicate(&self) -> (r: SchedulerDecision)
        ensures
            r@ == self@,
    {
        let selected_target = match &self.selected_target {
            Some(t) => Some(t.duplicate()),
            None => None,
        };
        SchedulerDecision {
            decision_id: SchedulerDecisionId(self.decision_id.0.clone()),
            run_id: self.run_id.clone(),
            task_id: self.task_id.clone(),
            attempt_id: self.attempt_id.clone(),
            candidates: copy_candidates(&self.candidates),
            selected_target,
            fallback_order: copy_targets(&self.fallback_order),
            uncertainty_margin_ms: self.uncertainty_margin_ms,
            reason: self.reason,
            model_version: self.model_version.clone(),
            decided_at_ms: self.decided_at_ms,
            pending: self.pending,
        }
    }
}

} // verus!
