//! Compute priority classes and queue fairness settings.
use vstd::prelude::*;

verus! {

/// Priority of a compute request. A lower rank is served first.
#[derive(Debug, Clone, Copy, PartialEq, Eq, Structural)]
pub enum ComputePriority {
    VerificationCritical,
    Interactive,
    Normal,
    Background,
}

pub open spec fn rank_of(p: ComputePriority) -> u8 {
    match p {
        ComputePriority::VerificationCritical => 0,
        ComputePriority::Interactive => 1,
        ComputePriority::Normal => 2,
        ComputePriority::Background => 3,
    }
}

/// `Interactive` or more urgent.
pub open spec fn is_interactive_or_above(p: ComputePriority) -> bool {
    rank_of(p) <= rank_of(ComputePriority::Interactive)
}

/// `Background` or less urgent.
pub open spec fn is_background_or_below(p: ComputePriority) -> bool {
    rank_of(p) >= rank_of(ComputePriority::Background)
}

impl ComputePriority {
    pub fn rank(&self) -> (r: u8)
        ensures
            r == rank_of(*self),
    {
        match self {
            ComputePriority::VerificationCritical => 0,
            ComputePriority::Interactive => 1,
            ComputePriority::Normal => 2,
            ComputePriority::Background => 3,
        }
    }
}

/// Fairness knobs of the admission queue.
#[derive(Debug, Clone, Copy)]
pub struct FairnessPolicy {
    /// Slots kept free for interactive work when the queue is nearly full.
    pub interactive_reserved_slots: u32,
    /// After this many background pops in a row, interactive work is preferred.
    pub max_consecutive_background: u32,
    /// Waiting time after which queued work counts as aged, in milliseconds.
    pub age_boost_after_ms: u64,
}

} // verus!
