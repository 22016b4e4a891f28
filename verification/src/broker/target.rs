//! Where a job runs: the local node or an enrolled worker, and the text labels
//! that name a target in fallback lists.
use vstd::prelude::*;

use crate::text::{chars_eq, chars_of, eq_ignore_ascii_case, eq_ignore_ascii_case_chars};

verus! {

/// Node id of the local machine in fabric snapshots and fallback lists.
pub const LOCAL_NODE_ID: &'static str = "local";

#[derive(Debug, Clone)]
pub enum ExecutionTargetId {
    Local,
    Worker { worker_id: String },
}

/// A target as a mathematical value.
pub enum TargetView {
    Local,
    Worker(Seq<char>),
}

impl View for ExecutionTargetId {
    type V = TargetView;

    open spec fn view(&self) -> TargetView {
        match self {
            ExecutionTargetId::Local => TargetView::Local,
            ExecutionTargetId::Worker { worker_id } => TargetView::Worker(worker_id@),
        }
    }
}

/// The label of a target: `local`, or the worker id.
pub open spec fn label_of(t: TargetView) -> Seq<char> {
    match t {
        TargetView::Local => LOCAL_NODE_ID@,
        TargetView::Worker(id) => id,
    }
}

/// The target a label names: the local node for its id or any casing of
/// `local`, else the worker with that id.
pub open spec fn target_of_label(l: Seq<char>) -> TargetView {
    if l == LOCAL_NODE_ID@ || eq_ignore_ascii_case(l, "local"@) {
        TargetView::Local
    } else {
        TargetView::Worker(l)
    }
}

/// Copy of a string with the same characters.
pub fn copy_string(s: &String) -> (r: String)
    ensures
        r@ == s@,
{
    s.clone()
}

impl ExecutionTargetId {
    /// Same target, by value.
    pub fn same(&self, other: &ExecutionTargetId) -> (r: bool)
        ensures
            r == (self@ == other@),
    {
        match (self, other) {
            (ExecutionTargetId::Local, ExecutionTargetId::Local) => true,
            (ExecutionTargetId::Worker { worker_id: a }, ExecutionTargetId::Worker { worker_id: b }) => {
                let ca = chars_of(a.as_str());
                let cb = chars_of(b.as_str());
                let r = chars_eq(ca.as_slice(), cb.as_slice());
                proof {
                    if r {
                        assert(self@ == other@);
                    }
                }
                r
            },
            _ => false,
        }
    }

    /// A copy that names the same target.
    pub fn duplicate(&self) -> (r: ExecutionTargetId)
        ensures
            r@ == self@,
    {
        match self {
            ExecutionTargetId::Local => ExecutionTargetId::Local,
            ExecutionTargetId::Worker { worker_id } => ExecutionTargetId::Worker {
                worker_id: copy_string(worker_id),
            },
        }
    }

    /// The label that names this target in fallback lists.
    pub fn as_label(&self) -> (r: String)
        ensures
            r@ == label_of(self@),
    {
        match self {
            ExecutionTargetId::Local => String::from_str(LOCAL_NODE_ID),
            ExecutionTargetId::Worker { worker_id } => copy_string(worker_id),
        }
    }
}

/// Read a fallback label back as a target.
pub fn parse_target_label(label: &str) -> (r: ExecutionTargetId)
    ensures
        r@ == target_of_label(label@),
{
    let l = chars_of(label);
    let local_id = chars_of(LOCAL_NODE_ID);
    let local_word = chars_of("local");
    if chars_eq(l.as_slice(), local_id.as_slice()) || eq_ignore_ascii_case_chars(
        l.as_slice(),
        local_word.as_slice(),
    ) {
        ExecutionTargetId::Local
    } else {
        ExecutionTargetId::Worker { worker_id: String::from_str(label) }
    }
}

/// Read every label of a fallback list, in order.
pub fn labels_to_targets(labels: &[String]) -> (r: Vec<ExecutionTargetId>)
    ensures
        r@.len() == labels@.len(),
        forall|i: int| 0 <= i < labels@.len() ==> #[trigger] r@[i]@ == target_of_label(labels@[i]@),
{
    let mut out: Vec<ExecutionTargetId> = Vec::new();
    let mut i: usize = 0;
    while i < labels.len()
        invariant
            i <= labels.len(),
            out@.len() == i,
            forall|j: int| 0 <= j < i ==> #[trigger] out@[j]@ == target_of_label(labels@[j]@),
        decreases labels.len() - i,
    {
        out.push(parse_target_label(labels[i].as_str()));
        i = i + 1;
    }
    out
}

/// Reading a target's label gives the target back, unless a worker id is
/// spelled as the local label.
pub proof fn lemma_label_round_trip(t: TargetView)
    requires
        t matches TargetView::Worker(id) ==> !(id == LOCAL_NODE_ID@ || eq_ignore_ascii_case(
            id,
            "local"@,
        )),
    ensures
        target_of_label(label_of(t)) == t,
{
}

/// How a target is labelled in telemetry: `local` (also for no target) or `remote`.
pub fn target_type_label(target: Option<&ExecutionTargetId>) -> (r: &'static str)
    ensures
        r@ == (match target {
            Some(ExecutionTargetId::Worker { .. }) => "remote"@,
            _ => "local"@,
        }),
{
    match target {
        Some(ExecutionTargetId::Worker { .. }) => "remote",
        _ => "local",
    }
}

} // verus!
