//! Bounded admission queue with per-run and per-worker caps, deadline expiry,
//! priority order and interactive-capacity reservation.
use vstd::prelude::*;

use crate::broker::priority::{
    is_background_or_below, is_interactive_or_above, rank_of, ComputePriority, FairnessPolicy,
};


verus! {

/// Capacity limits of the admission queue.
#[derive(Debug, Clone, Copy)]
pub struct QueueLimits {
    pub global_max: usize,
    pub per_run_max: usize,
    pub per_worker_max: usize,
}

impl Default for QueueLimits {
    fn default() -> (r: Self)
        ensures
            r.global_max == 256 && r.per_run_max == 64 && r.per_worker_max == 64,
    {
        QueueLimits { global_max: 256, per_run_max: 64, per_worker_max: 64 }
    }
}

/// What the queue reads from a compute request. Times are milliseconds since the epoch.
#[derive(Debug)]
pub struct QueueRequest {
    pub attempt_id: String,
    pub run_id: String,
    pub task_id: String,
    pub priority: ComputePriority,
    pub queue_deadline_ms: i64,
    /// Assigned worker, or `None` for the local target.
    pub target_worker_id: Option<String>,
}

/// Answer to an accepted enqueue.
#[derive(Debug)]
pub struct QueueAdmission {
    pub attempt_id: String,
    pub position: usize,
    pub queued_at_ms: i64,
    pub queue_deadline_ms: i64,
}

/// One queued attempt.
#[derive(Debug)]
pub struct QueueEntry {
    pub attempt_id: String,
    pub run_id: String,
    pub task_id: String,
    pub priority: ComputePriority,
    pub queued_at_ms: i64,
    pub queue_deadline_ms: i64,
    pub worker_key: String,
}

/// Mathematical value of a queued attempt.
pub struct EntryView {
    pub attempt_id: Seq<char>,
    pub run_id: Seq<char>,
    pub task_id: Seq<char>,
    pub priority: ComputePriority,
    pub queued_at_ms: i64,
    pub queue_deadline_ms: i64,
    pub worker_key: Seq<char>,
}

impl View for QueueEntry {
    type V = EntryView;

    open spec fn view(&self) -> EntryView {
        EntryView {
            attempt_id: self.attempt_id@,
            run_id: self.run_id@,
            task_id: self.task_id@,
            priority: self.priority,
            queued_at_ms: self.queued_at_ms,
            queue_deadline_ms: self.queue_deadline_ms,
            worker_key: self.worker_key@,
        }
    }
}

/// Mathematical value of the queue: its entries in arrival order, the number of
/// background pops since the last non-background one, and its settings.
pub struct QueueModel {
    pub entries: Seq<EntryView>,
    pub consecutive_background: u32,
    pub limits: QueueLimits,
    pub fairness: FairnessPolicy,
}

pub open spec fn entry_views(es: Seq<QueueEntry>) -> Seq<EntryView> {
    es.map_values(|e: QueueEntry| e@)
}

/// Index of the first entry holding attempt `id`, or -1.
pub open spec fn find_id(es: Seq<EntryView>, id: Seq<char>) -> int
    decreases es.len(),
{
    if es.len() == 0 {
        -1
    } else {
        let j = find_id(es.drop_last(), id);
        if j >= 0 {
            j
        } else if es.last().attempt_id == id {
            es.len() - 1
        } else {
            -1
        }
    }
}

pub open spec fn is_member(es: Seq<EntryView>, id: Seq<char>) -> bool {
    exists|i: int| 0 <= i < es.len() && es[i].attempt_id == id
}

pub open spec fn count_run(es: Seq<EntryView>, run: Seq<char>) -> nat
    decreases es.len(),
{
    if es.len() == 0 {
        0
    } else {
        count_run(es.drop_last(), run) + if es.last().run_id == run {
            1nat
        } else {
            0nat
        }
    }
}

pub open spec fn count_worker(es: Seq<EntryView>, key: Seq<char>) -> nat
    decreases es.len(),
{
    if es.len() == 0 {
        0
    } else {
        count_worker(es.drop_last(), key) + if es.last().worker_key == key {
            1nat
        } else {
            0nat
        }
    }
}

/// Entries strictly more urgent than `rank`.
pub open spec fn count_rank_below(es: Seq<EntryView>, rank: u8) -> nat
    decreases es.len(),
{
    if es.len() == 0 {
        0
    } else {
        count_rank_below(es.drop_last(), rank) + if rank_of(es.last().priority) < rank {
            1nat
        } else {
            0nat
        }
    }
}

/// The eviction victim: the last entry of the least urgent rank, or -1.
pub open spec fn lowest_idx(es: Seq<EntryView>) -> int
    decreases es.len(),
{
    if es.len() == 0 {
        -1
    } else {
        let j = lowest_idx(es.drop_last());
        if j < 0 || rank_of(es.last().priority) >= rank_of(es[j].priority) {
            es.len() - 1
        } else {
            j
        }
    }
}

/// Entries whose queue deadline is still ahead of `now`, in order.
pub open spec fn keep_live(es: Seq<EntryView>, now: i64) -> Seq<EntryView>
    decreases es.len(),
{
    if es.len() == 0 {
        Seq::empty()
    } else {
        let r = keep_live(es.drop_last(), now);
        if es.last().queue_deadline_ms > now {
            r.push(es.last())
        } else {
            r
        }
    }
}

pub open spec fn any_interactive(es: Seq<EntryView>) -> bool {
    exists|i: int| 0 <= i < es.len() && is_interactive_or_above(es[i].priority)
}

/// Service order: more urgent rank first, then earlier arrival.
pub open spec fn served_before_plain(a: EntryView, b: EntryView) -> bool {
    rank_of(a.priority) < rank_of(b.priority) || (rank_of(a.priority) == rank_of(b.priority)
        && a.queued_at_ms < b.queued_at_ms)
}

/// Service order when interactive work is preferred: interactive entries first.
pub open spec fn served_before(a: EntryView, b: EntryView, prefer_interactive: bool) -> bool {
    if prefer_interactive && is_interactive_or_above(a.priority) && !is_interactive_or_above(
        b.priority,
    ) {
        true
    } else if prefer_interactive && !is_interactive_or_above(a.priority)
        && is_interactive_or_above(b.priority) {
        false
    } else {
        served_before_plain(a, b)
    }
}

/// The entry served next: the first one that no other entry precedes, or -1.
pub open spec fn first_min_idx(es: Seq<EntryView>, prefer: bool) -> int
    decreases es.len(),
{
    if es.len() == 0 {
        -1
    } else {
        let j = first_min_idx(es.drop_last(), prefer);
        if j < 0 || served_before(es.last(), es[j], prefer) {
            es.len() - 1
        } else {
            j
        }
    }
}

pub open spec fn worker_key_of(target: Option<String>) -> Seq<char> {
    match target {
        Some(w) => w@,
        None => "local"@,
    }
}

pub open spec fn new_entry(req: QueueRequest, now: i64) -> EntryView {
    EntryView {
        attempt_id: req.attempt_id@,
        run_id: req.run_id@,
        task_id: req.task_id@,
        priority: req.priority,
        queued_at_ms: now,
        queue_deadline_ms: req.queue_deadline_ms,
        worker_key: worker_key_of(req.target_worker_id),
    }
}

pub open spec fn with_entries(m: QueueModel, es: Seq<EntryView>) -> QueueModel {
    QueueModel { entries: es, ..m }
}

/// Queue after an enqueue of `req` at `now`, and the position granted (`None`: refused).
pub open spec fn enqueue_outcome(m: QueueModel, req: QueueRequest, now: i64) -> (
    QueueModel,
    Option<usize>,
) {
    let rank = rank_of(req.priority);
    if is_member(m.entries, req.attempt_id@) {
        (m, Some(count_rank_below(m.entries, rank) as usize))
    } else {
        let full = m.entries.len() >= m.limits.global_max;
        if full && rank > rank_of(ComputePriority::Interactive) {
            (m, None)
        } else if full && m.entries.len() == 0 {
            (m, None)
        } else {
            let es = if full {
                m.entries.remove(lowest_idx(m.entries))
            } else {
                m.entries
            };
            let m2 = with_entries(m, es);
            let wk = worker_key_of(req.target_worker_id);
            let free = if m.limits.global_max >= es.len() {
                m.limits.global_max - es.len()
            } else {
                0
            };
            if count_run(es, req.run_id@) >= m.limits.per_run_max {
                (m2, None)
            } else if count_worker(es, wk) >= m.limits.per_worker_max {
                (m2, None)
            } else if is_background_or_below(req.priority) && free
                <= m.fairness.interactive_reserved_slots {
                (m2, None)
            } else {
                let es2 = es.push(new_entry(req, now));
                (with_entries(m, es2), Some((es2.len() - 1) as usize))
            }
        }
    }
}

/// Queue after `pop_next(now)`, and the entry it hands out.
pub open spec fn pop_outcome(m: QueueModel, now: i64) -> (QueueModel, Option<EntryView>) {
    let live = keep_live(m.entries, now);
    if live.len() == 0 {
        (with_entries(m, live), None)
    } else {
        let prefer = m.consecutive_background >= m.fairness.max_consecutive_background
            && any_interactive(live);
        let i = first_min_idx(live, prefer);
        let e = live[i];
        let cb = if is_background_or_below(e.priority) {
            if m.consecutive_background == u32::MAX {
                0u32
            } else {
                (m.consecutive_background + 1) as u32
            }
        } else {
            0u32
        };
        (QueueModel { entries: live.remove(i), consecutive_background: cb, ..m }, Some(e))
    }
}

/// Queue after `remove(id)`, and whether the attempt was queued.
pub open spec fn remove_outcome(m: QueueModel, id: Seq<char>) -> (QueueModel, bool) {
    if is_member(m.entries, id) {
        (with_entries(m, m.entries.remove(find_id(m.entries, id))), true)
    } else {
        (m, false)
    }
}

/// No attempt is queued twice and the global cap holds.
pub open spec fn queue_wf(m: QueueModel) -> bool {
    &&& m.entries.len() <= m.limits.global_max
    &&& forall|i: int, j: int|
        0 <= i < j < m.entries.len() ==> m.entries[i].attempt_id != m.entries[j].attempt_id
}

/// Bounded admission queue.
pub struct QueueManager {
    limits: QueueLimits,
    fairness: FairnessPolicy,
    entries: Vec<QueueEntry>,
    consecutive_background: u32,
}

impl View for QueueManager {
    type V = QueueModel;

    closed spec fn view(&self) -> QueueModel {
        QueueModel {
            entries: entry_views(self.entries@),
            consecutive_background: self.consecutive_background,
            limits: self.limits,
            fairness: self.fairness,
        }
    }
}

// ---- lemmas about the sequence functions ----

pub proof fn lemma_find_id(es: Seq<EntryView>, id: Seq<char>)
    ensures
        -1 <= find_id(es, id) < es.len(),
        find_id(es, id) >= 0 ==> es[find_id(es, id)].attempt_id == id,
        find_id(es, id) >= 0 <==> is_member(es, id),
        forall|k: int| 0 <= k < find_id(es, id) ==> (#[trigger] es[k]).attempt_id != id,
        find_id(es, id) < 0 ==> forall|k: int| 0 <= k < es.len() ==> (#[trigger] es[k]).attempt_id != id,
    decreases es.len(),
{
    if es.len() > 0 {
        let p = es.drop_last();
        lemma_find_id(p, id);
        let j = find_id(p, id);
        assert forall|k: int| 0 <= k < find_id(es, id) implies (#[trigger] es[k]).attempt_id != id by {
            assert(es[k] == p[k]);
        }
        if find_id(es, id) < 0 {
            assert forall|k: int| 0 <= k < es.len() implies (#[trigger] es[k]).attempt_id != id by {
                if k < p.len() {
                    assert(es[k] == p[k]);
                }
            }
        }
        if j >= 0 {
            assert(es[j] == p[j]);
        }
    }
}

pub proof fn lemma_lowest_idx(es: Seq<EntryView>)
    ensures
        es.len() == 0 <==> lowest_idx(es) == -1,
        -1 <= lowest_idx(es) < es.len(),
        lowest_idx(es) >= 0 ==> forall|k: int|
            0 <= k < es.len() ==> rank_of((#[trigger] es[k]).priority) <= rank_of(
                es[lowest_idx(es)].priority,
            ),
    decreases es.len(),
{
    if es.len() > 0 {
        let p = es.drop_last();
        lemma_lowest_idx(p);
        let j = lowest_idx(p);
        let m = lowest_idx(es);
        assert forall|k: int| 0 <= k < es.len() implies rank_of((#[trigger] es[k]).priority)
            <= rank_of(es[m].priority) by {
            if k < p.len() {
                assert(es[k] == p[k]);
                assert(es[j] == p[j]);
            }
        }
    }
}

pub proof fn lemma_first_min_idx(es: Seq<EntryView>, prefer: bool)
    ensures
        es.len() == 0 <==> first_min_idx(es, prefer) == -1,
        -1 <= first_min_idx(es, prefer) < es.len(),
        first_min_idx(es, prefer) >= 0 ==> forall|k: int|
            0 <= k < es.len() ==> !served_before(
                #[trigger] es[k],
                es[first_min_idx(es, prefer)],
                prefer,
            ),
    decreases es.len(),
{
    if es.len() > 0 {
        let p = es.drop_last();
        lemma_first_min_idx(p, prefer);
        let j = first_min_idx(p, prefer);
        let m = first_min_idx(es, prefer);
        assert forall|k: int| 0 <= k < es.len() implies !served_before(
            #[trigger] es[k],
            es[m],
            prefer,
        ) by {
            if k < p.len() {
                assert(es[k] == p[k]);
                assert(es[j] == p[j]);
                if m == es.len() - 1 && j >= 0 && served_before(es[k], es[m], prefer) {
                    lemma_served_before_trans(es[k], es[m], es[j], prefer);
                }
            }
        }
    }
}

/// Service order is transitive.
pub proof fn lemma_served_before_trans(a: EntryView, b: EntryView, c: EntryView, prefer: bool)
    requires
        served_before(a, b, prefer),
        served_before(b, c, prefer),
    ensures
        served_before(a, c, prefer),
{
}

/// Service order is irreflexive.
pub proof fn lemma_served_before_irrefl(a: EntryView, prefer: bool)
    ensures
        !served_before(a, a, prefer),
{
}

pub proof fn lemma_keep_live(es: Seq<EntryView>, now: i64)
    ensures
        keep_live(es, now).len() <= es.len(),
        forall|k: int|
            0 <= k < keep_live(es, now).len() ==> keep_live(es, now)[k].queue_deadline_ms > now,
        forall|k: int|
            0 <= k < keep_live(es, now).len() ==> exists|j: int|
                0 <= j < es.len() && es[j] == #[trigger] keep_live(es, now)[k],
        forall|j: int|
            0 <= j < es.len() && es[j].queue_deadline_ms > now ==> exists|k: int|
                0 <= k < keep_live(es, now).len() && keep_live(es, now)[k] == #[trigger] es[j],
    decreases es.len(),
{
    if es.len() > 0 {
        let p = es.drop_last();
        lemma_keep_live(p, now);
        let r = keep_live(p, now);
        assert forall|k: int| 0 <= k < keep_live(es, now).len() implies exists|j: int|
            0 <= j < es.len() && es[j] == #[trigger] keep_live(es, now)[k] by {
            if k < r.len() {
                let j = choose|j: int| 0 <= j < p.len() && p[j] == r[k];
                assert(es[j] == p[j]);
            } else {
                assert(es[es.len() - 1] == keep_live(es, now)[k]);
            }
        }
        assert forall|j: int| 0 <= j < es.len() && es[j].queue_deadline_ms > now implies exists|
            k: int,
        |
            0 <= k < keep_live(es, now).len() && keep_live(es, now)[k] == #[trigger] es[j] by {
            if j < es.len() - 1 {
                assert(p[j] == es[j]);
                let k = choose|k: int| 0 <= k < r.len() && r[k] == #[trigger] p[j];
                assert(keep_live(es, now)[k] == r[k]);
            } else {
                assert(keep_live(es, now)[r.len() as int] == es[j]);
            }
        }
    }
}

/// Every attempt kept by `keep_live` is unexpired.
proof fn lemma_keep_live_deadlines(es: Seq<EntryView>, now: i64)
    ensures
        forall|k: int|
            0 <= k < keep_live(es, now).len() ==> (#[trigger] keep_live(es, now)[k]).queue_deadline_ms > now,
    decreases es.len(),
{
    if es.len() > 0 {
        lemma_keep_live_deadlines(es.drop_last(), now);
    }
}

pub proof fn lemma_keep_live_len(es: Seq<EntryView>, now: i64)
    ensures
        keep_live(es, now).len() <= es.len(),
    decreases es.len(),
{
    if es.len() > 0 {
        lemma_keep_live_len(es.drop_last(), now);
    }
}

/// The ids of a unique sequence stay unique in any subsequence selected by `keep_live`.
proof fn lemma_keep_live_unique(es: Seq<EntryView>, now: i64)
    requires
        forall|i: int, j: int| 0 <= i < j < es.len() ==> es[i].attempt_id != es[j].attempt_id,
    ensures
        forall|i: int, j: int|
            0 <= i < j < keep_live(es, now).len() ==> keep_live(es, now)[i].attempt_id
                != keep_live(es, now)[j].attempt_id,
    decreases es.len(),
{
    if es.len() > 0 {
        let p = es.drop_last();
        lemma_keep_live_unique(p, now);
        lemma_keep_live(p, now);
        let r = keep_live(p, now);
        if es.last().queue_deadline_ms > now {
            assert forall|i: int, j: int|
                0 <= i < j < keep_live(es, now).len() implies keep_live(es, now)[i].attempt_id
                != keep_live(es, now)[j].attempt_id by {
                if j == r.len() {
                    let a = choose|a: int| 0 <= a < p.len() && p[a] == #[trigger] r[i];
                    assert(es[a] == p[a]);
                }
            }
        }
    }
}

proof fn lemma_remove_unique(es: Seq<EntryView>, x: int)
    requires
        0 <= x < es.len(),
        forall|i: int, j: int| 0 <= i < j < es.len() ==> es[i].attempt_id != es[j].attempt_id,
    ensures
        forall|i: int, j: int|
            0 <= i < j < es.remove(x).len() ==> es.remove(x)[i].attempt_id != es.remove(
                x,
            )[j].attempt_id,
        forall|k: int|
            0 <= k < es.remove(x).len() ==> (#[trigger] es.remove(x)[k]).attempt_id
                != es[x].attempt_id,
{
    let r = es.remove(x);
    assert forall|k: int| 0 <= k < r.len() implies r[k] == (if k < x {
        es[k]
    } else {
        es[k + 1]
    }) by {}
}

// ---- laws ----

/// An accepted enqueue leaves the attempt queued.
pub proof fn lemma_admitted_is_queued(m: QueueModel, req: QueueRequest, now: i64)
    requires
        queue_wf(m),
        enqueue_outcome(m, req, now).1 is Some,
    ensures
        is_member(enqueue_outcome(m, req, now).0.entries, req.attempt_id@),
{
    if !is_member(m.entries, req.attempt_id@) {
        let es2 = enqueue_outcome(m, req, now).0.entries;
        assert(es2[es2.len() - 1].attempt_id == req.attempt_id@);
    }
}

/// Enqueueing an attempt that is already queued changes nothing and reports how many
/// queued attempts are more urgent.
pub proof fn lemma_enqueue_idempotent(m: QueueModel, req: QueueRequest, now: i64)
    requires
        is_member(m.entries, req.attempt_id@),
    ensures
        enqueue_outcome(m, req, now).0 == m,
        enqueue_outcome(m, req, now).1 == Some(count_rank_below(m.entries, rank_of(req.priority)) as usize),
{
}

/// A refused enqueue never queues the attempt.
pub proof fn lemma_refused_not_queued(m: QueueModel, req: QueueRequest, now: i64)
    requires
        queue_wf(m),
        enqueue_outcome(m, req, now).1 is None,
    ensures
        !is_member(enqueue_outcome(m, req, now).0.entries, req.attempt_id@),
{
    let id = req.attempt_id@;
    let es = m.entries;
    if es.len() >= m.limits.global_max && es.len() > 0 && rank_of(req.priority) <= rank_of(
        ComputePriority::Interactive,
    ) {
        lemma_lowest_idx(es);
        let x = lowest_idx(es);
        let r = es.remove(x);
        assert forall|k: int| 0 <= k < r.len() implies r[k].attempt_id != id by {
            if k < x {
                assert(r[k] == es[k]);
            } else {
                assert(r[k] == es[k + 1]);
            }
        }
    }
}

/// After `remove(id)` the attempt is no longer queued, and the answer says whether it was.
pub proof fn lemma_remove_dequeues(m: QueueModel, id: Seq<char>)
    requires
        queue_wf(m),
    ensures
        !is_member(remove_outcome(m, id).0.entries, id),
        remove_outcome(m, id).1 == is_member(m.entries, id),
        queue_wf(remove_outcome(m, id).0),
{
    lemma_find_id(m.entries, id);
    if is_member(m.entries, id) {
        let x = find_id(m.entries, id);
        lemma_remove_unique(m.entries, x);
    }
}

/// `pop_next` hands out nothing exactly when every queued attempt has expired.
pub proof fn lemma_pop_empty_iff_expired(m: QueueModel, now: i64)
    ensures
        pop_outcome(m, now).1 is None <==> forall|j: int|
            0 <= j < m.entries.len() ==> (#[trigger] m.entries[j]).queue_deadline_ms <= now,
{
    let live = keep_live(m.entries, now);
    lemma_keep_live(m.entries, now);
    if live.len() == 0 {
        assert forall|j: int| 0 <= j < m.entries.len() implies (
        #[trigger] m.entries[j]).queue_deadline_ms <= now by {
            if m.entries[j].queue_deadline_ms > now {
                let k = choose|k: int| 0 <= k < live.len() && live[k] == #[trigger] m.entries[j];
            }
        }
    } else {
        let j0 = choose|j: int| 0 <= j < m.entries.len() && m.entries[j] == #[trigger] live[0];
        assert(m.entries[j0].queue_deadline_ms > now);
    }
}

/// After `pop_next` only unexpired attempts stay queued, the handed-out one no longer is,
/// and the queue stays well formed.
pub proof fn lemma_pop_keeps_live(m: QueueModel, now: i64)
    requires
        queue_wf(m),
    ensures
        forall|k: int|
            0 <= k < pop_outcome(m, now).0.entries.len() ==> (
            #[trigger] pop_outcome(m, now).0.entries[k]).queue_deadline_ms > now,
        queue_wf(pop_outcome(m, now).0),
        pop_outcome(m, now).1 matches Some(e) ==> !is_member(
            pop_outcome(m, now).0.entries,
            e.attempt_id,
        ),
{
    let live = keep_live(m.entries, now);
    lemma_keep_live_deadlines(m.entries, now);
    lemma_keep_live_len(m.entries, now);
    lemma_keep_live_unique(m.entries, now);
    if live.len() > 0 {
        let prefer = m.consecutive_background >= m.fairness.max_consecutive_background
            && any_interactive(live);
        lemma_first_min_idx(live, prefer);
        let i = first_min_idx(live, prefer);
        lemma_remove_unique(live, i);
        let rest = live.remove(i);
        assert(pop_outcome(m, now).0.entries == rest);
        assert forall|k: int| 0 <= k < rest.len() implies (#[trigger] rest[k]).queue_deadline_ms
            > now by {
            if k < i {
                assert(rest[k] == live[k]);
            } else {
                assert(rest[k] == live[k + 1]);
            }
        }
    }
}

/// What `pop_next` hands out is a queued, unexpired attempt that no other unexpired
/// attempt precedes in service order.
pub proof fn lemma_pop_serves_first(m: QueueModel, now: i64)
    ensures
        pop_outcome(m, now).1 matches Some(e) ==> {
            &&& e.queue_deadline_ms > now
            &&& exists|j: int| 0 <= j < m.entries.len() && m.entries[j] == e
            &&& forall|j: int|
                0 <= j < m.entries.len() && m.entries[j].queue_deadline_ms > now ==> !served_before(
                    #[trigger] m.entries[j],
                    e,
                    m.consecutive_background >= m.fairness.max_consecutive_background
                        && any_interactive(keep_live(m.entries, now)),
                )
        },
{
    let live = keep_live(m.entries, now);
    lemma_keep_live(m.entries, now);
    if live.len() > 0 {
        let prefer = m.consecutive_background >= m.fairness.max_consecutive_background
            && any_interactive(live);
        lemma_first_min_idx(live, prefer);
        let i = first_min_idx(live, prefer);
        let e = live[i];
        assert(pop_outcome(m, now).1 == Some(e));
        let j0 = choose|j: int| 0 <= j < m.entries.len() && m.entries[j] == #[trigger] live[i];
        assert forall|j: int|
            0 <= j < m.entries.len() && m.entries[j].queue_deadline_ms > now implies !served_before(
            #[trigger] m.entries[j],
            e,
            prefer,
        ) by {
            let k = choose|k: int| 0 <= k < live.len() && live[k] == #[trigger] m.entries[j];
            assert(!served_before(live[k], live[i], prefer));
        }
    }
}

/// Once background work has been served `max_consecutive_background` times in a row,
/// an unexpired interactive attempt is served before any background or normal work.
pub proof fn lemma_interactive_not_starved(m: QueueModel, now: i64, j: int)
    requires
        queue_wf(m),
        m.consecutive_background >= m.fairness.max_consecutive_background,
        0 <= j < m.entries.len(),
        m.entries[j].queue_deadline_ms > now,
        is_interactive_or_above(m.entries[j].priority),
    ensures
        pop_outcome(m, now).1 matches Some(e) && is_interactive_or_above(e.priority),
{
    let live = keep_live(m.entries, now);
    lemma_keep_live(m.entries, now);
    let k = choose|k: int| 0 <= k < live.len() && live[k] == #[trigger] m.entries[j];
    assert(any_interactive(live));
    lemma_first_min_idx(live, true);
    let i = first_min_idx(live, true);
    assert(!served_before(live[k], live[i], true));
}

// ---- executable helpers ----

proof fn entry_view_push(es: Seq<QueueEntry>, e: QueueEntry)
    ensures
        entry_views(es.push(e)) == entry_views(es).push(e@),
{
    assert(entry_views(es.push(e)) =~= entry_views(es).push(e@));
}

fn count_run_exec(es: &Vec<QueueEntry>, run: &String) -> (n: usize)
    ensures
        n == count_run(entry_views(es@), run@),
{
    let mut n: usize = 0;
    let mut i: usize = 0;
    while i < es.len()
        invariant
            i <= es.len(),
            n == count_run(entry_views(es@).take(i as int), run@),
            n <= i,
        decreases es.len() - i,
    {
        let ghost v = entry_views(es@);
        assert(v.take(i + 1).drop_last() =~= v.take(i as int));
        if es[i].run_id == *run {
            n = n + 1;
        }
        i = i + 1;
    }
    assert(entry_views(es@).take(es.len() as int) =~= entry_views(es@));
    n
}

fn count_worker_exec(es: &Vec<QueueEntry>, key: &String) -> (n: usize)
    ensures
        n == count_worker(entry_views(es@), key@),
{
    let mut n: usize = 0;
    let mut i: usize = 0;
    while i < es.len()
        invariant
            i <= es.len(),
            n == count_worker(entry_views(es@).take(i as int), key@),
            n <= i,
        decreases es.len() - i,
    {
        let ghost v = entry_views(es@);
        assert(v.take(i + 1).drop_last() =~= v.take(i as int));
        if es[i].worker_key == *key {
            n = n + 1;
        }
        i = i + 1;
    }
    assert(entry_views(es@).take(es.len() as int) =~= entry_views(es@));
    n
}

fn count_rank_below_exec(es: &Vec<QueueEntry>, rank: u8) -> (n: usize)
    ensures
        n == count_rank_below(entry_views(es@), rank),
{
    let mut n: usize = 0;
    let mut i: usize = 0;
    while i < es.len()
        invariant
            i <= es.len(),
            n == count_rank_below(entry_views(es@).take(i as int), rank),
            n <= i,
        decreases es.len() - i,
    {
        let ghost v = entry_views(es@);
        assert(v.take(i + 1).drop_last() =~= v.take(i as int));
        if es[i].priority.rank() < rank {
            n = n + 1;
        }
        i = i + 1;
    }
    assert(entry_views(es@).take(es.len() as int) =~= entry_views(es@));
    n
}

fn find_id_exec(es: &Vec<QueueEntry>, id: &String) -> (r: Option<usize>)
    ensures
        r matches Some(i) ==> i == find_id(entry_views(es@), id@),
        r is None ==> find_id(entry_views(es@), id@) == -1,
{
    let mut i: usize = 0;
    assert(entry_views(es@).take(0).len() == 0);
    while i < es.len()
        invariant
            i <= es.len(),
            find_id(entry_views(es@).take(i as int), id@) == -1,
        decreases es.len() - i,
    {
        let ghost v = entry_views(es@);
        assert(v.take(i + 1).drop_last() =~= v.take(i as int));
        if es[i].attempt_id == *id {
            proof {
                lemma_find_id_prefix(v, id@, i as int);
            }
            return Some(i);
        }
        i = i + 1;
    }
    assert(entry_views(es@).take(es.len() as int) =~= entry_views(es@));
    None
}

/// A match at `i` after a match-free prefix is the first match.
proof fn lemma_find_id_prefix(v: Seq<EntryView>, id: Seq<char>, i: int)
    requires
        0 <= i < v.len(),
        find_id(v.take(i), id) == -1,
        v[i].attempt_id == id,
    ensures
        find_id(v, id) == i,
    decreases v.len() - i,
{
    if i == v.len() - 1 {
        assert(v.drop_last() =~= v.take(i));
    } else {
        assert(v.drop_last().take(i) =~= v.take(i));
        lemma_find_id_prefix(v.drop_last(), id, i);
    }
}

fn lowest_idx_exec(es: &Vec<QueueEntry>) -> (r: usize)
    requires
        es.len() > 0,
    ensures
        r as int == lowest_idx(entry_views(es@)),
{
    let mut best: usize = 0;
    let mut i: usize = 1;
    proof {
        let v = entry_views(es@);
        assert(v.take(1).drop_last() =~= v.take(0));
        assert(v.take(0).len() == 0);
        assert(lowest_idx(v.take(0)) == -1);
    }
    while i < es.len()
        invariant
            1 <= i <= es.len(),
            best < i,
            best as int == lowest_idx(entry_views(es@).take(i as int)),
        decreases es.len() - i,
    {
        let ghost v = entry_views(es@);
        assert(v.take(i + 1).drop_last() =~= v.take(i as int));
        if es[i].priority.rank() >= es[best].priority.rank() {
            best = i;
        }
        i = i + 1;
    }
    assert(entry_views(es@).take(es.len() as int) =~= entry_views(es@));
    best
}

fn served_before_exec(a: &QueueEntry, b: &QueueEntry, prefer: bool) -> (r: bool)
    ensures
        r == served_before(a@, b@, prefer),
{
    let a_i = a.priority.rank() <= 1;
    let b_i = b.priority.rank() <= 1;
    if prefer && a_i && !b_i {
        true
    } else if prefer && !a_i && b_i {
        false
    } else {
        a.priority.rank() < b.priority.rank() || (a.priority.rank() == b.priority.rank()
            && a.queued_at_ms < b.queued_at_ms)
    }
}

fn first_min_idx_exec(es: &Vec<QueueEntry>, prefer: bool) -> (r: usize)
    requires
        es.len() > 0,
    ensures
        r as int == first_min_idx(entry_views(es@), prefer),
{
    let mut best: usize = 0;
    let mut i: usize = 1;
    proof {
        let v = entry_views(es@);
        assert(v.take(1).drop_last() =~= v.take(0));
        assert(v.take(0).len() == 0);
        assert(first_min_idx(v.take(0), prefer) == -1);
    }
    while i < es.len()
        invariant
            1 <= i <= es.len(),
            best < i,
            best as int == first_min_idx(entry_views(es@).take(i as int), prefer),
        decreases es.len() - i,
    {
        let ghost v = entry_views(es@);
        assert(v.take(i + 1).drop_last() =~= v.take(i as int));
        if served_before_exec(&es[i], &es[best], prefer) {
            best = i;
        }
        i = i + 1;
    }
    assert(entry_views(es@).take(es.len() as int) =~= entry_views(es@));
    best
}

fn any_interactive_exec(es: &Vec<QueueEntry>) -> (r: bool)
    ensures
        r == any_interactive(entry_views(es@)),
{
    let mut i: usize = 0;
    while i < es.len()
        invariant
            i <= es.len(),
            forall|k: int| 0 <= k < i ==> !is_interactive_or_above(es@[k].priority),
        decreases es.len() - i,
    {
        if es[i].priority.rank() <= 1 {
            assert(entry_views(es@)[i as int].priority == es@[i as int].priority);
            return true;
        }
        i = i + 1;
    }
    assert forall|k: int| 0 <= k < es.len() implies !is_interactive_or_above(
        entry_views(es@)[k].priority,
    ) by {
        assert(entry_views(es@)[k].priority == es@[k].priority);
    }
    false
}

fn copy_entry(e: &QueueEntry) -> (r: QueueEntry)
    ensures
        r@ == e@,
{
    QueueEntry {
        attempt_id: copy_string(&e.attempt_id),
        run_id: copy_string(&e.run_id),
        task_id: copy_string(&e.task_id),
        priority: e.priority,
        queued_at_ms: e.queued_at_ms,
        queue_deadline_ms: e.queue_deadline_ms,
        worker_key: copy_string(&e.worker_key),
    }
}

fn copy_string(s: &String) -> (r: String)
    ensures
        r@ == s@,
{
    s.clone()
}

impl QueueManager {
    pub fn new(limits: QueueLimits, fairness: FairnessPolicy) -> (q: Self)
        ensures
            q@.entries == Seq::<EntryView>::empty(),
            q@.consecutive_background == 0,
            q@.limits == limits,
            q@.fairness == fairness,
            queue_wf(q@),
    {
        let q = QueueManager { limits, fairness, entries: Vec::new(), consecutive_background: 0 };
        assert(entry_views(q.entries@) =~= Seq::<EntryView>::empty());
        q
    }

    /// Number of queued attempts.
    pub fn depth(&self) -> (n: usize)
        ensures
            n == self@.entries.len(),
    {
        self.entries.len()
    }

    /// Whether attempt `attempt_id` is queued.
    pub fn contains(&self, attempt_id: &String) -> (r: bool)
        ensures
            r == is_member(self@.entries, attempt_id@),
    {
        let r = find_id_exec(&self.entries, attempt_id);
        proof {
            lemma_find_id(entry_views(self.entries@), attempt_id@);
        }
        r.is_some()
    }

    /// Copies of the entries whose deadline is after `now`, in order.
    fn live_entries(&self, now: i64) -> (live: Vec<QueueEntry>)
        ensures
            entry_views(live@) == keep_live(self@.entries, now),
    {
        let mut live: Vec<QueueEntry> = Vec::new();
        let mut i: usize = 0;
        assert(self@.entries.take(0).len() == 0);
        while i < self.entries.len()
            invariant
                i <= self.entries.len(),
                entry_views(live@) == keep_live(self@.entries.take(i as int), now),
            decreases self.entries.len() - i,
        {
            proof {
                let v = self@.entries;
                assert(v.take(i + 1).drop_last() =~= v.take(i as int));
                assert(v.take(i + 1).last() == self.entries@[i as int]@);
            }
            if self.entries[i].queue_deadline_ms > now {
                let e = copy_entry(&self.entries[i]);
                let ghost lv = live@;
                live.push(e);
                proof {
                    entry_view_push(lv, e);
                }
            }
            i = i + 1;
        }
        assert(self@.entries.take(self@.entries.len() as int) =~= self@.entries);
        live
    }

    fn remove_at(&mut self, idx: usize) -> (e: QueueEntry)
        requires
            idx < old(self).entries.len(),
        ensures
            final(self)@ == with_entries(old(self)@, old(self)@.entries.remove(idx as int)),
            e@ == old(self)@.entries[idx as int],
    {
        let ghost pre = self.entries@;
        let e = self.entries.remove(idx);
        assert(entry_views(self.entries@) =~= entry_views(pre).remove(idx as int));
        e
    }

    /// Queue `req` at `now`; refused (`Err`) when a cap or the interactive reserve forbids it.
    pub fn enqueue(&mut self, req: &QueueRequest, now: i64) -> (r: Result<QueueAdmission, ()>)
        requires
            queue_wf(old(self)@),
        ensures
            queue_wf(final(self)@),
            final(self)@ == enqueue_outcome(old(self)@, *req, now).0,
            match r {
                Ok(a) => enqueue_outcome(old(self)@, *req, now).1 == Some(a.position)
                    && a.attempt_id@ == req.attempt_id@ && a.queued_at_ms == now
                    && a.queue_deadline_ms == req.queue_deadline_ms,
                Err(()) => enqueue_outcome(old(self)@, *req, now).1 is None,
            },
    {
        proof {
            lemma_find_id(self@.entries, req.attempt_id@);
        }
        let rank = req.priority.rank();
        if find_id_exec(&self.entries, &req.attempt_id).is_some() {
            let position = count_rank_below_exec(&self.entries, rank);
            return Ok(
                QueueAdmission {
                    attempt_id: copy_string(&req.attempt_id),
                    position,
                    queued_at_ms: now,
                    queue_deadline_ms: req.queue_deadline_ms,
                },
            );
        }
        if self.entries.len() >= self.limits.global_max {
            if rank > 1 {
                return Err(());
            }
            if self.entries.len() == 0 {
                return Err(());
            }
            let victim = lowest_idx_exec(&self.entries);
            proof {
                lemma_lowest_idx(self@.entries);
                lemma_remove_unique(self@.entries, victim as int);
            }
            let _evicted = self.remove_at(victim);
        }
        let run_count = count_run_exec(&self.entries, &req.run_id);
        if run_count >= self.limits.per_run_max {
            return Err(());
        }
        let worker_key = match &req.target_worker_id {
            Some(w) => copy_string(w),
            None => String::from_str("local"),
        };
        let worker_count = count_worker_exec(&self.entries, &worker_key);
        if worker_count >= self.limits.per_worker_max {
            return Err(());
        }
        if rank >= 3 {
            let free = self.limits.global_max.saturating_sub(self.entries.len());
            if free <= self.fairness.interactive_reserved_slots as usize {
                return Err(());
            }
        }
        let entry = QueueEntry {
            attempt_id: copy_string(&req.attempt_id),
            run_id: copy_string(&req.run_id),
            task_id: copy_string(&req.task_id),
            priority: req.priority,
            queued_at_ms: now,
            queue_deadline_ms: req.queue_deadline_ms,
            worker_key,
        };
        let ghost pre = self.entries@;
        assert(entry@ == new_entry(*req, now));
        self.entries.push(entry);
        proof {
            entry_view_push(pre, entry);
            let es = self@.entries;
            assert forall|i: int, j: int| 0 <= i < j < es.len() implies es[i].attempt_id
                != es[j].attempt_id by {
                if j == es.len() - 1 {
                    assert(entry_views(pre)[i] == es[i]);
                }
            }
        }
        let position = self.entries.len() - 1;
        Ok(
            QueueAdmission {
                attempt_id: copy_string(&req.attempt_id),
                position,
                queued_at_ms: now,
                queue_deadline_ms: req.queue_deadline_ms,
            },
        )
    }

    /// Withdraw attempt `attempt_id`; `false` when it was not queued.
    pub fn remove(&mut self, attempt_id: &String) -> (r: bool)
        requires
            queue_wf(old(self)@),
        ensures
            queue_wf(final(self)@),
            (final(self)@, r) == remove_outcome(old(self)@, attempt_id@),
    {
        proof {
            lemma_find_id(self@.entries, attempt_id@);
        }
        match find_id_exec(&self.entries, attempt_id) {
            None => false,
            Some(i) => {
                proof {
                    lemma_remove_unique(self@.entries, i as int);
                }
                let _e = self.remove_at(i);
                true
            },
        }
    }

    /// Drop expired attempts, then hand out the next one to serve.
    pub fn pop_next(&mut self, now: i64) -> (r: Option<(String, String, String, ComputePriority)>)
        requires
            queue_wf(old(self)@),
        ensures
            queue_wf(final(self)@),
            final(self)@ == pop_outcome(old(self)@, now).0,
            match (r, pop_outcome(old(self)@, now).1) {
                (Some((a, run, task, p)), Some(e)) => a@ == e.attempt_id && run@ == e.run_id
                    && task@ == e.task_id && p == e.priority,
                (None, None) => true,
                _ => false,
            },
    {
        let ghost pre = self@;
        let live = self.live_entries(now);
        proof {
            lemma_keep_live_len(pre.entries, now);
            lemma_keep_live_unique(pre.entries, now);
        }
        self.entries = live;
        assert(self@ == with_entries(pre, keep_live(pre.entries, now)));
        if self.entries.len() == 0 {
            return None;
        }
        let prefer = self.consecutive_background >= self.fairness.max_consecutive_background
            && any_interactive_exec(&self.entries);
        let idx = first_min_idx_exec(&self.entries, prefer);
        proof {
            lemma_first_min_idx(self@.entries, prefer);
            lemma_remove_unique(self@.entries, idx as int);
        }
        let e = self.remove_at(idx);
        if e.priority.rank() >= 3 {
            self.consecutive_background = self.consecutive_background.wrapping_add(1);
            assert(self.consecutive_background == (if pre.consecutive_background == u32::MAX { 0u32 } else { (pre.consecutive_background + 1) as u32 }));
        } else {
            self.consecutive_background = 0;
        }
        Some((e.attempt_id, e.run_id, e.task_id, e.priority))
    }
}

} // verus!
