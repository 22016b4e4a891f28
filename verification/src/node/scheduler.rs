//! Worker GPU slot: one job runs at a time, waiters queue by priority, owner
//! jobs preempt circle work and owner activity shuts circle work out.
//!
//! The slot decides; the host performs the effects it names (signal a cancel,
//! answer a waiter) and reports back what it could not deliver.
use vstd::prelude::*;

verus! {

#[derive(Debug, Clone, Copy, PartialEq, Eq, Structural)]
pub enum JobPriority {
    OwnerInteractive,
    OwnerBackground,
    CircleInteractive,
    CircleBackground,
}

#[derive(Debug, Clone, Copy, PartialEq, Eq, Structural)]
pub enum CancelReason {
    OwnerPreempt,
}

#[derive(Debug, Clone, Copy, PartialEq, Eq, Structural)]
pub enum SchedulerError {
    OwnerActiveBlocksCircle,
    Preempted(CancelReason),
}

impl SchedulerError {
    /// Operator-facing text of the error.
    pub fn message(&self) -> (s: &'static str)
        ensures
            s@ == (match *self {
                SchedulerError::OwnerActiveBlocksCircle => "owner active — circle jobs not accepted"@,
                SchedulerError::Preempted(_) => "preempted for owner"@,
            }),
    {
        match self {
            SchedulerError::OwnerActiveBlocksCircle => "owner active — circle jobs not accepted",
            SchedulerError::Preempted(_) => "preempted for owner",
        }
    }
}

pub open spec fn rank(p: JobPriority) -> u8 {
    match p {
        JobPriority::OwnerInteractive => 4,
        JobPriority::OwnerBackground => 3,
        JobPriority::CircleInteractive => 2,
        JobPriority::CircleBackground => 1,
    }
}

pub open spec fn is_circle(p: JobPriority) -> bool {
    p == JobPriority::CircleInteractive || p == JobPriority::CircleBackground
}

/// Rank of a priority: owner interactive highest, circle background lowest.
pub fn priority_rank(p: JobPriority) -> (r: u8)
    ensures
        r == rank(p),
{
    match p {
        JobPriority::OwnerInteractive => 4,
        JobPriority::OwnerBackground => 3,
        JobPriority::CircleInteractive => 2,
        JobPriority::CircleBackground => 1,
    }
}

/// Whether the priority belongs to circle (non-owner) work.
pub fn is_circle_priority(p: JobPriority) -> (r: bool)
    ensures
        r == is_circle(p),
{
    match p {
        JobPriority::CircleInteractive | JobPriority::CircleBackground => true,
        _ => false,
    }
}

/// An incoming job preempts the running one only when it ranks strictly higher.
pub fn should_preempt(running: JobPriority, incoming: JobPriority) -> (r: bool)
    ensures
        r == (rank(incoming) > rank(running)),
{
    priority_rank(incoming) > priority_rank(running)
}

/// A job holding or waiting for the slot.
#[derive(Debug)]
pub struct SlotJob {
    pub job_id: String,
    pub priority: JobPriority,
}

pub struct JobView {
    pub job_id: Seq<char>,
    pub priority: JobPriority,
}

impl View for SlotJob {
    type V = JobView;

    open spec fn view(&self) -> JobView {
        JobView { job_id: self.job_id@, priority: self.priority }
    }
}

pub struct SlotModel {
    pub running: Option<JobView>,
    pub owner_active_until_ms: Option<u64>,
    pub waiters: Seq<JobView>,
}

pub open spec fn owner_active(m: SlotModel, now: u64) -> bool {
    match m.owner_active_until_ms {
        Some(t) => now < t,
        None => false,
    }
}

/// What `try_take` decided.
#[derive(Debug)]
pub enum TakeSlot {
    /// Circle work is shut out while the owner is active.
    OwnerBlocks,
    /// This job already holds the slot.
    AlreadyRunning,
    /// The slot is held by a job this one may not preempt.
    Busy,
    /// The slot is now this job's; `preempted` names the job whose cancel must be signaled.
    Granted { preempted: Option<String> },
}

/// Model of the slot after `try_take`, and the preempted job, if any.
pub open spec fn take_outcome(m: SlotModel, job: JobView, now: u64) -> (SlotModel, int, Option<Seq<char>>) {
    if is_circle(job.priority) && owner_active(m, now) {
        (m, 0, None)
    } else {
        match m.running {
            Some(r) => if r.job_id == job.job_id {
                (m, 1, None)
            } else if rank(job.priority) > rank(r.priority) {
                (SlotModel { running: Some(job), ..m }, 3, Some(r.job_id))
            } else {
                (m, 2, None)
            },
            None => (SlotModel { running: Some(job), ..m }, 3, None),
        }
    }
}

pub open spec fn take_code(t: TakeSlot) -> int {
    match t {
        TakeSlot::OwnerBlocks => 0,
        TakeSlot::AlreadyRunning => 1,
        TakeSlot::Busy => 2,
        TakeSlot::Granted { .. } => 3,
    }
}

pub open spec fn preempted_of(t: TakeSlot) -> Option<Seq<char>> {
    match t {
        TakeSlot::Granted { preempted: Some(p) } => Some(p@),
        _ => None,
    }
}

/// Position where a waiter of rank `r` joins: after every waiter of rank `>= r`.
pub open spec fn insert_pos(ws: Seq<JobView>, r: u8) -> int
    decreases ws.len(),
{
    if ws.len() == 0 {
        0
    } else if rank(ws[0].priority) < r {
        0
    } else {
        1 + insert_pos(ws.drop_first(), r)
    }
}

/// Waiters are ordered by non-increasing rank.
pub open spec fn rank_sorted(ws: Seq<JobView>) -> bool {
    forall|i: int, j: int| 0 <= i < j < ws.len() ==> rank(ws[i].priority) >= rank(ws[j].priority)
}

/// Waiters that are not circle work, in order.
pub open spec fn owner_waiters(ws: Seq<JobView>) -> Seq<JobView>
    decreases ws.len(),
{
    if ws.len() == 0 {
        Seq::empty()
    } else {
        let r = owner_waiters(ws.drop_last());
        if is_circle(ws.last().priority) {
            r
        } else {
            r.push(ws.last())
        }
    }
}

/// Ids of circle waiters, in order.
pub open spec fn circle_waiter_ids(ws: Seq<JobView>) -> Seq<Seq<char>>
    decreases ws.len(),
{
    if ws.len() == 0 {
        Seq::empty()
    } else {
        let r = circle_waiter_ids(ws.drop_last());
        if is_circle(ws.last().priority) {
            r.push(ws.last().job_id)
        } else {
            r
        }
    }
}

/// Waiters other than `id`, in order.
pub open spec fn without_job(ws: Seq<JobView>, id: Seq<char>) -> Seq<JobView>
    decreases ws.len(),
{
    if ws.len() == 0 {
        Seq::empty()
    } else {
        let r = without_job(ws.drop_last(), id);
        if ws.last().job_id == id {
            r
        } else {
            r.push(ws.last())
        }
    }
}

/// The slot model with its head waiter taken off.
pub open spec fn without_head(m: SlotModel) -> SlotModel {
    SlotModel { waiters: m.waiters.drop_first(), ..m }
}

/// The slot model with nobody running.
pub open spec fn freed_slot(m: SlotModel) -> SlotModel {
    SlotModel { running: None, ..m }
}

/// Effects owed after the owner signals activity.
#[derive(Debug)]
pub struct OwnerSignal {
    /// Running circle job whose cancel must be signaled.
    pub cancel_running: Option<String>,
    /// Circle waiters to answer with `OwnerActiveBlocksCircle`, in queue order.
    pub rejected: Vec<String>,
}

/// One step of handing the free slot to the head waiter.
#[derive(Debug)]
pub enum GrantStep {
    /// Nobody waits.
    NoWaiters,
    /// The head waiter had gone away and was dropped.
    Dropped(String),
    /// The head waiter holds the slot now; the host answers it (and signals `preempted`).
    Granted { job_id: String, preempted: Option<String> },
    /// The head waiter cannot take the slot yet; it stays at the head.
    Blocked,
    /// The head waiter was refused; the host answers it with the error.
    Refused(String, SchedulerError),
}

/// Serializes fabric inference on one GPU.
pub struct GpuSlot {
    running: Option<SlotJob>,
    owner_active_until_ms: Option<u64>,
    waiters: Vec<SlotJob>,
}

impl View for GpuSlot {
    type V = SlotModel;

    closed spec fn view(&self) -> SlotModel {
        SlotModel {
            running: match self.running {
                Some(j) => Some(j@),
                None => None,
            },
            owner_active_until_ms: self.owner_active_until_ms,
            waiters: self.waiters@.map_values(|j: SlotJob| j@),
        }
    }
}

fn copy_job(j: &SlotJob) -> (r: SlotJob)
    ensures
        r@ == j@,
{
    SlotJob { job_id: j.job_id.clone(), priority: j.priority }
}

proof fn lemma_insert_pos(ws: Seq<JobView>, r: u8)
    ensures
        0 <= insert_pos(ws, r) <= ws.len(),
        forall|k: int| 0 <= k < insert_pos(ws, r) ==> rank((#[trigger] ws[k]).priority) >= r,
        insert_pos(ws, r) < ws.len() ==> rank(ws[insert_pos(ws, r)].priority) < r,
    decreases ws.len(),
{
    if ws.len() > 0 && rank(ws[0].priority) >= r {
        let t = ws.drop_first();
        lemma_insert_pos(t, r);
        assert forall|k: int| 0 <= k < insert_pos(ws, r) implies rank(
            (#[trigger] ws[k]).priority,
        ) >= r by {
            if k > 0 {
                assert(ws[k] == t[k - 1]);
            }
        }
    }
}

impl GpuSlot {
    pub fn new() -> (s: Self)
        ensures
            s@.running is None,
            s@.owner_active_until_ms is None,
            s@.waiters == Seq::<JobView>::empty(),
    {
        let s = GpuSlot { running: None, owner_active_until_ms: None, waiters: Vec::new() };
        assert(s@.waiters =~= Seq::<JobView>::empty());
        s
    }

    /// Jobs holding or waiting for the slot.
    pub fn queue_depth(&self) -> (n: u64)
        ensures
            n == if self@.running is Some && self@.waiters.len() == u64::MAX {
                u64::MAX as int
            } else {
                self@.waiters.len() + if self@.running is Some {
                    1int
                } else {
                    0int
                }
            },
    {
        let w = self.waiters.len() as u64;
        match &self.running {
            Some(_) => w.saturating_add(1),
            None => w,
        }
    }

    /// Whether the owner is active at `now_ms`.
    pub fn owner_active_at(&self, now_ms: u64) -> (r: bool)
        ensures
            r == owner_active(self@, now_ms),
    {
        match self.owner_active_until_ms {
            Some(t) => now_ms < t,
            None => false,
        }
    }

    /// Try to take the slot for `job` at `now_ms`.
    pub fn try_take(&mut self, job: SlotJob, now_ms: u64) -> (t: TakeSlot)
        ensures
            final(self)@ == take_outcome(old(self)@, job@, now_ms).0,
            take_code(t) == take_outcome(old(self)@, job@, now_ms).1,
            preempted_of(t) == take_outcome(old(self)@, job@, now_ms).2,
    {
        if is_circle_priority(job.priority) && self.owner_active_at(now_ms) {
            return TakeSlot::OwnerBlocks;
        }
        match &self.running {
            Some(r) => {
                if r.job_id == job.job_id {
                    return TakeSlot::AlreadyRunning;
                }
                if !should_preempt(r.priority, job.priority) {
                    return TakeSlot::Busy;
                }
            },
            None => {},
        }
        let mut prev = Some(job);
        std::mem::swap(&mut self.running, &mut prev);
        match prev {
            Some(p) => TakeSlot::Granted { preempted: Some(p.job_id) },
            None => TakeSlot::Granted { preempted: None },
        }
    }

    /// Queue `job` behind every waiter of equal or higher rank.
    pub fn push_waiter(&mut self, job: SlotJob)
        ensures
            final(self)@.running == old(self)@.running,
            final(self)@.owner_active_until_ms == old(self)@.owner_active_until_ms,
            final(self)@.waiters == old(self)@.waiters.insert(
                insert_pos(old(self)@.waiters, rank(job.priority)),
                job@,
            ),
    {
        let ghost pre = self@.waiters;
        let r = priority_rank(job.priority);
        let mut pos: usize = 0;
        proof {
            lemma_insert_pos(pre, r);
        }
        while pos < self.waiters.len() && priority_rank(self.waiters[pos].priority) >= r
            invariant
                pos <= self.waiters.len(),
                self@.waiters == pre,
                forall|k: int| 0 <= k < pos ==> rank((#[trigger] pre[k]).priority) >= r,
                pos <= insert_pos(pre, r),
            decreases self.waiters.len() - pos,
        {
            assert(pre[pos as int].priority == self.waiters@[pos as int].priority);
            proof {
                lemma_insert_pos(pre, r);
                if insert_pos(pre, r) <= pos {
                    assert(rank(pre[insert_pos(pre, r)].priority) >= r);
                }
            }
            pos = pos + 1;
        }
        proof {
            if pos < pre.len() {
                assert(pre[pos as int].priority == self.waiters@[pos as int].priority);
            }
            if pos < insert_pos(pre, r) {
                assert(rank(pre[pos as int].priority) >= r);
            }
        }
        let ghost wj = job@;
        self.waiters.insert(pos, job);
        assert(self@.waiters =~= pre.insert(pos as int, wj));
    }

    /// Drop the waiter `job_id` (its requester went away).
    pub fn remove_waiter(&mut self, job_id: &String)
        ensures
            final(self)@.running == old(self)@.running,
            final(self)@.owner_active_until_ms == old(self)@.owner_active_until_ms,
            final(self)@.waiters == without_job(old(self)@.waiters, job_id@),
    {
        let ghost pre = self@.waiters;
        let mut keep: Vec<SlotJob> = Vec::new();
        let mut i: usize = 0;
        assert(pre.take(0) =~= Seq::<JobView>::empty());
        while i < self.waiters.len()
            invariant
                i <= self.waiters.len(),
                self@.waiters == pre,
                keep@.map_values(|j: SlotJob| j@) == without_job(pre.take(i as int), job_id@),
            decreases self.waiters.len() - i,
        {
            proof {
                assert(pre.take(i + 1).drop_last() =~= pre.take(i as int));
                assert(pre.take(i + 1).last() == self.waiters@[i as int]@);
            }
            if !(self.waiters[i].job_id == *job_id) {
                let j = copy_job(&self.waiters[i]);
                let ghost kv = keep@;
                keep.push(j);
                assert(keep@.map_values(|j: SlotJob| j@) =~= kv.map_values(|j: SlotJob| j@).push(j@));
            }
            i = i + 1;
        }
        assert(pre.take(pre.len() as int) =~= pre);
        self.waiters = keep;
    }

    /// The owner is active from `now_ms` for `ttl_ms`: a running circle job must be
    /// canceled and every circle waiter is refused.
    pub fn signal_owner_activity(&mut self, now_ms: u64, ttl_ms: u64) -> (sig: OwnerSignal)
        requires
            now_ms + ttl_ms <= u64::MAX,
        ensures
            final(self)@.owner_active_until_ms == Some((now_ms + ttl_ms) as u64),
            final(self)@.running == old(self)@.running,
            final(self)@.waiters == owner_waiters(old(self)@.waiters),
            sig.rejected@.map_values(|s: String| s@) == circle_waiter_ids(old(self)@.waiters),
            match old(self)@.running {
                Some(r) => if is_circle(r.priority) {
                    sig.cancel_running matches Some(c) && c@ == r.job_id
                } else {
                    sig.cancel_running is None
                },
                None => sig.cancel_running is None,
            },
    {
        self.owner_active_until_ms = Some(now_ms + ttl_ms);
        let cancel_running = match &self.running {
            Some(r) => if is_circle_priority(r.priority) {
                Some(r.job_id.clone())
            } else {
                None
            },
            None => None,
        };
        let ghost pre = self@.waiters;
        let mut keep: Vec<SlotJob> = Vec::new();
        let mut rejected: Vec<String> = Vec::new();
        let mut i: usize = 0;
        assert(pre.take(0) =~= Seq::<JobView>::empty());
        while i < self.waiters.len()
            invariant
                i <= self.waiters.len(),
                self@.waiters == pre,
                keep@.map_values(|j: SlotJob| j@) == owner_waiters(pre.take(i as int)),
                rejected@.map_values(|s: String| s@) == circle_waiter_ids(pre.take(i as int)),
            decreases self.waiters.len() - i,
        {
            proof {
                assert(pre.take(i + 1).drop_last() =~= pre.take(i as int));
                assert(pre.take(i + 1).last() == self.waiters@[i as int]@);
            }
            if is_circle_priority(self.waiters[i].priority) {
                let id = self.waiters[i].job_id.clone();
                let ghost rv = rejected@;
                rejected.push(id);
                assert(rejected@.map_values(|s: String| s@) =~= rv.map_values(|s: String| s@).push(
                    id@,
                ));
            } else {
                let j = copy_job(&self.waiters[i]);
                let ghost kv = keep@;
                keep.push(j);
                assert(keep@.map_values(|j: SlotJob| j@) =~= kv.map_values(|j: SlotJob| j@).push(j@));
            }
            i = i + 1;
        }
        assert(pre.take(pre.len() as int) =~= pre);
        self.waiters = keep;
        OwnerSignal { cancel_running, rejected }
    }

    /// One step of handing the slot to the head waiter at `now_ms`; `head_alive` says
    /// whether the head waiter's requester still listens.
    pub fn grant_next_step(&mut self, now_ms: u64, head_alive: bool) -> (g: GrantStep)
        ensures
            old(self)@.waiters.len() == 0 ==> (g is NoWaiters && final(self)@ == old(self)@),
            old(self)@.waiters.len() > 0 && !head_alive ==> (g matches GrantStep::Dropped(id)
                && id@ == old(self)@.waiters[0].job_id && final(self)@ == without_head(old(self)@)),
            old(self)@.waiters.len() > 0 && head_alive ==> ({
                let head = old(self)@.waiters[0];
                let rest = without_head(old(self)@);
                let o = take_outcome(rest, head, now_ms);
                &&& (o.1 == 0 ==> (g matches GrantStep::Refused(id, e) && id@ == head.job_id && e
                    == SchedulerError::OwnerActiveBlocksCircle && final(self)@ == rest))
                &&& (o.1 == 2 ==> g is Blocked && final(self)@ == old(self)@)
                &&& ((o.1 == 1 || o.1 == 3) ==> (g matches GrantStep::Granted { job_id, preempted }
                    && job_id@ == head.job_id && final(self)@ == o.0 && match preempted {
                    Some(p) => o.2 == Some(p@),
                    None => o.2 is None,
                }))
            }),
    {
        if self.waiters.len() == 0 {
            return GrantStep::NoWaiters;
        }
        let ghost pre = self@;
        let next = self.waiters.remove(0);
        assert(self@.waiters =~= pre.waiters.drop_first());
        assert(next@ == pre.waiters[0]);
        if !head_alive {
            return GrantStep::Dropped(next.job_id);
        }
        let id = next.job_id.clone();
        let prio = next.priority;
        let t = self.try_take(next, now_ms);
        match t {
            TakeSlot::OwnerBlocks => GrantStep::Refused(id, SchedulerError::OwnerActiveBlocksCircle),
            TakeSlot::Busy => {
                let back = SlotJob { job_id: id, priority: prio };
                assert(back@ == pre.waiters[0]);
                let ghost mid = self@.waiters;
                self.waiters.insert(0, back);
                assert(self@.waiters =~= mid.insert(0, pre.waiters[0]));
                assert(self@.waiters =~= pre.waiters);
                GrantStep::Blocked
            },
            TakeSlot::AlreadyRunning => GrantStep::Granted { job_id: id, preempted: None },
            TakeSlot::Granted { preempted } => GrantStep::Granted { job_id: id, preempted },
        }
    }

    /// Free the slot when `job_id` holds it; `true` when it did.
    pub fn release(&mut self, job_id: &String) -> (freed: bool)
        ensures
            freed == (old(self)@.running matches Some(r) && r.job_id == job_id@),
            freed ==> final(self)@ == freed_slot(old(self)@),
            !freed ==> final(self)@ == old(self)@,
    {
        let holds = match &self.running {
            Some(r) => r.job_id == *job_id,
            None => false,
        };
        if holds {
            self.running = None;
        }
        holds
    }

    /// Whether `job_id` holds the slot (a cancel for it must be signaled).
    pub fn cancel_job(&self, job_id: &String) -> (r: bool)
        ensures
            r == (self@.running matches Some(j) && j.job_id == job_id@),
    {
        match &self.running {
            Some(r) => r.job_id == *job_id,
            None => false,
        }
    }

    /// Whether `job_id` holds the slot.
    pub fn is_running(&self, job_id: &String) -> (r: bool)
        ensures
            r == (self@.running matches Some(j) && j.job_id == job_id@),
    {
        self.cancel_job(job_id)
    }

    /// The job holding the slot, if any.
    pub fn running_job(&self) -> (r: Option<String>)
        ensures
            match (r, self@.running) {
                (Some(a), Some(j)) => a@ == j.job_id,
                (None, None) => true,
                _ => false,
            },
    {
        match &self.running {
            Some(j) => Some(j.job_id.clone()),
            None => None,
        }
    }
}

/// An owner job preempts a running circle job: it takes the slot and the circle job is
/// named for cancellation.
pub proof fn lemma_owner_preempts_circle(m: SlotModel, job: JobView, now: u64)
    requires
        !is_circle(job.priority),
        m.running matches Some(r) && is_circle(r.priority) && r.job_id != job.job_id,
    ensures
        take_outcome(m, job, now).1 == 3,
        take_outcome(m, job, now).0.running == Some(job),
        take_outcome(m, job, now).2 == Some(m.running->0.job_id),
{
}

/// While the owner is active, circle work never takes the slot and nothing changes.
pub proof fn lemma_owner_active_blocks_circle(m: SlotModel, job: JobView, now: u64)
    requires
        is_circle(job.priority),
        owner_active(m, now),
    ensures
        take_outcome(m, job, now).1 == 0,
        take_outcome(m, job, now).0 == m,
{
}

/// A job of equal or lower rank never preempts another running job.
pub proof fn lemma_no_preempt_without_higher_rank(m: SlotModel, job: JobView, now: u64)
    requires
        m.running matches Some(r) && r.job_id != job.job_id && rank(job.priority) <= rank(
            r.priority,
        ),
    ensures
        take_outcome(m, job, now).0 == m,
        take_outcome(m, job, now).1 != 3,
{
}

/// A free slot goes to any job the owner's activity does not shut out.
pub proof fn lemma_free_slot_granted(m: SlotModel, job: JobView, now: u64)
    requires
        m.running is None,
        !(is_circle(job.priority) && owner_active(m, now)),
    ensures
        take_outcome(m, job, now).1 == 3,
        take_outcome(m, job, now).0.running == Some(job),
        take_outcome(m, job, now).2 is None,
{
}

/// Queueing a waiter keeps the waiters ordered by rank, and it waits behind every
/// waiter of equal or higher rank and ahead of every lower one.
pub proof fn lemma_push_keeps_order(ws: Seq<JobView>, job: JobView)
    requires
        rank_sorted(ws),
    ensures
        rank_sorted(ws.insert(insert_pos(ws, rank(job.priority)), job)),
        forall|k: int|
            0 <= k < insert_pos(ws, rank(job.priority)) ==> rank((#[trigger] ws[k]).priority) >= rank(
                job.priority,
            ),
        forall|k: int|
            insert_pos(ws, rank(job.priority)) <= k < ws.len() ==> rank((#[trigger] ws[k]).priority)
                < rank(job.priority),
{
    let r = rank(job.priority);
    lemma_insert_pos(ws, r);
    let p = insert_pos(ws, r);
    let w2 = ws.insert(p, job);
    ws.insert_ensures(p, job);
    let at = |idx: int|
        if idx < p {
            ws[idx]
        } else if idx == p {
            job
        } else {
            ws[idx - 1]
        };
    assert forall|idx: int| 0 <= idx < w2.len() implies #[trigger] w2[idx] == at(idx) by {
        if idx > p {
            assert(w2[(idx - 1) + 1] == ws[idx - 1]);
        }
    }
    assert forall|k: int| p <= k < ws.len() implies rank((#[trigger] ws[k]).priority) < r by {
        assert(rank(ws[p].priority) >= rank(ws[k].priority));
    }
    assert forall|i: int, j: int| 0 <= i < j < w2.len() implies rank(w2[i].priority) >= rank(
        w2[j].priority,
    ) by {
        assert(w2[i] == at(i));
        assert(w2[j] == at(j));
    }
}

/// After the owner signals activity no circle job waits, every owner waiter still waits
/// in its former order, and the rank order is kept.
pub proof fn lemma_owner_signal_clears_circle(ws: Seq<JobView>)
    ensures
        forall|k: int|
            0 <= k < owner_waiters(ws).len() ==> !is_circle((#[trigger] owner_waiters(ws)[k]).priority),
        forall|k: int|
            0 <= k < ws.len() && !is_circle(ws[k].priority) ==> owner_waiters(ws).contains(
                #[trigger] ws[k],
            ),
        rank_sorted(ws) ==> rank_sorted(owner_waiters(ws)),
    decreases ws.len(),
{
    if ws.len() > 0 {
        let p = ws.drop_last();
        lemma_owner_signal_clears_circle(p);
        lemma_owner_waiters_from(p);
        let o = owner_waiters(p);
        assert forall|k: int| 0 <= k < ws.len() && !is_circle(ws[k].priority) implies owner_waiters(
            ws,
        ).contains(#[trigger] ws[k]) by {
            if k < p.len() {
                assert(ws[k] == p[k]);
                let t = choose|t: int| 0 <= t < o.len() && o[t] == p[k];
                if !is_circle(ws.last().priority) {
                    assert(owner_waiters(ws)[t] == o[t]);
                }
            } else {
                assert(owner_waiters(ws)[o.len() as int] == ws[k]);
            }
        }
        if rank_sorted(ws) && !is_circle(ws.last().priority) {
            assert(rank_sorted(p));
            let w2 = owner_waiters(ws);
            assert forall|i: int, j: int| 0 <= i < j < w2.len() implies rank(w2[i].priority) >= rank(
                w2[j].priority,
            ) by {
                if j == o.len() {
                    let a = choose|a: int| 0 <= a < p.len() && p[a] == #[trigger] o[i];
                    assert(ws[a] == p[a]);
                    assert(w2[i] == o[i]);
                } else {
                    assert(w2[i] == o[i]);
                    assert(w2[j] == o[j]);
                }
            }
        }
    }
}

/// Every owner waiter comes from the waiters it was selected from.
proof fn lemma_owner_waiters_from(ws: Seq<JobView>)
    ensures
        owner_waiters(ws).len() <= ws.len(),
        forall|k: int|
            0 <= k < owner_waiters(ws).len() ==> exists|a: int|
                0 <= a < ws.len() && ws[a] == #[trigger] owner_waiters(ws)[k],
    decreases ws.len(),
{
    if ws.len() > 0 {
        let p = ws.drop_last();
        lemma_owner_waiters_from(p);
        let o = owner_waiters(p);
        assert forall|k: int| 0 <= k < owner_waiters(ws).len() implies exists|a: int|
            0 <= a < ws.len() && ws[a] == #[trigger] owner_waiters(ws)[k] by {
            if k < o.len() {
                let a = choose|a: int| 0 <= a < p.len() && p[a] == #[trigger] o[k];
                assert(ws[a] == p[a]);
                assert(owner_waiters(ws)[k] == o[k]);
            } else {
                assert(ws[ws.len() - 1] == owner_waiters(ws)[k]);
            }
        }
    }
}

/// Releasing the job that holds the slot frees it; any other release changes nothing.
pub proof fn lemma_release_frees(m: SlotModel)
    ensures
        freed_slot(m).running is None,
        freed_slot(m).waiters == m.waiters,
        freed_slot(m).owner_active_until_ms == m.owner_active_until_ms,
{
}

/// The job status a scheduler refusal is reported with.
#[derive(Debug, Clone, Copy, PartialEq, Eq, Structural)]
pub enum RefusedJobStatus {
    Preempted,
    Denied,
}

impl GpuSlot {
    /// A running job whose cancel signal was raised stops as preempted by the owner.
    pub fn check_cancelled(cancel_signalled: bool) -> (r: Result<(), SchedulerError>)
        ensures
            cancel_signalled ==> r == Err::<(), SchedulerError>(SchedulerError::Preempted(CancelReason::OwnerPreempt)),
            !cancel_signalled ==> r is Ok,
    {
        if cancel_signalled {
            Err(SchedulerError::Preempted(CancelReason::OwnerPreempt))
        } else {
            Ok(())
        }
    }

    /// A preemption is reported as such; any other refusal as denied.
    pub fn job_status_for_error(err: &SchedulerError) -> (r: RefusedJobStatus)
        ensures
            r == (if err is Preempted {
                RefusedJobStatus::Preempted
            } else {
                RefusedJobStatus::Denied
            }),
    {
        match err {
            SchedulerError::Preempted(_) => RefusedJobStatus::Preempted,
            _ => RefusedJobStatus::Denied,
        }
    }
}

/// A job of strictly higher rank than the running one takes the slot from
/// it, whatever the running job's class, unless circle work is shut out by
/// an active owner: it is granted, runs, and the running job is preempted.
pub proof fn lemma_higher_rank_takes_slot(m: SlotModel, job: JobView, now: u64)
    requires
        m.running is Some,
        m.running->0.job_id != job.job_id,
        rank(job.priority) > rank(m.running->0.priority),
        !(is_circle(job.priority) && owner_active(m, now)),
    ensures
        take_outcome(m, job, now).1 == 3,
        take_outcome(m, job, now).0.running == Some(job),
        take_outcome(m, job, now).0.waiters == m.waiters,
        take_outcome(m, job, now).2 == Some(m.running->0.job_id),
{
}

/// An owner job outranks every circle job, and interactive work outranks
/// background work of the same class.
pub proof fn lemma_rank_order()
    ensures
        rank(JobPriority::OwnerInteractive) > rank(JobPriority::OwnerBackground),
        rank(JobPriority::OwnerBackground) > rank(JobPriority::CircleInteractive),
        rank(JobPriority::CircleInteractive) > rank(JobPriority::CircleBackground),
{
}

/// A job is refused as busy only when a different job of equal or higher
/// rank holds the slot; the slot is then unchanged.
pub proof fn lemma_busy_only_against_equal_or_higher(m: SlotModel, job: JobView, now: u64)
    requires
        take_outcome(m, job, now).1 == 2,
    ensures
        m.running is Some,
        m.running->0.job_id != job.job_id,
        rank(job.priority) <= rank(m.running->0.priority),
        take_outcome(m, job, now).0 == m,
{
}

} // verus!
