//! The broker's table of attempts: each submitted attempt's status, its
//! reservation and its request, updated as attempts finish, are canceled or
//! lose their worker.
use vstd::prelude::*;

use crate::broker::dispatch::opt_view;
use crate::broker::fallback::{continues_after_loss, continues_after_worker_loss};
use crate::broker::types::{cancellation_text, CancellationReason, ComputeBrokerError, ComputeRequest, ComputeStatus};
use crate::text::{chars_eq, chars_of, push_str};

verus! {

/// A status as a mathematical value.
pub enum StatusView {
    Queued,
    Reserved,
    Dispatched,
    Running,
    Succeeded,
    Failed(Seq<char>),
    Canceled(Seq<char>),
    Rejected(Seq<char>),
}

pub open spec fn status_view(s: ComputeStatus) -> StatusView {
    match s {
        ComputeStatus::Queued => StatusView::Queued,
        ComputeStatus::Reserved => StatusView::Reserved,
        ComputeStatus::Dispatched => StatusView::Dispatched,
        ComputeStatus::Running => StatusView::Running,
        ComputeStatus::Succeeded => StatusView::Succeeded,
        ComputeStatus::Failed { reason } => StatusView::Failed(reason@),
        ComputeStatus::Canceled { reason } => StatusView::Canceled(reason@),
        ComputeStatus::Rejected { reason } => StatusView::Rejected(reason@),
    }
}

/// A copy of a status.
pub fn copy_status(s: &ComputeStatus) -> (r: ComputeStatus)
    ensures
        status_view(r) == status_view(*s),
{
    match s {
        ComputeStatus::Queued => ComputeStatus::Queued,
        ComputeStatus::Reserved => ComputeStatus::Reserved,
        ComputeStatus::Dispatched => ComputeStatus::Dispatched,
        ComputeStatus::Running => ComputeStatus::Running,
        ComputeStatus::Succeeded => ComputeStatus::Succeeded,
        ComputeStatus::Failed { reason } => ComputeStatus::Failed { reason: reason.clone() },
        ComputeStatus::Canceled { reason } => ComputeStatus::Canceled { reason: reason.clone() },
        ComputeStatus::Rejected { reason } => ComputeStatus::Rejected { reason: reason.clone() },
    }
}

/// One attempt the broker knows.
#[derive(Debug)]
pub struct AttemptRecord {
    pub attempt_id: String,
    pub status: ComputeStatus,
    pub reservation_id: Option<String>,
    pub request: ComputeRequest,
}

/// An attempt as the table holds it.
pub struct AttemptView {
    pub id: Seq<char>,
    pub status: StatusView,
    pub reservation: Option<Seq<char>>,
    pub request: ComputeRequest,
}

pub open spec fn record_view(r: AttemptRecord) -> AttemptView {
    AttemptView {
        id: r.attempt_id@,
        status: status_view(r.status),
        reservation: opt_view(r.reservation_id),
        request: r.request,
    }
}

/// Index of the attempt `id`, or -1.
pub open spec fn find_attempt(s: Seq<AttemptView>, id: Seq<char>) -> int
    decreases s.len(),
{
    if s.len() == 0 {
        -1
    } else {
        let r = find_attempt(s.drop_last(), id);
        if r >= 0 {
            r
        } else if s.last().id == id {
            s.len() - 1
        } else {
            -1
        }
    }
}

proof fn lemma_find_attempt(s: Seq<AttemptView>, id: Seq<char>)
    ensures
        -1 <= find_attempt(s, id) < s.len(),
        find_attempt(s, id) >= 0 ==> s[find_attempt(s, id)].id == id,
        forall|j: int| 0 <= j < s.len() && (find_attempt(s, id) < 0 || j < find_attempt(s, id)) ==> #[trigger] s[j].id != id,
    decreases s.len(),
{
    if s.len() > 0 {
        let t = s.drop_last();
        lemma_find_attempt(t, id);
        let f = find_attempt(s, id);
        assert forall|j: int| 0 <= j < s.len() && (f < 0 || j < f) implies #[trigger] s[j].id != id by {
            if j < t.len() {
                assert(s[j] == t[j]);
            }
        }
    }
}

/// The table after recording `a`: it replaces the attempt with its id, or is added.
pub open spec fn recorded(s: Seq<AttemptView>, a: AttemptView) -> Seq<AttemptView> {
    let i = find_attempt(s, a.id);
    if i >= 0 {
        s.update(i, a)
    } else {
        s.push(a)
    }
}

/// The table with the status of attempt `id`, if held, set to `st`.
pub open spec fn with_status(s: Seq<AttemptView>, id: Seq<char>, st: StatusView) -> Seq<AttemptView> {
    let i = find_attempt(s, id);
    if i >= 0 {
        s.update(i, AttemptView { status: st, ..s[i] })
    } else {
        s
    }
}

/// The request's target names the worker `w`.
pub open spec fn targets(a: AttemptView, w: Seq<char>) -> bool {
    opt_view(a.request.target_worker_id) == Some(w)
}

/// The table after worker `w` is lost: each of its attempts is canceled as `worker_lost`.
pub open spec fn after_loss(s: Seq<AttemptView>, w: Seq<char>) -> Seq<AttemptView> {
    s.map_values(
        |a: AttemptView|
            if targets(a, w) {
                AttemptView { status: StatusView::Canceled("worker_lost"@), ..a }
            } else {
                a
            },
    )
}

/// The attempts on lost worker `w` that continue on their next fallback
/// target: not secret, inference, with a later fallback target, and with a
/// chat in flight (`inflight`), in table order.
pub open spec fn continuing(s: Seq<AttemptView>, w: Seq<char>, inflight: Seq<Seq<char>>) -> Seq<Seq<char>>
    decreases s.len(),
{
    if s.len() == 0 {
        Seq::empty()
    } else {
        let a = s.last();
        let rest = continuing(s.drop_last(), w, inflight);
        if targets(a, w) && continues_after_loss(a.request.secret, a.request.job_kind@ == "Infer"@, a.request.fallback_order@, w)
            && inflight.contains(a.id) {
            rest.push(a.id)
        } else {
            rest
        }
    }
}

/// The reservations of the attempts on lost worker `w`, in table order.
pub open spec fn lost_reservations(s: Seq<AttemptView>, w: Seq<char>) -> Seq<Seq<char>>
    decreases s.len(),
{
    if s.len() == 0 {
        Seq::empty()
    } else {
        let a = s.last();
        let rest = lost_reservations(s.drop_last(), w);
        match a.reservation {
            Some(r) => if targets(a, w) {
                rest.push(r)
            } else {
                rest
            },
            None => rest,
        }
    }
}

/// The attempts the broker has seen, one record per attempt id.
pub struct AttemptTable {
    records: Vec<AttemptRecord>,
}

impl View for AttemptTable {
    type V = Seq<AttemptView>;

    closed spec fn view(&self) -> Seq<AttemptView> {
        self.records@.map_values(|r: AttemptRecord| record_view(r))
    }
}

fn same_text(a: &String, b: &str) -> (r: bool)
    ensures
        r == (a@ == b@),
{
    let x = chars_of(a.as_str());
    let y = chars_of(b);
    chars_eq(x.as_slice(), y.as_slice())
}

fn opt_is(o: &Option<String>, w: &str) -> (r: bool)
    ensures
        r == (opt_view(*o) == Some(w@)),
{
    match o {
        Some(s) => same_text(s, w),
        None => false,
    }
}

fn listed(v: &Vec<String>, id: &String) -> (r: bool)
    ensures
        r == v@.map_values(|s: String| s@).contains(id@),
{
    let ghost vs = v@.map_values(|s: String| s@);
    let mut i: usize = 0;
    while i < v.len()
        invariant
            i <= v@.len(),
            vs == v@.map_values(|s: String| s@),
            forall|j: int| 0 <= j < i ==> vs[j] != id@,
        decreases v.len() - i,
    {
        if same_text(&v[i], id.as_str()) {
            assert(vs[i as int] == id@);
            return true;
        }
        i = i + 1;
    }
    false
}

impl AttemptTable {
    pub fn new() -> (r: Self)
        ensures
            r@ == Seq::<AttemptView>::empty(),
    {
        let r = AttemptTable { records: Vec::new() };
        assert(r@ =~= Seq::<AttemptView>::empty());
        r
    }

    fn position(&self, id: &str) -> (r: Option<usize>)
        ensures
            self@.len() == self.records@.len(),
            match r {
                Some(i) => i as int == find_attempt(self@, id@) && i < self.records@.len(),
                None => find_attempt(self@, id@) < 0,
            },
    {
        proof {
            lemma_find_attempt(self@, id@);
        }
        let ghost s = self@;
        let mut i: usize = 0;
        while i < self.records.len()
            invariant
                i <= self.records@.len(),
                s == self@,
                s.len() == self.records@.len(),
                -1 <= find_attempt(s, id@) < s.len(),
                find_attempt(s, id@) >= 0 ==> s[find_attempt(s, id@)].id == id@,
                forall|j: int| 0 <= j < s.len() && (find_attempt(s, id@) < 0 || j < find_attempt(s, id@)) ==> #[trigger] s[j].id != id@,
                forall|j: int| 0 <= j < i ==> #[trigger] s[j].id != id@,
            decreases self.records.len() - i,
        {
            assert(s[i as int] == record_view(self.records@[i as int]));
            if same_text(&self.records[i].attempt_id, id) {
                proof {
                    let f = find_attempt(s, id@);
                    if f < 0 || f > i {
                        assert(s[i as int].id != id@);
                    }
                }
                return Some(i);
            }
            i = i + 1;
        }
        None
    }

    /// Record an attempt; a record with the same id is replaced.
    pub fn record(&mut self, rec: AttemptRecord)
        ensures
            final(self)@ == recorded(old(self)@, record_view(rec)),
    {
        let ghost before = self@;
        let ghost rv = record_view(rec);
        match self.position(rec.attempt_id.as_str()) {
            Some(i) => {
                self.records.set(i, rec);
                assert(self@ =~= before.update(i as int, rv));
            },
            None => {
                self.records.push(rec);
                assert(self@ =~= before.push(rv));
            },
        }
    }

    /// The status of attempt `id`; an unknown attempt is an error.
    pub fn status(&self, id: &str) -> (r: Result<ComputeStatus, ComputeBrokerError>)
        ensures
            find_attempt(self@, id@) >= 0 ==> (r matches Ok(st) && status_view(st) == self@[find_attempt(self@, id@)].status),
            find_attempt(self@, id@) < 0 ==> r matches Err(ComputeBrokerError::UnknownAttempt),
    {
        match self.position(id) {
            Some(i) => {
                assert(self@[i as int] == record_view(self.records@[i as int]));
                Ok(copy_status(&self.records[i].status))
            },
            None => Err(ComputeBrokerError::UnknownAttempt),
        }
    }

    fn set_status(&mut self, i: usize, st: ComputeStatus)
        requires
            i < old(self)@.len(),
        ensures
            final(self)@ == old(self)@.update(i as int, AttemptView { status: status_view(st), ..old(self)@[i as int] }),
            final(self).records@.len() == old(self).records@.len(),
    {
        let ghost before = self@;
        let ghost rec = self.records@[i as int];
        assert(before.len() == self.records@.len());
        assert(before[i as int] == record_view(rec));
        let mut records = Vec::new();
        std::mem::swap(&mut records, &mut self.records);
        let mut r = records.remove(i);
        r.status = st;
        records.insert(i, r);
        self.records = records;
        assert(self@ =~= before.update(i as int, AttemptView { status: status_view(st), ..before[i as int] }));
    }

    /// Set the status of a finished attempt: succeeded, or failed with its
    /// error (`dispatch failed` when none was given). An unknown attempt is
    /// left alone.
    pub fn finish(&mut self, id: &str, ok: bool, err: Option<String>)
        ensures
            final(self)@ == with_status(
                old(self)@,
                id@,
                if ok {
                    StatusView::Succeeded
                } else {
                    StatusView::Failed(
                        match err {
                            Some(e) => e@,
                            None => "dispatch failed"@,
                        },
                    )
                },
            ),
    {
        match self.position(id) {
            Some(i) => {
                let st = if ok {
                    ComputeStatus::Succeeded
                } else {
                    ComputeStatus::Failed {
                        reason: match err {
                            Some(e) => e,
                            None => String::from_str("dispatch failed"),
                        },
                    }
                };
                self.set_status(i, st);
            },
            None => {},
        }
    }

    /// Cancel attempt `id` for `reason`, giving back its reservation (to be
    /// marked canceled). An unknown attempt is left alone.
    pub fn cancel(&mut self, id: &str, reason: &CancellationReason) -> (r: Option<String>)
        ensures
            final(self)@ == with_status(old(self)@, id@, StatusView::Canceled(cancellation_text(*reason))),
            find_attempt(old(self)@, id@) >= 0 ==> opt_view(r) == old(self)@[find_attempt(old(self)@, id@)].reservation,
            find_attempt(old(self)@, id@) < 0 ==> r is None,
    {
        match self.position(id) {
            Some(i) => {
                assert(self@[i as int] == record_view(self.records@[i as int]));
                let res = match &self.records[i].reservation_id {
                    Some(x) => Some(x.clone()),
                    None => None,
                };
                let mut text = String::new();
                push_str(&mut text, reason.as_str());
                self.set_status(i, ComputeStatus::Canceled { reason: text });
                res
            },
            None => None,
        }
    }

    /// Worker `w` disappeared: cancel each of its attempts as `worker_lost`.
    /// Gives the attempts that continue on their next fallback target (those
    /// with a chat in flight, listed in `inflight`) and the reservations to
    /// mark canceled, in table order.
    pub fn on_worker_lost(&mut self, w: &str, inflight: &Vec<String>) -> (r: (Vec<String>, Vec<String>))
        ensures
            final(self)@ == after_loss(old(self)@, w@),
            r.0@.map_values(|s: String| s@) == continuing(old(self)@, w@, inflight@.map_values(|s: String| s@)),
            r.1@.map_values(|s: String| s@) == lost_reservations(old(self)@, w@),
    {
        let ghost s0 = self@;
        let ghost fl = inflight@.map_values(|s: String| s@);
        let mut cont: Vec<String> = Vec::new();
        let mut res: Vec<String> = Vec::new();
        let mut i: usize = 0;
        assert(s0.take(0) =~= Seq::<AttemptView>::empty());
        while i < self.records.len()
            invariant
                i <= self.records@.len(),
                s0.len() == self.records@.len(),
                fl == inflight@.map_values(|s: String| s@),
                self@.len() == s0.len(),
                forall|j: int| 0 <= j < i ==> #[trigger] self@[j] == after_loss(s0, w@)[j],
                forall|j: int| i <= j < s0.len() ==> #[trigger] self@[j] == s0[j],
                cont@.map_values(|s: String| s@) == continuing(s0.take(i as int), w@, fl),
                res@.map_values(|s: String| s@) == lost_reservations(s0.take(i as int), w@),
            decreases self.records.len() - i,
        {
            let ghost a = s0[i as int];
            assert(self@[i as int] == record_view(self.records@[i as int]));
            assert(s0.take(i + 1).drop_last() =~= s0.take(i as int));
            assert(s0.take(i + 1).last() == a);
            let on_w = opt_is(&self.records[i].request.target_worker_id, w);
            if on_w {
                let rec = &self.records[i];
                let kind = chars_of(rec.request.job_kind.as_str());
                let infer_word = chars_of("Infer");
                let infer = chars_eq(kind.as_slice(), infer_word.as_slice());
                let goes_on = continues_after_worker_loss(rec.request.secret, infer, rec.request.fallback_order.as_slice(), w);
                if goes_on && listed(inflight, &rec.attempt_id) {
                    let ghost before = cont@;
                    cont.push(rec.attempt_id.clone());
                    assert(cont@.map_values(|s: String| s@) =~= before.map_values(|s: String| s@).push(a.id));
                }
                match &rec.reservation_id {
                    Some(x) => {
                        let ghost before = res@;
                        res.push(x.clone());
                        assert(res@.map_values(|s: String| s@) =~= before.map_values(|s: String| s@).push(a.reservation->0));
                    },
                    None => {},
                }
                let ghost mid = self@;
                self.set_status(i, ComputeStatus::Canceled { reason: String::from_str("worker_lost") });
                assert(self@[i as int] == after_loss(s0, w@)[i as int]);
                assert forall|j: int| i < j < s0.len() implies #[trigger] self@[j] == s0[j] by {
                    assert(self@[j] == mid[j]);
                }
                assert forall|j: int| 0 <= j < i implies #[trigger] self@[j] == after_loss(s0, w@)[j] by {
                    assert(self@[j] == mid[j]);
                }
            } else {
                assert(self@[i as int] == after_loss(s0, w@)[i as int]);
            }
            i = i + 1;
        }
        assert(s0.take(i as int) =~= s0);
        assert(self@ =~= after_loss(s0, w@));
        (cont, res)
    }
}

} // verus!
