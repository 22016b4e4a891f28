//! Where scheduler decisions are kept between scheduling and reconciliation.
use vstd::prelude::*;

use crate::broker::decision::{DecisionView, SchedulerDecision, SchedulerDecisionId};
use crate::text::{chars_eq, chars_of};

verus! {

/// Storage of scheduler decisions, keyed by decision id.
pub trait SchedulerDecisionStore {
    /// Insert the decision, or replace the one with the same id.
    fn upsert(&mut self, decision: &SchedulerDecision) -> Result<(), String>;

    /// The decision with this id, if stored.
    fn get(&self, id: &str) -> Result<Option<SchedulerDecision>, String>;

    /// Every stored decision that is still pending.
    fn list_pending(&self) -> Result<Vec<SchedulerDecision>, String>;
}

/// Index of the first decision with id `id`, or -1.
pub open spec fn id_index(s: Seq<DecisionView>, id: Seq<char>) -> int
    decreases s.len(),
{
    if s.len() == 0 {
        -1
    } else {
        let r = id_index(s.drop_last(), id);
        if r >= 0 {
            r
        } else if s.last().decision_id == id {
            s.len() - 1
        } else {
            -1
        }
    }
}

pub proof fn lemma_id_index(s: Seq<DecisionView>, id: Seq<char>)
    ensures
        -1 <= id_index(s, id) < s.len(),
        id_index(s, id) >= 0 ==> s[id_index(s, id)].decision_id == id,
        forall|j: int|
            0 <= j < s.len() && (id_index(s, id) < 0 || j < id_index(s, id)) ==> #[trigger] s[j].decision_id != id,
    decreases s.len(),
{
    if s.len() > 0 {
        let t = s.drop_last();
        lemma_id_index(t, id);
        let f = id_index(s, id);
        assert forall|j: int| 0 <= j < s.len() && (f < 0 || j < f) implies #[trigger] s[j].decision_id != id by {
            if j < t.len() {
                assert(s[j] == t[j]);
            }
        }
    }
}

proof fn lemma_id_index_same_ids(s: Seq<DecisionView>, t: Seq<DecisionView>, id: Seq<char>)
    requires
        s.len() == t.len(),
        forall|k: int| 0 <= k < s.len() ==> (#[trigger] s[k]).decision_id == t[k].decision_id,
    ensures
        id_index(s, id) == id_index(t, id),
    decreases s.len(),
{
    if s.len() > 0 {
        let (a, b) = (s.drop_last(), t.drop_last());
        assert forall|k: int| 0 <= k < a.len() implies (#[trigger] a[k]).decision_id
            == b[k].decision_id by {
            assert(a[k] == s[k] && b[k] == t[k]);
        }
        lemma_id_index_same_ids(a, b, id);
    }
}

/// Reading a decision back after an upsert gives what was written, and every other
/// decision reads as before.
pub proof fn lemma_read_after_upsert(s: Seq<DecisionView>, d: DecisionView, other: Seq<char>)
    ensures
        lookup(upserted(s, d), d.decision_id) == Some(d),
        other != d.decision_id ==> lookup(upserted(s, d), other) == lookup(s, other),
{
    lemma_id_index(s, d.decision_id);
    lemma_id_index(s, other);
    let i = id_index(s, d.decision_id);
    if i >= 0 {
        let t = s.update(i, d);
        assert forall|k: int| 0 <= k < t.len() implies (#[trigger] t[k]).decision_id
            == s[k].decision_id by {}
        lemma_id_index_same_ids(t, s, d.decision_id);
        lemma_id_index_same_ids(t, s, other);
        lemma_id_index(s, other);
    } else {
        let t = s.push(d);
        assert(t.drop_last() =~= s);
    }
}

/// No two stored decisions share an id.
pub open spec fn ids_unique(s: Seq<DecisionView>) -> bool {
    forall|i: int, j: int|
        0 <= i < s.len() && 0 <= j < s.len() && i != j ==> #[trigger] s[i].decision_id != #[trigger] s[j].decision_id
}

/// The store after an upsert of `d`.
pub open spec fn upserted(s: Seq<DecisionView>, d: DecisionView) -> Seq<DecisionView> {
    let i = id_index(s, d.decision_id);
    if i >= 0 {
        s.update(i, d)
    } else {
        s.push(d)
    }
}

/// The decision stored under `id`.
pub open spec fn lookup(s: Seq<DecisionView>, id: Seq<char>) -> Option<DecisionView> {
    let i = id_index(s, id);
    if i >= 0 {
        Some(s[i])
    } else {
        None
    }
}

/// The pending decisions, in storage order.
pub open spec fn pending_of(s: Seq<DecisionView>) -> Seq<DecisionView>
    decreases s.len(),
{
    if s.len() == 0 {
        Seq::empty()
    } else if s.last().pending {
        pending_of(s.drop_last()).push(s.last())
    } else {
        pending_of(s.drop_last())
    }
}

/// Decisions held in memory; lost on restart by design.
pub struct InMemorySchedulerStore {
    inner: Vec<SchedulerDecision>,
}

impl View for InMemorySchedulerStore {
    type V = Seq<DecisionView>;

    closed spec fn view(&self) -> Seq<DecisionView> {
        self.inner@.map_values(|d: SchedulerDecision| d@)
    }
}

fn same_text(a: &String, b: &str) -> (r: bool)
    ensures
        r == (a@ == b@),
{
    let x = chars_of(a.as_str());
    let y = chars_of(b);
    chars_eq(x.as_slice(), y.as_slice())
}

impl InMemorySchedulerStore {
    pub closed spec fn wf(&self) -> bool {
        ids_unique(self@)
    }

    pub fn new() -> (r: Self)
        ensures
            r.wf(),
            r@ == Seq::<DecisionView>::empty(),
    {
        let r = InMemorySchedulerStore { inner: Vec::new() };
        assert(r@ =~= Seq::<DecisionView>::empty());
        r
    }

    fn position(&self, id: &str) -> (r: Option<usize>)
        ensures
            self@.len() == self.inner@.len(),
            match r {
                Some(i) => i as int == id_index(self@, id@) && i < self.inner@.len(),
                None => id_index(self@, id@) < 0,
            },
    {
        proof {
            lemma_id_index(self@, id@);
        }
        let mut i: usize = 0;
        while i < self.inner.len()
            invariant
                i <= self.inner@.len(),
                self@.len() == self.inner@.len(),
                -1 <= id_index(self@, id@) < self@.len(),
                id_index(self@, id@) >= 0 ==> self@[id_index(self@, id@)].decision_id == id@,
                forall|j: int|
                    0 <= j < self@.len() && (id_index(self@, id@) < 0 || j < id_index(self@, id@))
                        ==> #[trigger] self@[j].decision_id != id@,
                forall|j: int| 0 <= j < i ==> #[trigger] self@[j].decision_id != id@,
            decreases self.inner.len() - i,
        {
            assert(self@[i as int] == self.inner@[i as int]@);
            if same_text(&self.inner[i].decision_id.0, id) {
                assert(self@[i as int].decision_id == id@);
                proof {
                    let f = id_index(self@, id@);
                    if f < 0 || f > i {
                        assert(self@[i as int].decision_id != id@);
                    } else if f < i {
                        assert(self@[f].decision_id != id@);
                    }
                }
                return Some(i);
            }
            i = i + 1;
        }
        None
    }

    /// Whether a decision with this id is stored.
    pub fn contains(&self, id: &SchedulerDecisionId) -> (r: bool)
        ensures
            r == (id_index(self@, id.0@) >= 0),
    {
        self.position(id.0.as_str()).is_some()
    }
}

impl SchedulerDecisionStore for InMemorySchedulerStore {
    fn upsert(&mut self, decision: &SchedulerDecision) -> (r: Result<(), String>)
        ensures
            r is Ok,
            old(self).wf() ==> final(self).wf(),
            final(self)@ == upserted(old(self)@, decision@),
    {
        proof {
            lemma_id_index(self@, decision@.decision_id);
        }
        let copy = decision.duplicate();
        let ghost before = self@;
        match self.position(decision.decision_id.0.as_str()) {
            Some(i) => {
                self.inner.set(i, copy);
                assert(self@ =~= before.update(i as int, decision@));
                proof {
                    if ids_unique(before) {
                        assert forall|a: int, b: int|
                            0 <= a < self@.len() && 0 <= b < self@.len() && a != b
                                implies #[trigger] self@[a].decision_id != #[trigger] self@[b].decision_id by {
                            if a != i && b != i {
                                assert(before[a] == self@[a]);
                                assert(before[b] == self@[b]);
                            } else if a == i {
                                assert(before[b] == self@[b]);
                                assert(before[i as int].decision_id == decision@.decision_id);
                            } else {
                                assert(before[a] == self@[a]);
                                assert(before[i as int].decision_id == decision@.decision_id);
                            }
                        }
                    }
                }
            },
            None => {
                self.inner.push(copy);
                assert(self@ =~= before.push(decision@));
                proof {
                    if ids_unique(before) {
                        assert forall|a: int, b: int|
                            0 <= a < self@.len() && 0 <= b < self@.len() && a != b
                                implies #[trigger] self@[a].decision_id != #[trigger] self@[b].decision_id by {
                            if a < before.len() && b < before.len() {
                                assert(before[a] == self@[a]);
                                assert(before[b] == self@[b]);
                            } else if a < before.len() {
                                assert(before[a] == self@[a]);
                            } else {
                                assert(before[b] == self@[b]);
                            }
                        }
                    }
                }
            },
        }
        Ok(())
    }

    fn get(&self, id: &str) -> (r: Result<Option<SchedulerDecision>, String>)
        ensures
            r matches Ok(found) && match found {
                Some(d) => lookup(self@, id@) == Some(d@),
                None => lookup(self@, id@) is None,
            },
    {
        match self.position(id) {
            Some(i) => {
                assert(self@[i as int] == self.inner@[i as int]@);
                Ok(Some(self.inner[i].duplicate()))
            },
            None => Ok(None),
        }
    }

    fn list_pending(&self) -> (r: Result<Vec<SchedulerDecision>, String>)
        ensures
            r matches Ok(v) && v@.map_values(|d: SchedulerDecision| d@) == pending_of(self@),
    {
        let mut out: Vec<SchedulerDecision> = Vec::new();
        let mut i: usize = 0;
        while i < self.inner.len()
            invariant
                i <= self.inner@.len(),
                self@.len() == self.inner@.len(),
                out@.map_values(|d: SchedulerDecision| d@) == pending_of(self@.take(i as int)),
            decreases self.inner.len() - i,
        {
            let ghost prev = out@.map_values(|d: SchedulerDecision| d@);
            assert(self@.take(i + 1).drop_last() =~= self@.take(i as int));
            assert(self@[i as int] == self.inner@[i as int]@);
            if self.inner[i].pending {
                out.push(self.inner[i].duplicate());
                assert(out@.map_values(|d: SchedulerDecision| d@) =~= prev.push(self@[i as int]));
            }
            i = i + 1;
        }
        assert(self@.take(self@.len() as int) =~= self@);
        Ok(out)
    }
}

/// The store after upserting each decision of `ds`, in order, into `s`.
pub open spec fn upsert_all(s: Seq<DecisionView>, ds: Seq<DecisionView>) -> Seq<DecisionView>
    decreases ds.len(),
{
    if ds.len() == 0 {
        s
    } else {
        upserted(upsert_all(s, ds.drop_last()), ds.last())
    }
}

/// The last decision of `ds` with id `id`, if any.
pub open spec fn last_with(ds: Seq<DecisionView>, id: Seq<char>) -> Option<DecisionView>
    decreases ds.len(),
{
    if ds.len() == 0 {
        None
    } else if ds.last().decision_id == id {
        Some(ds.last())
    } else {
        last_with(ds.drop_last(), id)
    }
}

/// After a sequence of upserts, each id reads as the last decision upserted
/// with it, and an id no upsert named reads as before (in a new store: absent).
pub proof fn lemma_reads_after_upserts(s: Seq<DecisionView>, ds: Seq<DecisionView>, id: Seq<char>)
    ensures
        lookup(upsert_all(s, ds), id) == match last_with(ds, id) {
            Some(d) => Some(d),
            None => lookup(s, id),
        },
    decreases ds.len(),
{
    if ds.len() > 0 {
        let prev = upsert_all(s, ds.drop_last());
        lemma_reads_after_upserts(s, ds.drop_last(), id);
        lemma_read_after_upsert(prev, ds.last(), id);
    }
}

/// Some decision of `ds` has id `id` exactly when the last one with it exists.
proof fn lemma_last_with_exists(ds: Seq<DecisionView>, id: Seq<char>)
    ensures
        last_with(ds, id) is Some <==> exists|i: int| 0 <= i < ds.len() && #[trigger] ds[i].decision_id == id,
        last_with(ds, id) matches Some(d) ==> d.decision_id == id,
    decreases ds.len(),
{
    if ds.len() > 0 {
        let p = ds.drop_last();
        lemma_last_with_exists(p, id);
        if last_with(p, id) is Some {
            let i = choose|i: int| 0 <= i < p.len() && #[trigger] p[i].decision_id == id;
            assert(ds[i] == p[i]);
        }
        if exists|i: int| 0 <= i < ds.len() && #[trigger] ds[i].decision_id == id {
            let i = choose|i: int| 0 <= i < ds.len() && #[trigger] ds[i].decision_id == id;
            if i < p.len() {
                assert(p[i] == ds[i]);
            }
        }
    }
}

/// A store filled by a sequence of upserts holds an id exactly when some
/// upserted decision has it, and then reads as the last one upserted with it.
pub proof fn lemma_store_of_upserts(ds: Seq<DecisionView>, id: Seq<char>)
    ensures
        lookup(upsert_all(Seq::empty(), ds), id) is Some <==> exists|i: int|
            0 <= i < ds.len() && #[trigger] ds[i].decision_id == id,
        lookup(upsert_all(Seq::empty(), ds), id) == last_with(ds, id),
{
    lemma_reads_after_upserts(Seq::empty(), ds, id);
    lemma_last_with_exists(ds, id);
}

} // verus!
