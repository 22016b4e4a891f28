//! Resource reservations as they are stored, their text encodings, and the
//! in-memory store used when no database is available.
use vstd::prelude::*;

use crate::text::{chars_eq, chars_of, push_str, slice_range, starts_with, starts_with_chars, string_of};

verus! {

#[derive(Debug, Clone, Copy, PartialEq, Eq, Structural)]
pub enum ReservationState {
    Proposed,
    Reserved,
    Dispatched,
    Running,
    Released,
    Expired,
    Canceled,
    OverBudget,
}

pub open spec fn state_text(s: ReservationState) -> Seq<char> {
    match s {
        ReservationState::Proposed => "proposed"@,
        ReservationState::Reserved => "reserved"@,
        ReservationState::Dispatched => "dispatched"@,
        ReservationState::Running => "running"@,
        ReservationState::Released => "released"@,
        ReservationState::Expired => "expired"@,
        ReservationState::Canceled => "canceled"@,
        ReservationState::OverBudget => "over_budget"@,
    }
}

/// Stored text back to a state; unknown text reads as canceled.
pub open spec fn state_of_text(t: Seq<char>) -> ReservationState {
    if t == "proposed"@ {
        ReservationState::Proposed
    } else if t == "reserved"@ {
        ReservationState::Reserved
    } else if t == "dispatched"@ {
        ReservationState::Dispatched
    } else if t == "running"@ {
        ReservationState::Running
    } else if t == "released"@ {
        ReservationState::Released
    } else if t == "expired"@ {
        ReservationState::Expired
    } else if t == "canceled"@ {
        ReservationState::Canceled
    } else if t == "over_budget"@ {
        ReservationState::OverBudget
    } else {
        ReservationState::Canceled
    }
}

pub fn encode_state(s: ReservationState) -> (r: &'static str)
    ensures
        r@ == state_text(s),
{
    match s {
        ReservationState::Proposed => "proposed",
        ReservationState::Reserved => "reserved",
        ReservationState::Dispatched => "dispatched",
        ReservationState::Running => "running",
        ReservationState::Released => "released",
        ReservationState::Expired => "expired",
        ReservationState::Canceled => "canceled",
        ReservationState::OverBudget => "over_budget",
    }
}

fn text_is(s: &[char], lit: &str) -> (r: bool)
    ensures
        r == (s@ == lit@),
{
    let l = chars_of(lit);
    chars_eq(s, l.as_slice())
}

pub fn decode_state(raw: &str) -> (r: ReservationState)
    ensures
        r == state_of_text(raw@),
{
    let c = chars_of(raw);
    let t = c.as_slice();
    if text_is(t, "proposed") {
        ReservationState::Proposed
    } else if text_is(t, "reserved") {
        ReservationState::Reserved
    } else if text_is(t, "dispatched") {
        ReservationState::Dispatched
    } else if text_is(t, "running") {
        ReservationState::Running
    } else if text_is(t, "released") {
        ReservationState::Released
    } else if text_is(t, "expired") {
        ReservationState::Expired
    } else if text_is(t, "canceled") {
        ReservationState::Canceled
    } else if text_is(t, "over_budget") {
        ReservationState::OverBudget
    } else {
        ReservationState::Canceled
    }
}

/// A stored state reads back as itself.
pub proof fn lemma_state_round_trip(s: ReservationState)
    ensures
        state_of_text(state_text(s)) == s,
{
    reveal_strlit("proposed");
    reveal_strlit("reserved");
    reveal_strlit("dispatched");
    reveal_strlit("running");
    reveal_strlit("released");
    reveal_strlit("expired");
    reveal_strlit("canceled");
    reveal_strlit("over_budget");
    assert("proposed"@.len() == 8 && "proposed"@[0] == 'p');
    assert("reserved"@.len() == 8 && "reserved"@[0] == 'r' && "reserved"@[2] == 's');
    assert("dispatched"@.len() == 10 && "dispatched"@[0] == 'd');
    assert("running"@.len() == 7 && "running"@[0] == 'r');
    assert("released"@.len() == 8 && "released"@[0] == 'r' && "released"@[2] == 'l');
    assert("expired"@.len() == 7 && "expired"@[0] == 'e');
    assert("canceled"@.len() == 8 && "canceled"@[0] == 'c');
    assert("over_budget"@.len() == 11 && "over_budget"@[0] == 'o');
}

/// Where a reservation holds resources.
#[derive(Debug, Clone)]
pub enum ReservationTarget {
    Local,
    Worker { worker_id: String },
}

pub enum ReservationTargetView {
    Local,
    Worker(Seq<char>),
}

impl View for ReservationTarget {
    type V = ReservationTargetView;

    open spec fn view(&self) -> ReservationTargetView {
        match self {
            ReservationTarget::Local => ReservationTargetView::Local,
            ReservationTarget::Worker { worker_id } => ReservationTargetView::Worker(worker_id@),
        }
    }
}

pub open spec fn reservation_target_text(t: ReservationTargetView) -> Seq<char> {
    match t {
        ReservationTargetView::Local => "local"@,
        ReservationTargetView::Worker(id) => "worker:"@ + id,
    }
}

/// `worker:<id>` names a worker; any other text names the local node.
pub open spec fn reservation_target_of_text(t: Seq<char>) -> ReservationTargetView {
    if starts_with(t, "worker:"@) {
        ReservationTargetView::Worker(t.skip("worker:"@.len() as int))
    } else {
        ReservationTargetView::Local
    }
}

pub fn encode_target(target: &ReservationTarget) -> (r: String)
    ensures
        r@ == reservation_target_text(target@),
{
    match target {
        ReservationTarget::Local => String::from_str("local"),
        ReservationTarget::Worker { worker_id } => {
            let mut s = String::from_str("worker:");
            push_str(&mut s, worker_id.as_str());
            s
        },
    }
}

pub fn decode_target(raw: &str) -> (r: ReservationTarget)
    ensures
        r@ == reservation_target_of_text(raw@),
{
    let s = chars_of(raw);
    let prefix = chars_of("worker:");
    if starts_with_chars(s.as_slice(), prefix.as_slice()) {
        let id = slice_range(s.as_slice(), prefix.len(), s.len());
        assert(id@ =~= s@.skip(prefix@.len() as int));
        ReservationTarget::Worker { worker_id: string_of(id.as_slice()) }
    } else {
        ReservationTarget::Local
    }
}

/// A stored target reads back as itself.
pub proof fn lemma_target_round_trip(t: ReservationTargetView)
    ensures
        reservation_target_of_text(reservation_target_text(t)) == t,
{
    reveal_strlit("local");
    reveal_strlit("worker:");
    match t {
        ReservationTargetView::Local => {
            assert("local"@[0] == 'l');
            assert("worker:"@[0] == 'w');
            assert(!starts_with("local"@, "worker:"@)) by {
                if "worker:"@.len() <= "local"@.len() {
                    assert("local"@.subrange(0, 7)[0] != "worker:"@[0]);
                }
            }
        },
        ReservationTargetView::Worker(id) => {
            let s = "worker:"@ + id;
            assert(s.subrange(0, 7) =~= "worker:"@);
            assert(s.skip(7) =~= id);
        },
    }
}

/// A reservation of resources for one attempt.
#[derive(Debug)]
pub struct ResourceReservation {
    pub reservation_id: String,
    pub run_id: String,
    pub task_id: String,
    pub attempt_id: String,
    pub target_scope: ReservationTarget,
    /// Issue and expiry times, in ms since the Unix epoch.
    pub issued_at_ms: i64,
    pub expires_at_ms: i64,
    pub reservation_epoch: u64,
    pub state: ReservationState,
    pub speculative: bool,
}

pub struct ReservationView {
    pub reservation_id: Seq<char>,
    pub run_id: Seq<char>,
    pub task_id: Seq<char>,
    pub attempt_id: Seq<char>,
    pub target_scope: ReservationTargetView,
    pub issued_at_ms: i64,
    pub expires_at_ms: i64,
    pub reservation_epoch: u64,
    pub state: ReservationState,
    pub speculative: bool,
}

impl View for ResourceReservation {
    type V = ReservationView;

    open spec fn view(&self) -> ReservationView {
        ReservationView {
            reservation_id: self.reservation_id@,
            run_id: self.run_id@,
            task_id: self.task_id@,
            attempt_id: self.attempt_id@,
            target_scope: self.target_scope@,
            issued_at_ms: self.issued_at_ms,
            expires_at_ms: self.expires_at_ms,
            reservation_epoch: self.reservation_epoch,
            state: self.state,
            speculative: self.speculative,
        }
    }
}

impl ResourceReservation {
    pub fn duplicate(&self) -> (r: ResourceReservation)
        ensures
            r@ == self@,
    {
        let target_scope = match &self.target_scope {
            ReservationTarget::Local => ReservationTarget::Local,
            ReservationTarget::Worker { worker_id } => ReservationTarget::Worker {
                worker_id: worker_id.clone(),
            },
        };
        ResourceReservation {
            reservation_id: self.reservation_id.clone(),
            run_id: self.run_id.clone(),
            task_id: self.task_id.clone(),
            attempt_id: self.attempt_id.clone(),
            target_scope,
            issued_at_ms: self.issued_at_ms,
            expires_at_ms: self.expires_at_ms,
            reservation_epoch: self.reservation_epoch,
            state: self.state,
            speculative: self.speculative,
        }
    }
}

/// Whether a reservation still holds resources.
pub open spec fn is_active(s: ReservationState) -> bool {
    s == ReservationState::Reserved || s == ReservationState::Dispatched || s
        == ReservationState::Running
}

/// Index of the first reservation with id `id`, or -1.
pub open spec fn res_index(s: Seq<ReservationView>, id: Seq<char>) -> int
    decreases s.len(),
{
    if s.len() == 0 {
        -1
    } else {
        let r = res_index(s.drop_last(), id);
        if r >= 0 {
            r
        } else if s.last().reservation_id == id {
            s.len() - 1
        } else {
            -1
        }
    }
}

pub proof fn lemma_res_index(s: Seq<ReservationView>, id: Seq<char>)
    ensures
        -1 <= res_index(s, id) < s.len(),
        res_index(s, id) >= 0 ==> s[res_index(s, id)].reservation_id == id,
        forall|j: int|
            0 <= j < s.len() && (res_index(s, id) < 0 || j < res_index(s, id))
                ==> #[trigger] s[j].reservation_id != id,
    decreases s.len(),
{
    if s.len() > 0 {
        let t = s.drop_last();
        lemma_res_index(t, id);
        let f = res_index(s, id);
        assert forall|j: int| 0 <= j < s.len() && (f < 0 || j < f) implies #[trigger] s[j].reservation_id
            != id by {
            if j < t.len() {
                assert(s[j] == t[j]);
            }
        }
    }
}

proof fn lemma_res_index_same_ids(s: Seq<ReservationView>, t: Seq<ReservationView>, id: Seq<char>)
    requires
        s.len() == t.len(),
        forall|k: int| 0 <= k < s.len() ==> (#[trigger] s[k]).reservation_id == t[k].reservation_id,
    ensures
        res_index(s, id) == res_index(t, id),
    decreases s.len(),
{
    if s.len() > 0 {
        let (a, b) = (s.drop_last(), t.drop_last());
        assert forall|k: int| 0 <= k < a.len() implies (#[trigger] a[k]).reservation_id
            == b[k].reservation_id by {
            assert(a[k] == s[k] && b[k] == t[k]);
        }
        lemma_res_index_same_ids(a, b, id);
    }
}

/// Reading a reservation back after an upsert gives what was written, and every other
/// reservation reads as before.
pub proof fn lemma_read_after_upsert_rows(s: Seq<ReservationView>, r: ReservationView, other: Seq<char>)
    ensures
        find_row(upsert_rows(s, r), r.reservation_id) == Some(r),
        other != r.reservation_id ==> find_row(upsert_rows(s, r), other) == find_row(s, other),
{
    lemma_res_index(s, r.reservation_id);
    lemma_res_index(s, other);
    let i = res_index(s, r.reservation_id);
    if i >= 0 {
        let t = s.update(i, r);
        assert forall|k: int| 0 <= k < t.len() implies (#[trigger] t[k]).reservation_id
            == s[k].reservation_id by {}
        lemma_res_index_same_ids(t, s, r.reservation_id);
        lemma_res_index_same_ids(t, s, other);
    } else {
        let t = s.push(r);
        assert(t.drop_last() =~= s);
    }
}

/// Marking a reservation released gives it the new state and changes nothing else; a
/// reservation that was never stored stays absent.
pub proof fn lemma_release_sets_state(
    s: Seq<ReservationView>,
    id: Seq<char>,
    st: ReservationState,
    other: Seq<char>,
)
    ensures
        match find_row(s, id) {
            Some(r) => find_row(released_rows(s, id, st), id) == Some(ReservationView { state: st, ..r }),
            None => released_rows(s, id, st) == s,
        },
        other != id ==> find_row(released_rows(s, id, st), other) == find_row(s, other),
{
    lemma_res_index(s, id);
    lemma_res_index(s, other);
    let i = res_index(s, id);
    if i >= 0 {
        let t = released_rows(s, id, st);
        assert forall|k: int| 0 <= k < t.len() implies (#[trigger] t[k]).reservation_id
            == s[k].reservation_id by {}
        lemma_res_index_same_ids(t, s, id);
        lemma_res_index_same_ids(t, s, other);
    }
}

/// The rows after an upsert: the first row with the same id is replaced, or
/// the reservation is appended.
pub open spec fn upsert_rows(s: Seq<ReservationView>, r: ReservationView) -> Seq<ReservationView> {
    let i = res_index(s, r.reservation_id);
    if i >= 0 {
        s.update(i, r)
    } else {
        s.push(r)
    }
}

pub open spec fn find_row(s: Seq<ReservationView>, id: Seq<char>) -> Option<ReservationView> {
    let i = res_index(s, id);
    if i >= 0 {
        Some(s[i])
    } else {
        None
    }
}

/// The rows after the first one with id `id`, if any, takes state `st`.
pub open spec fn released_rows(s: Seq<ReservationView>, id: Seq<char>, st: ReservationState) -> Seq<
    ReservationView,
> {
    let i = res_index(s, id);
    if i >= 0 {
        s.update(i, ReservationView { state: st, ..s[i] })
    } else {
        s
    }
}

/// The active reservations, in storage order.
pub open spec fn active_rows(s: Seq<ReservationView>) -> Seq<ReservationView>
    decreases s.len(),
{
    if s.len() == 0 {
        Seq::empty()
    } else if is_active(s.last().state) {
        active_rows(s.drop_last()).push(s.last())
    } else {
        active_rows(s.drop_last())
    }
}

/// Storage of reservations for restart recovery.
pub trait ReservationStore {
    fn upsert(&mut self, reservation: &ResourceReservation) -> Result<(), String>;

    fn get(&self, reservation_id: &str) -> Result<Option<ResourceReservation>, String>;

    fn list_active(&self) -> Result<Vec<ResourceReservation>, String>;

    fn mark_released(&mut self, reservation_id: &str, state: ReservationState) -> Result<(), String>;
}

/// In-memory store for when the database is unavailable; its rows are lost
/// with it, by design.
pub struct InMemoryReservationStore {
    rows: Vec<ResourceReservation>,
}

impl View for InMemoryReservationStore {
    type V = Seq<ReservationView>;

    closed spec fn view(&self) -> Seq<ReservationView> {
        self.rows@.map_values(|r: ResourceReservation| r@)
    }
}

impl Default for InMemoryReservationStore {
    fn default() -> (r: Self)
        ensures
            r@ == Seq::<ReservationView>::empty(),
    {
        let r = InMemoryReservationStore { rows: Vec::new() };
        assert(r@ =~= Seq::<ReservationView>::empty());
        r
    }
}

fn same_text(a: &String, b: &str) -> (r: bool)
    ensures
        r == (a@ == b@),
{
    let x = chars_of(a.as_str());
    let y = chars_of(b);
    chars_eq(x.as_slice(), y.as_slice())
}

impl InMemoryReservationStore {
    fn position(&self, id: &str) -> (r: Option<usize>)
        ensures
            self@.len() == self.rows@.len(),
            match r {
                Some(i) => i as int == res_index(self@, id@) && i < self.rows@.len(),
                None => res_index(self@, id@) < 0,
            },
    {
        proof {
            lemma_res_index(self@, id@);
        }
        let mut i: usize = 0;
        while i < self.rows.len()
            invariant
                i <= self.rows@.len(),
                self@.len() == self.rows@.len(),
                -1 <= res_index(self@, id@) < self@.len(),
                res_index(self@, id@) >= 0 ==> self@[res_index(self@, id@)].reservation_id == id@,
                forall|j: int|
                    0 <= j < self@.len() && (res_index(self@, id@) < 0 || j < res_index(self@, id@))
                        ==> #[trigger] self@[j].reservation_id != id@,
                forall|j: int| 0 <= j < i ==> #[trigger] self@[j].reservation_id != id@,
            decreases self.rows.len() - i,
        {
            assert(self@[i as int] == self.rows@[i as int]@);
            if same_text(&self.rows[i].reservation_id, id) {
                proof {
                    let f = res_index(self@, id@);
                    if f < 0 || f > i {
                        assert(self@[i as int].reservation_id != id@);
                    } else if f < i {
                        assert(self@[f].reservation_id != id@);
                    }
                }
                return Some(i);
            }
            i = i + 1;
        }
        None
    }
}

impl ReservationStore for InMemoryReservationStore {
    fn upsert(&mut self, reservation: &ResourceReservation) -> (r: Result<(), String>)
        ensures
            r is Ok,
            final(self)@ == upsert_rows(old(self)@, reservation@),
    {
        let copy = reservation.duplicate();
        let ghost before = self@;
        match self.position(reservation.reservation_id.as_str()) {
            Some(i) => {
                self.rows.set(i, copy);
                assert(self@ =~= before.update(i as int, reservation@));
            },
            None => {
                self.rows.push(copy);
                assert(self@ =~= before.push(reservation@));
            },
        }
        Ok(())
    }

    fn get(&self, reservation_id: &str) -> (r: Result<Option<ResourceReservation>, String>)
        ensures
            r matches Ok(found) && match found {
                Some(x) => find_row(self@, reservation_id@) == Some(x@),
                None => find_row(self@, reservation_id@) is None,
            },
    {
        match self.position(reservation_id) {
            Some(i) => {
                assert(self@[i as int] == self.rows@[i as int]@);
                Ok(Some(self.rows[i].duplicate()))
            },
            None => Ok(None),
        }
    }

    fn list_active(&self) -> (r: Result<Vec<ResourceReservation>, String>)
        ensures
            r matches Ok(v) && v@.map_values(|x: ResourceReservation| x@) == active_rows(self@),
    {
        let mut out: Vec<ResourceReservation> = Vec::new();
        let mut i: usize = 0;
        while i < self.rows.len()
            invariant
                i <= self.rows@.len(),
                self@.len() == self.rows@.len(),
                out@.map_values(|x: ResourceReservation| x@) == active_rows(self@.take(i as int)),
            decreases self.rows.len() - i,
        {
            let ghost prev = out@.map_values(|x: ResourceReservation| x@);
            assert(self@.take(i + 1).drop_last() =~= self@.take(i as int));
            assert(self@[i as int] == self.rows@[i as int]@);
            let st = self.rows[i].state;
            let active = match st {
                ReservationState::Reserved | ReservationState::Dispatched
                | ReservationState::Running => true,
                _ => false,
            };
            if active {
                out.push(self.rows[i].duplicate());
                assert(out@.map_values(|x: ResourceReservation| x@) =~= prev.push(self@[i as int]));
            }
            i = i + 1;
        }
        assert(self@.take(self@.len() as int) =~= self@);
        Ok(out)
    }

    fn mark_released(&mut self, reservation_id: &str, state: ReservationState) -> (r: Result<
        (),
        String,
    >)
        ensures
            r is Ok,
            final(self)@ == released_rows(old(self)@, reservation_id@, state),
    {
        let ghost before = self@;
        match self.position(reservation_id) {
            Some(i) => {
                assert(before[i as int] == self.rows@[i as int]@);
                let mut row = self.rows[i].duplicate();
                row.state = state;
                self.rows.set(i, row);
                assert(self@ =~= before.update(
                    i as int,
                    ReservationView { state: state, ..before[i as int] },
                ));
            },
            None => {},
        }
        Ok(())
    }
}

} // verus!
