//! Per-worker circuit breaker: consecutive failures open a worker's circuit,
//! a cooldown half-opens it, and successes in half-open close it again.
use vstd::prelude::*;

verus! {

/// A point on the monotonic clock.
#[verifier::external_type_specification]
#[verifier::external_body]
pub struct ExInstant(std::time::Instant);

/// `Instant::now`: the current point on the monotonic clock. Nothing is claimed of it.
#[verifier::external_body]
fn clock_now() -> std::time::Instant {
    std::time::Instant::now()
}

/// `Instant::elapsed`, in whole milliseconds. The value depends on the clock, so nothing is claimed of it.
#[verifier::external_body]
fn elapsed_ms(since: &std::time::Instant) -> u64 {
    since.elapsed().as_millis() as u64
}

#[derive(Debug, Clone, Copy, PartialEq, Eq, Structural)]
pub enum CircuitState {
    Closed,
    Open,
    HalfOpen,
}

/// Circuit of one worker. `opened_at_ms` is on the registry's clock.
#[derive(Clone, Copy, PartialEq, Eq, Structural)]
pub struct CircuitView {
    pub state: CircuitState,
    pub failures: u32,
    pub opened_at_ms: Option<u64>,
    pub half_open_successes: u32,
}

struct WorkerCircuit {
    worker_id: String,
    circuit: CircuitView,
}

/// The circuit a worker gets on first sight.
pub open spec fn fresh_circuit() -> CircuitView {
    CircuitView { state: CircuitState::Closed, failures: 0, opened_at_ms: None, half_open_successes: 0 }
}

/// An open circuit whose cooldown has passed at `now` becomes half-open.
pub open spec fn refreshed(c: CircuitView, now: u64, cooldown_ms: u64) -> CircuitView {
    match c.opened_at_ms {
        Some(at) => if c.state == CircuitState::Open && (if now >= at {
            now - at
        } else {
            0
        }) >= cooldown_ms {
            CircuitView { state: CircuitState::HalfOpen, half_open_successes: 0, ..c }
        } else {
            c
        },
        None => c,
    }
}

/// A successful dispatch: half-open counts towards closing; otherwise the circuit closes.
pub open spec fn after_success(c: CircuitView, half_open_threshold: u32) -> CircuitView {
    if c.state == CircuitState::HalfOpen {
        let n = (c.half_open_successes + 1) as u32;
        if n >= half_open_threshold {
            CircuitView {
                state: CircuitState::Closed,
                failures: 0,
                opened_at_ms: None,
                half_open_successes: n,
            }
        } else {
            CircuitView { half_open_successes: n, ..c }
        }
    } else {
        CircuitView { state: CircuitState::Closed, failures: 0, opened_at_ms: None, ..c }
    }
}

/// A failed dispatch at `now`: the threshold, or any failure while half-open, opens it.
pub open spec fn after_failure(c: CircuitView, now: u64, failure_threshold: u32) -> CircuitView {
    let f = if c.failures == u32::MAX {
        u32::MAX
    } else {
        (c.failures + 1) as u32
    };
    if f >= failure_threshold || c.state == CircuitState::HalfOpen {
        CircuitView {
            state: CircuitState::Open,
            failures: f,
            opened_at_ms: Some(now),
            half_open_successes: 0,
        }
    } else {
        CircuitView { failures: f, ..c }
    }
}

/// A half-open circuit can always count one more success.
pub open spec fn circuit_wf(c: CircuitView) -> bool {
    c.state == CircuitState::HalfOpen ==> c.half_open_successes < u32::MAX
}

/// Index of worker `id` in `ids`, or -1.
pub open spec fn index_of_id(ids: Seq<Seq<char>>, id: Seq<char>) -> int
    decreases ids.len(),
{
    if ids.len() == 0 {
        -1
    } else {
        let j = index_of_id(ids.drop_last(), id);
        if j >= 0 {
            j
        } else if ids.last() == id {
            ids.len() - 1
        } else {
            -1
        }
    }
}

/// Registry model: worker ids in first-seen order and their circuits.
pub struct RegistryModel {
    pub ids: Seq<Seq<char>>,
    pub circuits: Seq<CircuitView>,
    pub failure_threshold: u32,
    pub open_cooldown_ms: u64,
    pub half_open_success_threshold: u32,
}

/// The circuit of worker `id`: its record, or a fresh one when unseen.
pub open spec fn circuit_of(m: RegistryModel, id: Seq<char>) -> CircuitView {
    let i = index_of_id(m.ids, id);
    if 0 <= i < m.circuits.len() {
        m.circuits[i]
    } else {
        fresh_circuit()
    }
}

pub open spec fn registry_wf(m: RegistryModel) -> bool {
    &&& m.ids.len() == m.circuits.len()
    &&& forall|i: int, j: int| 0 <= i < j < m.ids.len() ==> m.ids[i] != m.ids[j]
    &&& forall|i: int| 0 <= i < m.circuits.len() ==> circuit_wf(#[trigger] m.circuits[i])
}

/// `m2` differs from `m` only in the circuit of `id`, which is now `c`.
pub open spec fn updated(m: RegistryModel, m2: RegistryModel, id: Seq<char>, c: CircuitView) -> bool {
    &&& circuit_of(m2, id) == c
    &&& forall|other: Seq<char>| other != id ==> circuit_of(m2, other) == circuit_of(m, other)
    &&& m2.failure_threshold == m.failure_threshold
    &&& m2.open_cooldown_ms == m.open_cooldown_ms
    &&& m2.half_open_success_threshold == m.half_open_success_threshold
}

/// Circuit breakers for all workers.
pub struct CircuitBreakerRegistry {
    entries: Vec<WorkerCircuit>,
    failure_threshold: u32,
    open_cooldown_ms: u64,
    half_open_success_threshold: u32,
    epoch: std::time::Instant,
}

impl View for CircuitBreakerRegistry {
    type V = RegistryModel;

    closed spec fn view(&self) -> RegistryModel {
        RegistryModel {
            ids: self.entries@.map_values(|e: WorkerCircuit| e.worker_id@),
            circuits: self.entries@.map_values(|e: WorkerCircuit| e.circuit),
            failure_threshold: self.failure_threshold,
            open_cooldown_ms: self.open_cooldown_ms,
            half_open_success_threshold: self.half_open_success_threshold,
        }
    }
}

proof fn lemma_index_of_id(ids: Seq<Seq<char>>, id: Seq<char>)
    ensures
        -1 <= index_of_id(ids, id) < ids.len(),
        index_of_id(ids, id) >= 0 ==> ids[index_of_id(ids, id)] == id,
        index_of_id(ids, id) < 0 ==> forall|k: int| 0 <= k < ids.len() ==> ids[k] != id,
    decreases ids.len(),
{
    if ids.len() > 0 {
        let p = ids.drop_last();
        lemma_index_of_id(p, id);
        if index_of_id(p, id) >= 0 {
            assert(ids[index_of_id(p, id)] == p[index_of_id(p, id)]);
        }
        if index_of_id(ids, id) < 0 {
            assert forall|k: int| 0 <= k < ids.len() implies ids[k] != id by {
                if k < p.len() {
                    assert(ids[k] == p[k]);
                }
            }
        }
    }
}

/// In a sequence without repeats, the index of `ids[i]` is `i`.
proof fn lemma_index_of_unique(ids: Seq<Seq<char>>, i: int)
    requires
        0 <= i < ids.len(),
        forall|a: int, b: int| 0 <= a < b < ids.len() ==> ids[a] != ids[b],
    ensures
        index_of_id(ids, ids[i]) == i,
    decreases ids.len(),
{
    lemma_index_of_id(ids, ids[i]);
    let j = index_of_id(ids, ids[i]);
    if j != i {
        if j < i {
            assert(ids[j] != ids[i]);
        } else {
            assert(ids[i] != ids[j]);
        }
    }
}

impl CircuitBreakerRegistry {
    /// Fresh registry: every worker starts closed.
    pub fn new(failure_threshold: u32, open_cooldown_ms: u64, half_open_success_threshold: u32) -> (r: Self)
        ensures
            registry_wf(r@),
            r@.failure_threshold == failure_threshold,
            r@.open_cooldown_ms == open_cooldown_ms,
            r@.half_open_success_threshold == half_open_success_threshold,
            forall|id: Seq<char>| circuit_of(r@, id) == fresh_circuit(),
    {
        let r = CircuitBreakerRegistry {
            entries: Vec::new(),
            failure_threshold,
            open_cooldown_ms,
            half_open_success_threshold,
            epoch: clock_now(),
        };
        assert(r@.ids =~= Seq::<Seq<char>>::empty());
        r
    }

    /// Three failures open a circuit for thirty seconds; one success in half-open closes it.
    pub fn default_registry() -> (r: Self)
        ensures
            registry_wf(r@),
            r@.failure_threshold == 3,
            r@.open_cooldown_ms == 30_000,
            r@.half_open_success_threshold == 1,
            forall|id: Seq<char>| circuit_of(r@, id) == fresh_circuit(),
    {
        Self::new(3, 30_000, 1)
    }

    /// Milliseconds on this registry's clock.
    pub fn now_ms(&self) -> u64 {
        elapsed_ms(&self.epoch)
    }

    /// Index of `worker_id`, inserting a fresh circuit when unseen.
    fn slot(&mut self, worker_id: &str) -> (i: usize)
        requires
            registry_wf(old(self)@),
        ensures
            registry_wf(final(self)@),
            i < final(self).entries.len(),
            final(self)@.ids[i as int] == worker_id@,
            final(self)@.circuits[i as int] == circuit_of(old(self)@, worker_id@),
            updated(old(self)@, final(self)@, worker_id@, circuit_of(old(self)@, worker_id@)),
    {
        let ghost pre = self@;
        let mut i: usize = 0;
        while i < self.entries.len()
            invariant
                self@ == pre,
                registry_wf(pre),
                i <= self.entries.len(),
                forall|k: int| 0 <= k < i ==> pre.ids[k] != worker_id@,
            decreases self.entries.len() - i,
        {
            let found = crate::text::chars_eq(
                crate::text::chars_of(self.entries[i].worker_id.as_str()).as_slice(),
                crate::text::chars_of(worker_id).as_slice(),
            );
            assert(pre.ids[i as int] == self.entries@[i as int].worker_id@);
            if found {
                proof {
                    lemma_index_of_unique(pre.ids, i as int);
                }
                return i;
            }
            i = i + 1;
        }
        proof {
            lemma_index_of_id(pre.ids, worker_id@);
            if index_of_id(pre.ids, worker_id@) >= 0 {
                assert(pre.ids[index_of_id(pre.ids, worker_id@)] != worker_id@);
            }
        }
        let id_string = crate::text::string_of(crate::text::chars_of(worker_id).as_slice());
        self.entries.push(WorkerCircuit { worker_id: id_string, circuit: fresh_circuit_exec() });
        let n = self.entries.len() - 1;
        proof {
            let post = self@;
            assert(post.ids =~= pre.ids.push(worker_id@));
            assert(post.circuits =~= pre.circuits.push(fresh_circuit()));
            assert(post.ids.drop_last() =~= pre.ids);
            assert forall|other: Seq<char>| other != worker_id@ implies circuit_of(post, other)
                == circuit_of(pre, other) by {
                lemma_index_of_id(pre.ids, other);
                assert(index_of_id(post.ids, other) == index_of_id(pre.ids, other));
            }
            assert forall|a: int, b: int| 0 <= a < b < post.ids.len() implies post.ids[a]
                != post.ids[b] by {
                if b == n {
                    assert(post.ids[a] == pre.ids[a]);
                }
            }
            assert forall|k: int| 0 <= k < post.circuits.len() implies circuit_wf(
                #[trigger] post.circuits[k],
            ) by {
                if k < n {
                    assert(post.circuits[k] == pre.circuits[k]);
                }
            }
            lemma_index_of_unique(post.ids, n as int);
        }
        n
    }

    /// Replace the circuit at `i`.
    fn put(&mut self, i: usize, c: CircuitView)
        requires
            registry_wf(old(self)@),
            i < old(self).entries.len(),
            circuit_wf(c),
        ensures
            registry_wf(final(self)@),
            updated(old(self)@, final(self)@, old(self)@.ids[i as int], c),
            final(self)@.ids == old(self)@.ids,
    {
        let ghost pre = self@;
        self.entries[i].circuit = c;
        proof {
            let post = self@;
            assert(post.ids =~= pre.ids);
            assert(post.circuits =~= pre.circuits.update(i as int, c));
            lemma_index_of_unique(pre.ids, i as int);
            assert forall|other: Seq<char>| other != pre.ids[i as int] implies circuit_of(
                post,
                other,
            ) == circuit_of(pre, other) by {
                lemma_index_of_id(pre.ids, other);
            }
            assert forall|k: int| 0 <= k < post.circuits.len() implies circuit_wf(
                #[trigger] post.circuits[k],
            ) by {
                if k != i {
                    assert(post.circuits[k] == pre.circuits[k]);
                }
            }
        }
    }

    /// State of `worker_id` at `now_ms`, half-opening an open circuit whose cooldown has passed.
    pub fn state_at(&mut self, worker_id: &str, now_ms: u64) -> (s: CircuitState)
        requires
            registry_wf(old(self)@),
        ensures
            registry_wf(final(self)@),
            updated(
                old(self)@,
                final(self)@,
                worker_id@,
                refreshed(circuit_of(old(self)@, worker_id@), now_ms, old(self)@.open_cooldown_ms),
            ),
            s == refreshed(circuit_of(old(self)@, worker_id@), now_ms, old(self)@.open_cooldown_ms).state,
    {
        let i = self.slot(worker_id);
        let c = self.entries[i].circuit;
        let mut next = c;
        if c.state == CircuitState::Open {
            match c.opened_at_ms {
                Some(at) => {
                    let elapsed = if now_ms >= at {
                        now_ms - at
                    } else {
                        0
                    };
                    if elapsed >= self.open_cooldown_ms {
                        next = CircuitView {
                            state: CircuitState::HalfOpen,
                            half_open_successes: 0,
                            ..c
                        };
                    }
                },
                None => {},
            }
        }
        self.put(i, next);
        next.state
    }

    /// State of `worker_id` now.
    pub fn state(&mut self, worker_id: &str) -> (s: CircuitState)
        requires
            registry_wf(old(self)@),
        ensures
            registry_wf(final(self)@),
            exists|now: u64|
                updated(
                    old(self)@,
                    final(self)@,
                    worker_id@,
                    refreshed(circuit_of(old(self)@, worker_id@), now, old(self)@.open_cooldown_ms),
                ) && s == refreshed(
                    circuit_of(old(self)@, worker_id@),
                    now,
                    old(self)@.open_cooldown_ms,
                ).state,
    {
        let now = self.now_ms();
        self.state_at(worker_id, now)
    }

    /// Whether work may be dispatched to `worker_id` at `now_ms`: its circuit is not open.
    pub fn allows_dispatch_at(&mut self, worker_id: &str, now_ms: u64) -> (ok: bool)
        requires
            registry_wf(old(self)@),
        ensures
            registry_wf(final(self)@),
            updated(
                old(self)@,
                final(self)@,
                worker_id@,
                refreshed(circuit_of(old(self)@, worker_id@), now_ms, old(self)@.open_cooldown_ms),
            ),
            ok == (refreshed(
                circuit_of(old(self)@, worker_id@),
                now_ms,
                old(self)@.open_cooldown_ms,
            ).state != CircuitState::Open),
    {
        let s = self.state_at(worker_id, now_ms);
        match s {
            CircuitState::Open => false,
            _ => true,
        }
    }

    /// Whether work may be dispatched to `worker_id` now.
    pub fn allows_dispatch(&mut self, worker_id: &str) -> (ok: bool)
        requires
            registry_wf(old(self)@),
        ensures
            registry_wf(final(self)@),
            exists|now: u64|
                updated(
                    old(self)@,
                    final(self)@,
                    worker_id@,
                    refreshed(circuit_of(old(self)@, worker_id@), now, old(self)@.open_cooldown_ms),
                ) && ok == (refreshed(
                    circuit_of(old(self)@, worker_id@),
                    now,
                    old(self)@.open_cooldown_ms,
                ).state != CircuitState::Open),
    {
        let now = self.now_ms();
        self.allows_dispatch_at(worker_id, now)
    }

    /// Record a successful dispatch to `worker_id`.
    pub fn record_success(&mut self, worker_id: &str)
        requires
            registry_wf(old(self)@),
        ensures
            registry_wf(final(self)@),
            updated(
                old(self)@,
                final(self)@,
                worker_id@,
                after_success(circuit_of(old(self)@, worker_id@), old(self)@.half_open_success_threshold),
            ),
    {
        let i = self.slot(worker_id);
        let c = self.entries[i].circuit;
        let next = if c.state == CircuitState::HalfOpen {
            let n = c.half_open_successes + 1;
            if n >= self.half_open_success_threshold {
                CircuitView {
                    state: CircuitState::Closed,
                    failures: 0,
                    opened_at_ms: None,
                    half_open_successes: n,
                }
            } else {
                CircuitView { half_open_successes: n, ..c }
            }
        } else {
            CircuitView { state: CircuitState::Closed, failures: 0, opened_at_ms: None, ..c }
        };
        self.put(i, next);
    }

    /// Record a failed dispatch to `worker_id` at `now_ms`.
    pub fn record_failure_at(&mut self, worker_id: &str, now_ms: u64)
        requires
            registry_wf(old(self)@),
        ensures
            registry_wf(final(self)@),
            updated(
                old(self)@,
                final(self)@,
                worker_id@,
                after_failure(circuit_of(old(self)@, worker_id@), now_ms, old(self)@.failure_threshold),
            ),
    {
        let i = self.slot(worker_id);
        let c = self.entries[i].circuit;
        let f = c.failures.saturating_add(1);
        let next = if f >= self.failure_threshold || c.state == CircuitState::HalfOpen {
            CircuitView {
                state: CircuitState::Open,
                failures: f,
                opened_at_ms: Some(now_ms),
                half_open_successes: 0,
            }
        } else {
            CircuitView { failures: f, ..c }
        };
        self.put(i, next);
    }

    /// Record a failed dispatch to `worker_id` now.
    pub fn record_failure(&mut self, worker_id: &str)
        requires
            registry_wf(old(self)@),
        ensures
            registry_wf(final(self)@),
            exists|now: u64|
                updated(
                    old(self)@,
                    final(self)@,
                    worker_id@,
                    after_failure(circuit_of(old(self)@, worker_id@), now, old(self)@.failure_threshold),
                ),
    {
        let now = self.now_ms();
        self.record_failure_at(worker_id, now)
    }
}

/// The circuit after `k` consecutive failures at `now`, starting from `c`.
pub open spec fn fail_times(c: CircuitView, now: u64, threshold: u32, k: nat) -> CircuitView
    decreases k,
{
    if k == 0 {
        c
    } else {
        after_failure(fail_times(c, now, threshold, (k - 1) as nat), now, threshold)
    }
}

/// A fresh circuit stays closed through fewer than `threshold` consecutive failures,
/// counting them, and opens at the `threshold`-th.
pub proof fn lemma_threshold_failures_open(now: u64, threshold: u32, k: nat)
    requires
        1 <= threshold,
        k <= threshold,
    ensures
        k < threshold ==> fail_times(fresh_circuit(), now, threshold, k).state == CircuitState::Closed
            && fail_times(fresh_circuit(), now, threshold, k).failures == k,
        k == threshold ==> fail_times(fresh_circuit(), now, threshold, k).state == CircuitState::Open
            && fail_times(fresh_circuit(), now, threshold, k).opened_at_ms == Some(now),
    decreases k,
{
    if k > 0 {
        lemma_threshold_failures_open(now, threshold, (k - 1) as nat);
    }
}

/// An open circuit stays open until its cooldown has passed since it opened, and is
/// half-open, with no successes counted, from then on.
pub proof fn lemma_cooldown_half_opens(c: CircuitView, at: u64, now: u64, cooldown_ms: u64)
    requires
        c.state == CircuitState::Open,
        c.opened_at_ms == Some(at),
        at <= now,
    ensures
        now - at < cooldown_ms ==> refreshed(c, now, cooldown_ms) == c,
        now - at >= cooldown_ms ==> refreshed(c, now, cooldown_ms).state == CircuitState::HalfOpen
            && refreshed(c, now, cooldown_ms).half_open_successes == 0,
{
}

/// Time alone changes only open circuits.
pub proof fn lemma_refresh_keeps_unopened(c: CircuitView, now: u64, cooldown_ms: u64)
    requires
        c.state != CircuitState::Open,
    ensures
        refreshed(c, now, cooldown_ms) == c,
{
}

/// A success closes a closed or open circuit and clears its failures; in half-open it
/// closes the circuit once the success threshold is reached.
pub proof fn lemma_success_closes(c: CircuitView, half_open_threshold: u32)
    requires
        circuit_wf(c),
    ensures
        c.state != CircuitState::HalfOpen ==> after_success(c, half_open_threshold).state
            == CircuitState::Closed && after_success(c, half_open_threshold).failures == 0,
        c.state == CircuitState::HalfOpen && c.half_open_successes + 1 >= half_open_threshold
            ==> after_success(c, half_open_threshold).state == CircuitState::Closed
            && after_success(c, half_open_threshold).failures == 0
            && after_success(c, half_open_threshold).opened_at_ms is None,
        c.state == CircuitState::HalfOpen && c.half_open_successes + 1 < half_open_threshold
            ==> after_success(c, half_open_threshold).state == CircuitState::HalfOpen
            && after_success(c, half_open_threshold).half_open_successes == c.half_open_successes + 1,
{
}

/// Any failure while half-open opens the circuit again, from `now`.
pub proof fn lemma_half_open_failure_reopens(c: CircuitView, now: u64, failure_threshold: u32)
    requires
        c.state == CircuitState::HalfOpen,
    ensures
        after_failure(c, now, failure_threshold).state == CircuitState::Open,
        after_failure(c, now, failure_threshold).opened_at_ms == Some(now),
        after_failure(c, now, failure_threshold).half_open_successes == 0,
{
}

/// Every transition keeps a circuit well formed.
pub proof fn lemma_transitions_keep_wf(
    c: CircuitView,
    now: u64,
    cooldown_ms: u64,
    failure_threshold: u32,
    half_open_threshold: u32,
)
    requires
        circuit_wf(c),
    ensures
        circuit_wf(refreshed(c, now, cooldown_ms)),
        circuit_wf(after_failure(c, now, failure_threshold)),
        circuit_wf(after_success(c, half_open_threshold)),
{
}

fn fresh_circuit_exec() -> (c: CircuitView)
    ensures
        c == fresh_circuit(),
{
    CircuitView { state: CircuitState::Closed, failures: 0, opened_at_ms: None, half_open_successes: 0 }
}

/// A call on the registry, as the circuit of its worker sees it.
pub enum CircuitCall {
    /// `state_at`, `state`, `allows_dispatch_at` or `allows_dispatch` at `now`.
    Read { id: Seq<char>, now: u64 },
    Success { id: Seq<char> },
    Failure { id: Seq<char>, now: u64 },
}

/// `m2` is the registry after `call` on `m`.
pub open spec fn call_effect(m: RegistryModel, m2: RegistryModel, call: CircuitCall) -> bool {
    match call {
        CircuitCall::Read { id, now } => updated(m, m2, id, refreshed(circuit_of(m, id), now, m.open_cooldown_ms)),
        CircuitCall::Success { id } => updated(m, m2, id, after_success(circuit_of(m, id), m.half_open_success_threshold)),
        CircuitCall::Failure { id, now } => updated(m, m2, id, after_failure(circuit_of(m, id), now, m.failure_threshold)),
    }
}

/// A worker that no failure was recorded for keeps a fresh circuit through
/// any sequence of calls from a registry where its circuit is fresh (a new
/// one): it reads closed and may be dispatched at any time.
pub proof fn lemma_never_failed_stays_closed(ms: Seq<RegistryModel>, calls: Seq<CircuitCall>, w: Seq<char>)
    requires
        ms.len() == calls.len() + 1,
        circuit_of(ms[0], w) == fresh_circuit(),
        forall|i: int| 0 <= i < calls.len() ==> call_effect(ms[i], ms[i + 1], #[trigger] calls[i]),
        forall|i: int| 0 <= i < calls.len() ==> !(#[trigger] calls[i] matches CircuitCall::Failure { id, .. } && id == w),
    ensures
        circuit_of(ms.last(), w) == fresh_circuit(),
        forall|now: u64, cooldown: u64| refreshed(circuit_of(ms.last(), w), now, cooldown).state == CircuitState::Closed,
    decreases calls.len(),
{
    if calls.len() > 0 {
        let k = calls.len() - 1;
        assert forall|i: int| 0 <= i < calls.drop_last().len() implies call_effect(
            ms.drop_last()[i],
            ms.drop_last()[i + 1],
            #[trigger] calls.drop_last()[i],
        ) by {
            assert(call_effect(ms[i], ms[i + 1], calls[i]));
        }
        assert forall|i: int| 0 <= i < calls.drop_last().len() implies !(#[trigger] calls.drop_last()[i] matches CircuitCall::Failure { id, .. } && id == w) by {
            assert(!(calls[i] matches CircuitCall::Failure { id, .. } && id == w));
        }
        lemma_never_failed_stays_closed(ms.drop_last(), calls.drop_last(), w);
        assert(ms.drop_last().last() == ms[k]);
        assert(call_effect(ms[k], ms[k + 1], calls[k]));
        assert(!(calls[k] matches CircuitCall::Failure { id, .. } && id == w));
        assert(ms.last() == ms[k + 1]);
    }
}

} // verus!
