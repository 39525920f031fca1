//! Per-cell supervision: a circuit breaker per cell, restart bookkeeping,
//! and the decision taken when a cell fails.
//!
//! Time is a millisecond count on one clock; each operation that reads the
//! clock has a twin ending in `_at` that takes the reading as an argument
//! and is specified exactly.

use crate::strmap::StrMap;
use vstd::prelude::*;

verus! {

/// Phase of a circuit breaker.
#[derive(Debug, Clone, Copy, PartialEq, Eq, Structural)]
pub enum CBState {
    Closed,
    Open,
    HalfOpen,
}

/// Counts consecutive failures; opens at a threshold and lets calls
/// through again (half-open) once `reset_after_ms` has passed since the
/// last failure.
#[derive(Debug, Clone, Copy)]
pub struct CircuitBreaker {
    failure_count: u32,
    failure_threshold: u32,
    reset_after_ms: u64,
    last_failure_ms: Option<u64>,
    state: CBState,
    /// Where this breaker's own clock starts: its times are milliseconds
    /// of the monotonic clock since then.
    origin: std::time::Instant,
}

/// The state of a circuit breaker as plain values.
pub struct CircuitView {
    pub failure_count: u32,
    pub failure_threshold: u32,
    pub reset_after_ms: u64,
    pub last_failure_ms: Option<u64>,
    pub state: CBState,
}

impl View for CircuitBreaker {
    type V = CircuitView;

    closed spec fn view(&self) -> CircuitView {
        CircuitView {
            failure_count: self.failure_count,
            failure_threshold: self.failure_threshold,
            reset_after_ms: self.reset_after_ms,
            last_failure_ms: self.last_failure_ms,
            state: self.state,
        }
    }
}

/// A fresh, closed breaker.
pub open spec fn fresh_circuit(failure_threshold: u32, reset_after_ms: u64) -> CircuitView {
    CircuitView {
        failure_count: 0,
        failure_threshold,
        reset_after_ms,
        last_failure_ms: None,
        state: CBState::Closed,
    }
}

/// After a success: no failures counted, closed.
pub open spec fn after_success(v: CircuitView) -> CircuitView {
    CircuitView { failure_count: 0, state: CBState::Closed, ..v }
}

/// After a failure at time `now`: one more failure, and open once the
/// count reaches the threshold.
pub open spec fn after_failure(v: CircuitView, now: u64) -> CircuitView {
    let n = (v.failure_count + 1) as u32;
    CircuitView {
        failure_count: n,
        last_failure_ms: Some(now),
        state: if n >= v.failure_threshold {
            CBState::Open
        } else {
            v.state
        },
        ..v
    }
}

/// Whether the reset window since the last failure has passed at `now`.
pub open spec fn reset_elapsed(v: CircuitView, now: u64) -> bool {
    match v.last_failure_ms {
        Some(t) => (if now >= t {
            now - t
        } else {
            0
        }) >= v.reset_after_ms,
        None => true,
    }
}

/// Whether a call is let through at `now`.
pub open spec fn allows(v: CircuitView, now: u64) -> bool {
    match v.state {
        CBState::Open => reset_elapsed(v, now),
        _ => true,
    }
}

/// The breaker after asking for a call at `now`: an open breaker whose
/// window has passed (after a recorded failure) turns half-open.
pub open spec fn after_allow(v: CircuitView, now: u64) -> CircuitView {
    if v.state == CBState::Open && v.last_failure_ms is Some && reset_elapsed(v, now) {
        CircuitView { state: CBState::HalfOpen, ..v }
    } else {
        v
    }
}

/// Persisted form of a circuit breaker.
#[derive(Debug, Clone, Copy, PartialEq, Eq, Structural)]
pub struct CircuitSnapshot {
    pub failure_count: u32,
    pub failure_threshold: u32,
    pub reset_after_ms: u64,
    pub open: bool,
}

pub open spec fn snapshot_of(v: CircuitView) -> CircuitSnapshot {
    CircuitSnapshot {
        failure_count: v.failure_count,
        failure_threshold: v.failure_threshold,
        reset_after_ms: v.reset_after_ms,
        open: v.state == CBState::Open,
    }
}

/// The breaker rebuilt from a snapshot at time `now`: an open one counts
/// its last failure as happening now.
pub open spec fn restored(snap: CircuitSnapshot, now: u64) -> CircuitView {
    CircuitView {
        failure_count: snap.failure_count,
        failure_threshold: snap.failure_threshold,
        reset_after_ms: snap.reset_after_ms,
        last_failure_ms: if snap.open {
            Some(now)
        } else {
            None
        },
        state: if snap.open {
            CBState::Open
        } else {
            CBState::Closed
        },
    }
}

impl CircuitBreaker {
    pub fn new(failure_threshold: u32, reset_after_ms: u64) -> (cb: Self)
        ensures
            cb@ == fresh_circuit(failure_threshold, reset_after_ms),
    {
        CircuitBreaker {
            failure_count: 0,
            failure_threshold,
            reset_after_ms,
            last_failure_ms: None,
            state: CBState::Closed,
            origin: crate::clock::monotonic_now(),
        }
    }

    pub fn record_success(&mut self)
        ensures
            final(self)@ == after_success(old(self)@),
    {
        self.failure_count = 0;
        self.state = CBState::Closed;
    }

    /// Records a failure observed at `now_ms`.
    pub fn record_failure_at(&mut self, now_ms: u64)
        requires
            old(self)@.failure_count < u32::MAX,
        ensures
            final(self)@ == after_failure(old(self)@, now_ms),
    {
        self.failure_count = self.failure_count + 1;
        self.last_failure_ms = Some(now_ms);
        if self.failure_count >= self.failure_threshold {
            self.state = CBState::Open;
        }
    }

    /// Records a failure at the current time.
    pub fn record_failure(&mut self)
        requires
            old(self)@.failure_count < u32::MAX,
        ensures
            exists|now: u64| final(self)@ == after_failure(old(self)@, now),
    {
        let now = crate::clock::monotonic_ms_since(&self.origin);
        self.record_failure_at(now);
    }

    /// Whether a call may go through at `now_ms`; an open breaker whose
    /// reset window has passed turns half-open and lets it through.
    pub fn allow_call_at(&mut self, now_ms: u64) -> (ok: bool)
        ensures
            ok == allows(old(self)@, now_ms),
            final(self)@ == after_allow(old(self)@, now_ms),
    {
        match self.state {
            CBState::Closed => true,
            CBState::Open => {
                match self.last_failure_ms {
                    Some(last) => {
                        let elapsed = if now_ms >= last {
                            now_ms - last
                        } else {
                            0
                        };
                        if elapsed >= self.reset_after_ms {
                            self.state = CBState::HalfOpen;
                            true
                        } else {
                            false
                        }
                    },
                    None => true,
                }
            },
            CBState::HalfOpen => true,
        }
    }

    /// Whether a call may go through now.
    pub fn allow_call(&mut self) -> (ok: bool)
        ensures
            exists|now: u64|
                ok == allows(old(self)@, now) && final(self)@ == after_allow(old(self)@, now),
    {
        let now = crate::clock::monotonic_ms_since(&self.origin);
        self.allow_call_at(now)
    }

    pub fn is_open(&self) -> (b: bool)
        ensures
            b == (self@.state == CBState::Open),
    {
        self.state == CBState::Open
    }

    pub fn failure_count(&self) -> (n: u32)
        ensures
            n == self@.failure_count,
    {
        self.failure_count
    }

    /// The breaker's persisted form.
    pub fn snapshot(&self) -> (s: CircuitSnapshot)
        ensures
            s == snapshot_of(self@),
    {
        CircuitSnapshot {
            failure_count: self.failure_count,
            failure_threshold: self.failure_threshold,
            reset_after_ms: self.reset_after_ms,
            open: self.state == CBState::Open,
        }
    }

    /// Rebuilds a breaker from its persisted form at time `now_ms`.
    pub fn restore_at(snap: &CircuitSnapshot, now_ms: u64) -> (cb: Self)
        ensures
            cb@ == restored(*snap, now_ms),
    {
        let mut cb = CircuitBreaker::new(snap.failure_threshold, snap.reset_after_ms);
        cb.failure_count = snap.failure_count;
        if snap.open {
            cb.state = CBState::Open;
            cb.last_failure_ms = Some(now_ms);
        }
        cb
    }

    /// Rebuilds a breaker from its persisted form now: its clock starts at
    /// the restore, which is time 0 of it.
    pub fn restore(snap: &CircuitSnapshot) -> (cb: Self)
        ensures
            cb@ == restored(*snap, 0),
    {
        CircuitBreaker::restore_at(snap, 0)
    }
}

impl Default for CircuitBreaker {
    fn default() -> (cb: Self)
        ensures
            cb@ == fresh_circuit(3, 30_000),
    {
        CircuitBreaker::new(3, 30_000)
    }
}

/// The breaker after a run of failures at the given times.
pub open spec fn after_failures(v: CircuitView, times: Seq<u64>) -> CircuitView
    decreases times.len(),
{
    if times.len() == 0 {
        v
    } else {
        after_failure(after_failures(v, times.drop_last()), times.last())
    }
}

/// Restoring a snapshot gives back the failure count, the threshold, the
/// reset window and whether the breaker was open.
pub proof fn law_snapshot_restore_roundtrip(v: CircuitView, now: u64)
    ensures
        restored(snapshot_of(v), now).failure_count == v.failure_count,
        restored(snapshot_of(v), now).failure_threshold == v.failure_threshold,
        restored(snapshot_of(v), now).reset_after_ms == v.reset_after_ms,
        (restored(snapshot_of(v), now).state == CBState::Open) == (v.state == CBState::Open),
        snapshot_of(restored(snapshot_of(v), now)) == snapshot_of(v),
{
}

/// From a fresh breaker, a run of consecutive failures counts each one, and
/// the breaker is open exactly when at least one failure happened and the
/// count reached the threshold; before that it stays closed.
pub proof fn law_opens_at_threshold(threshold: u32, reset_after_ms: u64, times: Seq<u64>)
    requires
        times.len() < u32::MAX,
    ensures
        after_failures(fresh_circuit(threshold, reset_after_ms), times).failure_count
            == times.len(),
        after_failures(fresh_circuit(threshold, reset_after_ms), times).failure_threshold
            == threshold,
        (after_failures(fresh_circuit(threshold, reset_after_ms), times).state == CBState::Open)
            == (times.len() > 0 && times.len() >= threshold),
        !(times.len() > 0 && times.len() >= threshold) ==> after_failures(
            fresh_circuit(threshold, reset_after_ms),
            times,
        ).state == CBState::Closed,
    decreases times.len(),
{
    if times.len() > 0 {
        law_opens_at_threshold(threshold, reset_after_ms, times.drop_last());
        let prev = after_failures(fresh_circuit(threshold, reset_after_ms), times.drop_last());
        assert(prev.failure_count + 1 == times.len());
        assert(((prev.failure_count + 1) as u32) as int == times.len());
    }
}

/// A success closes the breaker and clears its count, so the next call is
/// let through whatever the time.
pub proof fn law_success_closes(v: CircuitView, now: u64)
    ensures
        after_success(v).failure_count == 0,
        after_success(v).state == CBState::Closed,
        allows(after_success(v), now),
        after_allow(after_success(v), now) == after_success(v),
{
}

/// An open breaker refuses calls until the reset window after the last
/// failure has passed, and then lets one through half-open.
pub proof fn law_open_until_reset(v: CircuitView, t: u64, now: u64)
    requires
        v.state == CBState::Open,
        v.last_failure_ms == Some(t),
        t <= now,
    ensures
        now < t + v.reset_after_ms ==> !allows(v, now) && after_allow(v, now) == v,
        now >= t + v.reset_after_ms ==> allows(v, now) && after_allow(v, now).state
            == CBState::HalfOpen,
{
}

/// How a cell is treated when it fails.
#[derive(Debug, Clone, Copy, PartialEq, Eq, Structural)]
pub enum SupervisionStrategy {
    /// Restart the cell, at most `max_retries` times.
    Restart { max_retries: u32 },
    /// Stop the cell at its first failure.
    Stop,
    /// Hand the failure up to the parent.
    Escalate,
    /// Restart the cell, with a breaker of its own threshold and window.
    CircuitBreak { failure_threshold: u32, reset_after_ms: u64 },
}

impl Default for SupervisionStrategy {
    fn default() -> (s: Self)
        ensures
            s == (SupervisionStrategy::Restart { max_retries: 3 }),
    {
        SupervisionStrategy::Restart { max_retries: 3 }
    }
}

/// The breaker every cell gets unless its strategy brings its own.
#[derive(Debug, Clone, Copy, PartialEq, Eq, Structural)]
pub struct DefaultCircuitPolicy {
    pub failure_threshold: u32,
    pub reset_after_ms: u64,
}

impl Default for DefaultCircuitPolicy {
    fn default() -> (p: Self)
        ensures
            p.failure_threshold == 10,
            p.reset_after_ms == 30_000,
    {
        DefaultCircuitPolicy { failure_threshold: 10, reset_after_ms: 30_000 }
    }
}

/// The breaker parameters a strategy gives a newly registered cell.
pub open spec fn circuit_params(strategy: SupervisionStrategy) -> (u32, u64) {
    match strategy {
        SupervisionStrategy::CircuitBreak { failure_threshold, reset_after_ms } => (
            failure_threshold,
            reset_after_ms,
        ),
        _ => (10, 30_000),
    }
}

/// How long a cell stays circuit-broken after its breaker opens.
pub open spec fn open_window_ms(strategy: SupervisionStrategy) -> u64 {
    match strategy {
        SupervisionStrategy::CircuitBreak { reset_after_ms, .. } => reset_after_ms,
        _ => 30_000,
    }
}

/// Where a supervised cell stands.
#[derive(Debug, Clone, Copy, PartialEq, Eq, Structural)]
pub enum CellState {
    Running,
    Restarting { attempt: u32 },
    /// Circuit-broken until the supervisor's clock reads `until_ms`.
    CircuitOpen { until_ms: u64 },
    Stopped,
}

/// What the supervisor decides after a failure, before a restart delay is
/// chosen: a restart carries its attempt number.
#[derive(Debug, Clone, Copy, PartialEq, Eq, Structural)]
pub enum PanicVerdict {
    Restart { attempt: u32 },
    Stop,
    Escalate,
    CircuitBreak { until_ms: u64 },
}

/// What the runtime is told to do with a failed cell.
#[derive(Debug, Clone, Copy, PartialEq, Eq, Structural)]
pub enum SupervisionDecision {
    Restart { backoff_ms: u64 },
    Stop,
    Escalate,
    /// Keep the cell out until the supervisor's clock reads `until_ms`.
    CircuitBreak { until_ms: u64 },
}

/// The decision for a verdict, a restart waiting `backoff_ms`.
pub open spec fn decision_for(v: PanicVerdict, backoff_ms: u64) -> SupervisionDecision {
    match v {
        PanicVerdict::Restart { .. } => SupervisionDecision::Restart { backoff_ms },
        PanicVerdict::Stop => SupervisionDecision::Stop,
        PanicVerdict::Escalate => SupervisionDecision::Escalate,
        PanicVerdict::CircuitBreak { until_ms } => SupervisionDecision::CircuitBreak { until_ms },
    }
}

impl SupervisionDecision {
    /// The decision for a verdict, a restart waiting `backoff_ms`.
    pub fn from_verdict(v: PanicVerdict, backoff_ms: u64) -> (d: Self)
        ensures
            d == decision_for(v, backoff_ms),
    {
        match v {
            PanicVerdict::Restart { .. } => SupervisionDecision::Restart { backoff_ms },
            PanicVerdict::Stop => SupervisionDecision::Stop,
            PanicVerdict::Escalate => SupervisionDecision::Escalate,
            PanicVerdict::CircuitBreak { until_ms } => SupervisionDecision::CircuitBreak {
                until_ms,
            },
        }
    }
}

/// The supervision record of one cell.
#[derive(Debug, Clone, Copy)]
pub struct CellSupervision {
    pub state: CellState,
    pub strategy: SupervisionStrategy,
    pub circuit_breaker: CircuitBreaker,
    pub restart_count: u64,
}

/// The supervision record of one cell as plain values.
pub struct CellView {
    pub state: CellState,
    pub strategy: SupervisionStrategy,
    pub circuit: CircuitView,
    pub restart_count: u64,
}

impl View for CellSupervision {
    type V = CellView;

    open spec fn view(&self) -> CellView {
        CellView {
            state: self.state,
            strategy: self.strategy,
            circuit: self.circuit_breaker@,
            restart_count: self.restart_count,
        }
    }
}

/// The record of a cell just registered with `strategy`.
pub open spec fn registered(strategy: SupervisionStrategy) -> CellView {
    CellView {
        state: CellState::Running,
        strategy,
        circuit: fresh_circuit(circuit_params(strategy).0, circuit_params(strategy).1),
        restart_count: 0,
    }
}

/// The outcome of a failure of cell `c` at time `now`: its new record and
/// the verdict.
pub open spec fn panic_step(c: CellView, now: u64) -> (CellView, PanicVerdict) {
    let cb = after_failure(c.circuit, now);
    let rc = (c.restart_count + 1) as u64;
    if cb.state == CBState::Open {
        let until = saturating_add_u64(now, open_window_ms(c.strategy));
        (
            CellView {
                state: CellState::CircuitOpen { until_ms: until },
                circuit: cb,
                restart_count: rc,
                ..c
            },
            PanicVerdict::CircuitBreak { until_ms: until },
        )
    } else {
        match c.strategy {
            SupervisionStrategy::Stop => (
                CellView { state: CellState::Stopped, circuit: cb, restart_count: rc, ..c },
                PanicVerdict::Stop,
            ),
            SupervisionStrategy::Escalate => (
                CellView { circuit: cb, restart_count: rc, ..c },
                PanicVerdict::Escalate,
            ),
            SupervisionStrategy::Restart { max_retries } => if rc > max_retries {
                (
                    CellView { state: CellState::Stopped, circuit: cb, restart_count: rc, ..c },
                    PanicVerdict::Stop,
                )
            } else {
                (
                    CellView {
                        state: CellState::Restarting { attempt: rc as u32 },
                        circuit: cb,
                        restart_count: rc,
                        ..c
                    },
                    PanicVerdict::Restart { attempt: rc as u32 },
                )
            },
            SupervisionStrategy::CircuitBreak { .. } => (
                CellView {
                    state: CellState::Restarting { attempt: rc as u32 },
                    circuit: cb,
                    restart_count: rc,
                    ..c
                },
                PanicVerdict::Restart { attempt: rc as u32 },
            ),
        }
    }
}

/// A failure can be recorded for `c` at `now` without any counter or the
/// clock overflowing.
pub open spec fn can_record_panic(c: CellView) -> bool {
    &&& c.circuit.failure_count < u32::MAX
    &&& c.restart_count < u64::MAX
}

/// `a + b`, stopping at the largest `u64`.
pub open spec fn saturating_add_u64(a: u64, b: u64) -> u64 {
    if a + b > u64::MAX {
        u64::MAX
    } else {
        (a + b) as u64
    }
}

/// The record after a call is asked for at `now`.
pub open spec fn allow_step(c: CellView, now: u64) -> CellView {
    CellView { circuit: after_allow(c.circuit, now), ..c }
}

/// The record after a handled message.
pub open spec fn success_step(c: CellView) -> CellView {
    CellView { state: CellState::Running, circuit: after_success(c.circuit), ..c }
}

/// The outcome of asking whether cell `id` may handle a message at `now`:
/// a known cell asks its breaker, an unknown cell may not.
pub open spec fn handle_check(
    before: Map<Seq<char>, CellView>,
    after: Map<Seq<char>, CellView>,
    id: Seq<char>,
    now: u64,
    ok: bool,
) -> bool {
    if before.contains_key(id) {
        &&& ok == allows(before[id].circuit, now)
        &&& after == before.insert(id, allow_step(before[id], now))
    } else {
        !ok && after == before
    }
}


/// The last snapshot given for each cell, in a list of (cell, snapshot)
/// pairs.
pub open spec fn latest_snapshots(s: Seq<(String, CircuitSnapshot)>) -> Map<Seq<char>, CircuitSnapshot>
    decreases s.len(),
{
    if s.len() == 0 {
        Map::empty()
    } else {
        latest_snapshots(s.drop_last()).insert(s.last().0@, s.last().1)
    }
}

/// The record of a cell after its breaker is restored from `snap` at `now`:
/// a known cell keeps its strategy and restart count; an unknown one gets
/// the default strategy. A cell whose breaker was open is circuit-broken
/// for the breaker's reset window from `now`.
pub open spec fn restore_step(before: Option<CellView>, snap: CircuitSnapshot, now: u64) -> CellView {
    let circuit = restored(snap, now);
    let open_state = CellState::CircuitOpen { until_ms: saturating_add_u64(now, snap.reset_after_ms) };
    match before {
        Some(c) => CellView {
            state: if snap.open {
                open_state
            } else {
                c.state
            },
            circuit,
            ..c
        },
        None => CellView {
            state: if snap.open {
                open_state
            } else {
                CellState::Running
            },
            strategy: SupervisionStrategy::Restart { max_retries: 3 },
            circuit,
            restart_count: 0,
        },
    }
}

/// The records after restoring the breakers in `latest` at `now`.
pub open spec fn restore_cells(
    cells: Map<Seq<char>, CellView>,
    latest: Map<Seq<char>, CircuitSnapshot>,
    now: u64,
) -> Map<Seq<char>, CellView> {
    Map::new(
        |k: Seq<char>| cells.contains_key(k) || latest.contains_key(k),
        |k: Seq<char>|
            if latest.contains_key(k) {
                restore_step(
                    if cells.contains_key(k) {
                        Some(cells[k])
                    } else {
                        None
                    },
                    latest[k],
                    now,
                )
            } else {
                cells[k]
            },
    )
}

/// The id of the cell a persisted breaker belongs to: the event's cell id
/// when it has one, else its aggregate id without the "circuit:" prefix.
pub open spec fn circuit_cell_id(cell_id: Seq<char>, aggregate_id: Seq<char>) -> Seq<char> {
    if cell_id.len() > 0 {
        cell_id
    } else if aggregate_id.len() >= 8 && aggregate_id.take(8) == "circuit:"@ {
        aggregate_id.skip(8)
    } else {
        aggregate_id
    }
}

/// The id of the cell a persisted breaker belongs to.
pub fn cell_of_circuit_event(cell_id: &str, aggregate_id: &str) -> (r: String)
    ensures
        r@ == circuit_cell_id(cell_id@, aggregate_id@),
{
    proof {
        reveal_strlit("circuit:");
    }
    if cell_id.unicode_len() > 0 {
        return crate::text::owned(cell_id);
    }
    let n = aggregate_id.unicode_len();
    if n >= 8 {
        let head = aggregate_id.substring_char(0, 8);
        if crate::text::str_equal(head, "circuit:") {
            return crate::text::owned(aggregate_id.substring_char(8, n));
        }
    }
    crate::text::owned(aggregate_id)
}

/// The event type under which breaker snapshots are persisted.
pub open spec fn circuit_snapshot_type() -> Seq<char> {
    "circuit.snapshot"@
}

/// The event type under which breaker snapshots are persisted.
pub fn circuit_snapshot_event_type() -> (t: String)
    ensures
        t@ == circuit_snapshot_type(),
{
    crate::text::owned("circuit.snapshot")
}

/// Whether a stored event of type `event_type` is a breaker snapshot.
pub fn is_circuit_snapshot_event(event_type: &str) -> (b: bool)
    ensures
        b == (event_type@ == circuit_snapshot_type()),
{
    crate::text::str_equal(event_type, "circuit.snapshot")
}

/// The aggregate id under which the breaker of `cell_id` is persisted.
pub fn circuit_aggregate_id(cell_id: &str) -> (r: String)
    ensures
        r@ == "circuit:"@ + cell_id@,
{
    let mut r = crate::text::owned("circuit:");
    r.append(cell_id);
    r
}

/// `base` grown by `factor` for each of `k` steps.
pub open spec fn scaled(base: nat, factor: nat, k: nat) -> nat
    decreases k,
{
    if k == 0 {
        base
    } else {
        scaled(base, factor, (k - 1) as nat) * factor
    }
}

/// `x`, at most `cap`.
pub open spec fn capped(x: nat, cap: nat) -> nat {
    if x < cap {
        x
    } else {
        cap
    }
}

/// The delay before restart attempt `attempt` (counted from 1):
/// `base_ms`, grown by `factor` for each earlier attempt, and at most
/// `cap_ms`.
pub open spec fn restart_backoff(attempt: u32, base_ms: u64, cap_ms: u64, factor: u64) -> nat {
    let k: nat = if attempt == 0 {
        0
    } else {
        (attempt - 1) as nat
    };
    capped(scaled(base_ms as nat, factor as nat, k), cap_ms as nat)
}

proof fn lemma_capped_step(x: nat, factor: nat, cap: nat)
    ensures
        capped(capped(x, cap) * factor, cap) == capped(x * factor, cap),
{
    if x >= cap {
        if factor >= 1 {
            assert(cap * factor >= cap) by (nonlinear_arith)
                requires
                    factor >= 1,
            ;
            assert(x * factor >= cap * factor) by (nonlinear_arith)
                requires
                    x >= cap,
            ;
        } else {
            assert(factor == 0);
            assert(cap * factor == 0 && x * factor == 0) by (nonlinear_arith)
                requires
                    factor == 0,
            ;
        }
    }
}

proof fn lemma_capped_settles(base: nat, factor: nat, cap: nat, i: nat, j: nat)
    requires
        i <= j,
        capped(scaled(base, factor, i), cap) == 0 || (capped(scaled(base, factor, i), cap) == cap
            && factor >= 1),
    ensures
        capped(scaled(base, factor, j), cap) == capped(scaled(base, factor, i), cap),
    decreases j - i,
{
    if i < j {
        lemma_capped_settles(base, factor, cap, i, (j - 1) as nat);
        lemma_capped_step(scaled(base, factor, (j - 1) as nat), factor, cap);
        let c = capped(scaled(base, factor, i), cap);
        if c == 0 {
            assert(c * factor == 0) by (nonlinear_arith)
                requires
                    c == 0,
            ;
        } else {
            assert(cap * factor >= cap) by (nonlinear_arith)
                requires
                    factor >= 1,
            ;
        }
    }
}

/// The delay before restart attempt `attempt`: `base_ms` doubled (for a
/// `factor` of 2) for each earlier attempt, and at most `cap_ms`.
pub fn restart_backoff_ms(attempt: u32, base_ms: u64, cap_ms: u64, factor: u64) -> (r: u64)
    ensures
        r == restart_backoff(attempt, base_ms, cap_ms, factor),
{
    let k: u32 = if attempt == 0 {
        0
    } else {
        attempt - 1
    };
    let ghost (b0, f0, c0) = (base_ms as nat, factor as nat, cap_ms as nat);
    let mut b: u64 = if base_ms < cap_ms {
        base_ms
    } else {
        cap_ms
    };
    let mut i: u32 = 0;
    while i < k
        invariant
            i <= k,
            b == capped(scaled(b0, f0, i as nat), c0),
            b0 == base_ms,
            f0 == factor,
            c0 == cap_ms,
            k == (if attempt == 0 {
                0
            } else {
                attempt - 1
            }),
        decreases k - i,
    {
        if b == 0 || (b == cap_ms && factor >= 1) {
            proof {
                lemma_capped_settles(b0, f0, c0, i as nat, k as nat);
            }
            return b;
        }
        proof {
            assert(b as nat * factor as nat <= 0xffff_ffff_ffff_ffffu64 as nat
                * 0xffff_ffff_ffff_ffffu64 as nat) by (nonlinear_arith)
                requires
                    b <= 0xffff_ffff_ffff_ffffu64,
                    factor <= 0xffff_ffff_ffff_ffffu64,
            ;
            lemma_capped_step(scaled(b0, f0, i as nat), f0, c0);
        }
        let p: u128 = b as u128 * factor as u128;
        b = if p < cap_ms as u128 {
            p as u64
        } else {
            cap_ms
        };
        i = i + 1;
    }
    b
}

/// A restart delay never exceeds the cap, and each attempt after the
/// first waits `factor` times the previous delay, up to the cap.
pub proof fn law_restart_backoff_grows_to_cap(attempt: u32, base_ms: u64, cap_ms: u64, factor: u64)
    requires
        1 <= attempt < u32::MAX,
    ensures
        restart_backoff(attempt, base_ms, cap_ms, factor) <= cap_ms,
        restart_backoff(1, base_ms, cap_ms, factor) == capped(base_ms as nat, cap_ms as nat),
        restart_backoff((attempt + 1) as u32, base_ms, cap_ms, factor) == capped(
            restart_backoff(attempt, base_ms, cap_ms, factor) * (factor as nat),
            cap_ms as nat,
        ),
{
    lemma_capped_step(
        scaled(base_ms as nat, factor as nat, (attempt - 1) as nat),
        factor as nat,
        cap_ms as nat,
    );
}

/// Full jitter: `salt` reduced into `0..=high`.
pub open spec fn full_jitter(high: u64, salt: u64) -> u64 {
    if high == 0 {
        0
    } else {
        (salt as int % (high + 1)) as u64
    }
}

pub fn full_jitter_exec(high: u64, salt: u64) -> (r: u64)
    requires
        high < u64::MAX,
    ensures
        r == full_jitter(high, salt),
        r <= high,
{
    if high == 0 {
        return 0;
    }
    salt % (high + 1)
}

/// The salt of the jitter for `attempt`, from the sub-second part of a
/// clock reading of `now_ns`.
pub open spec fn jitter_salt(now_ns: u64, attempt: u32) -> u64 {
    let sub = (now_ns % 1_000_000_000) as u64;
    if sub + attempt * 17 > u64::MAX {
        u64::MAX
    } else {
        (sub + attempt * 17) as u64
    }
}

/// A restart delay for `attempt` drawn uniformly (by the clock) from
/// `0..=high`, where `high` is the exponential ceiling for the attempt.
pub fn jittered_backoff(attempt: u32, high: u64) -> (r: u64)
    requires
        high < u64::MAX,
    ensures
        r <= high,
        exists|now: u64| r == full_jitter(high, #[trigger] jitter_salt(now, attempt)),
{
    let now = crate::clock::unix_time_ns();
    let salt = (now % 1_000_000_000).saturating_add(attempt as u64 * 17);
    assert(salt == jitter_salt(now, attempt));
    full_jitter_exec(high, salt)
}


/// Per-cell supervision records, keyed by cell id.
pub struct Supervisor {
    states: StrMap<CellSupervision>,
    /// Where the supervisor's clock starts: its times are milliseconds of
    /// the monotonic clock since then.
    origin: std::time::Instant,
}

impl Supervisor {
    /// The records by cell id.
    pub closed spec fn cells(&self) -> Map<Seq<char>, CellView> {
        self.states@.map_values(|c: CellSupervision| c@)
    }

    pub fn new() -> (s: Self)
        ensures
            s.cells() == Map::<Seq<char>, CellView>::empty(),
    {
        let s = Supervisor { states: StrMap::new(), origin: crate::clock::monotonic_now() };
        assert(s.cells() =~= Map::<Seq<char>, CellView>::empty());
        s
    }

    /// Puts `cell_id` under supervision with `strategy`, replacing any
    /// earlier record.
    pub fn register_cell(&mut self, cell_id: &str, strategy: SupervisionStrategy)
        ensures
            final(self).cells().dom() == old(self).cells().dom().insert(cell_id@),
            final(self).cells()[cell_id@] == registered(strategy),
            forall|k: Seq<char>| k != cell_id@ && #[trigger] old(self).cells().contains_key(k)
                ==> final(self).cells()[k] == old(self).cells()[k],
    {
        let policy = DefaultCircuitPolicy::default();
        let (threshold, reset_after_ms) = match strategy {
            SupervisionStrategy::CircuitBreak { failure_threshold, reset_after_ms } => (
                failure_threshold,
                reset_after_ms,
            ),
            _ => (policy.failure_threshold, policy.reset_after_ms),
        };
        let rec = CellSupervision {
            state: CellState::Running,
            strategy,
            circuit_breaker: CircuitBreaker::new(threshold, reset_after_ms),
            restart_count: 0,
        };
        self.states.insert(crate::text::owned(cell_id), rec);
        assert(self.cells().dom() =~= old(self).cells().dom().insert(cell_id@));
    }

    /// Whether `cell_id` may handle a message at `now_ms`; an unknown cell
    /// may not.
    pub fn before_handle_at(&mut self, cell_id: &str, now_ms: u64) -> (ok: bool)
        ensures
            handle_check(old(self).cells(), final(self).cells(), cell_id@, now_ms, ok),
            old(self).cells().contains_key(cell_id@) ==> {
                let c = old(self).cells()[cell_id@];
                &&& ok == allows(c.circuit, now_ms)
                &&& final(self).cells() == old(self).cells().insert(cell_id@, allow_step(c, now_ms))
            },
            !old(self).cells().contains_key(cell_id@) ==> !ok
                && final(self).cells() == old(self).cells(),
    {
        match self.states.remove(cell_id) {
            Some(c) => {
                let mut c = c;
                let ok = c.circuit_breaker.allow_call_at(now_ms);
                self.states.insert(crate::text::owned(cell_id), c);
                assert(self.cells() =~= old(self).cells().insert(cell_id@, c@));
                ok
            },
            None => {
                assert(self.states@ =~= old(self).states@);
                assert(self.cells() =~= old(self).cells());
                false
            },
        }
    }

    /// Whether `cell_id` may handle a message now.
    pub fn before_handle(&mut self, cell_id: &str) -> (ok: bool)
        ensures
            exists|now: u64|
                #[trigger] handle_check(old(self).cells(), final(self).cells(), cell_id@, now, ok),
    {
        let now = crate::clock::monotonic_ms_since(&self.origin);
        self.before_handle_at(cell_id, now)
    }

    /// Records that `cell_id` handled a message: its breaker closes and it
    /// is running.
    pub fn record_success(&mut self, cell_id: &str)
        ensures
            old(self).cells().contains_key(cell_id@) ==> final(self).cells() == old(
                self,
            ).cells().insert(cell_id@, success_step(old(self).cells()[cell_id@])),
            !old(self).cells().contains_key(cell_id@) ==> final(self).cells() == old(self).cells(),
    {
        match self.states.remove(cell_id) {
            Some(c) => {
                let mut c = c;
                c.circuit_breaker.record_success();
                c.state = CellState::Running;
                self.states.insert(crate::text::owned(cell_id), c);
                assert(self.cells() =~= old(self).cells().insert(cell_id@, c@));
            },
            None => {
                assert(self.states@ =~= old(self).states@);
                assert(self.cells() =~= old(self).cells());
            },
        }
    }

    /// Records a failure of `cell_id` at `now_ms` and decides what happens
    /// to it; an unknown cell is stopped.
    pub fn record_panic_at(&mut self, cell_id: &str, now_ms: u64) -> (v: PanicVerdict)
        requires
            old(self).cells().contains_key(cell_id@) ==> can_record_panic(old(self).cells()[cell_id@]),
        ensures
            old(self).cells().contains_key(cell_id@) ==> {
                let step = panic_step(old(self).cells()[cell_id@], now_ms);
                &&& v == step.1
                &&& final(self).cells() == old(self).cells().insert(cell_id@, step.0)
            },
            !old(self).cells().contains_key(cell_id@) ==> v == PanicVerdict::Stop
                && final(self).cells() == old(self).cells(),
    {
        match self.states.remove(cell_id) {
            Some(c) => {
                let mut c = c;
                let ghost c0 = c;
                c.circuit_breaker.record_failure_at(now_ms);
                c.restart_count = c.restart_count + 1;
                let verdict = if c.circuit_breaker.is_open() {
                    let window = match c.strategy {
                        SupervisionStrategy::CircuitBreak { reset_after_ms, .. } => reset_after_ms,
                        _ => 30_000,
                    };
                    let until = now_ms.saturating_add(window);
                    c.state = CellState::CircuitOpen { until_ms: until };
                    PanicVerdict::CircuitBreak { until_ms: until }
                } else {
                    match c.strategy {
                        SupervisionStrategy::Stop => {
                            c.state = CellState::Stopped;
                            PanicVerdict::Stop
                        },
                        SupervisionStrategy::Escalate => PanicVerdict::Escalate,
                        SupervisionStrategy::Restart { max_retries } => {
                            if c.restart_count > max_retries as u64 {
                                c.state = CellState::Stopped;
                                PanicVerdict::Stop
                            } else {
                                let attempt = c.restart_count as u32;
                                c.state = CellState::Restarting { attempt };
                                PanicVerdict::Restart { attempt }
                            }
                        },
                        SupervisionStrategy::CircuitBreak { .. } => {
                            let attempt = c.restart_count as u32;
                            c.state = CellState::Restarting { attempt };
                            PanicVerdict::Restart { attempt }
                        },
                    }
                };
                assert(c@ == panic_step(c0@, now_ms).0);
                self.states.insert(crate::text::owned(cell_id), c);
                assert(self.cells() =~= old(self).cells().insert(cell_id@, c@));
                verdict
            },
            None => {
                assert(self.states@ =~= old(self).states@);
                assert(self.cells() =~= old(self).cells());
                PanicVerdict::Stop
            },
        }
    }

    /// Records a failure of `cell_id` now and decides what happens to it.
    pub fn record_panic(&mut self, cell_id: &str) -> (v: PanicVerdict)
        requires
            old(self).cells().contains_key(cell_id@) ==> can_record_panic(old(self).cells()[cell_id@]),
        ensures
            old(self).cells().contains_key(cell_id@) ==> exists|now: u64|
                #[trigger] panic_step(old(self).cells()[cell_id@], now) == (
                    final(self).cells()[cell_id@],
                    v,
                ) && final(self).cells() == old(self).cells().insert(
                    cell_id@,
                    panic_step(old(self).cells()[cell_id@], now).0,
                ),
            !old(self).cells().contains_key(cell_id@) ==> v == PanicVerdict::Stop
                && final(self).cells() == old(self).cells(),
    {
        let now = crate::clock::monotonic_ms_since(&self.origin);
        self.record_panic_at(cell_id, now)
    }

    /// The persisted form of every cell's breaker, one pair per cell.
    pub fn circuit_snapshots(&self) -> (out: Vec<(String, CircuitSnapshot)>)
        ensures
            out@.len() == self.cells().len(),
            forall|i: int, j: int|
                0 <= i < out@.len() && 0 <= j < out@.len() && i != j ==> #[trigger] out@[i].0@
                    != #[trigger] out@[j].0@,
            forall|i: int|
                0 <= i < out@.len() ==> self.cells().contains_key(#[trigger] out@[i].0@)
                    && out@[i].1 == snapshot_of(self.cells()[out@[i].0@].circuit),
            forall|k: Seq<char>|
                #[trigger] self.cells().contains_key(k) ==> exists|i: int|
                    0 <= i < out@.len() && #[trigger] out@[i].0@ == k,
    {
        let keys = self.states.keys();
        let n = self.states.len();
        let mut out: Vec<(String, CircuitSnapshot)> = Vec::new();
        let mut i: usize = 0;
        while i < n
            invariant
                n == keys@.len(),
                n == self.states.key_order().len(),
                self.states.key_order().no_duplicates(),
                forall|k: Seq<char>| self.states.key_order().contains(k) <==> self.states@.contains_key(k),
                forall|j: int| 0 <= j < keys@.len() ==> #[trigger] keys@[j]@ == self.states.key_order()[j],
                i <= n,
                out@.len() == i,
                forall|j: int| 0 <= j < i ==> #[trigger] out@[j].0@ == self.states.key_order()[j],
                forall|j: int|
                    0 <= j < i ==> out@[j].1 == snapshot_of(
                        #[trigger] self.states@[self.states.key_order()[j]]@.circuit,
                    ),
            decreases n - i,
        {
            let k = &keys[i];
            let v = self.states.value_at(i);
            out.push((k.clone(), v.circuit_breaker.snapshot()));
            i = i + 1;
        }
        proof {
            let ko = self.states.key_order();
            assert(self.cells().dom() =~= self.states@.dom());
            assert forall|k: Seq<char>| #[trigger] self.cells().contains_key(k) implies exists|j: int|
                0 <= j < out@.len() && #[trigger] out@[j].0@ == k by {
                assert(ko.contains(k));
                let j = choose|j: int| 0 <= j < ko.len() && ko[j] == k;
                assert(out@[j].0@ == k);
            }
            assert forall|a: int, b: int|
                0 <= a < out@.len() && 0 <= b < out@.len() && a != b implies #[trigger] out@[a].0@
                != #[trigger] out@[b].0@ by {
                assert(ko[a] != ko[b]);
            }
            assert forall|j: int| 0 <= j < out@.len() implies self.cells().contains_key(
                #[trigger] out@[j].0@,
            ) && out@[j].1 == snapshot_of(self.cells()[out@[j].0@].circuit) by {
                assert(ko.contains(ko[j]));
            }
        }
        out
    }

    /// Restores breakers from persisted snapshots at `now_ms`; for a cell
    /// given several times the last snapshot counts. Returns the number of
    /// cells restored.
    pub fn restore_circuits_at(&mut self, snaps: &Vec<(String, CircuitSnapshot)>, now_ms: u64) -> (n: usize)
        ensures
            n == latest_snapshots(snaps@).len(),
            final(self).cells() == restore_cells(old(self).cells(), latest_snapshots(snaps@), now_ms),
    {
        let mut latest: StrMap<CircuitSnapshot> = StrMap::new();
        let mut i: usize = 0;
        while i < snaps.len()
            invariant
                i <= snaps@.len(),
                latest@ == latest_snapshots(snaps@.take(i as int)),
            decreases snaps@.len() - i,
        {
            let (k, snap) = (&snaps[i].0, snaps[i].1);
            latest.insert(k.clone(), snap);
            assert(snaps@.take(i + 1).drop_last() =~= snaps@.take(i as int));
            i = i + 1;
        }
        assert(snaps@.take(snaps@.len() as int) =~= snaps@);
        let ghost all = latest@;
        let keys = latest.keys();
        let count = latest.len();
        let ghost cells0 = self.cells();
        let mut j: usize = 0;
        while j < count
            invariant
                count == keys@.len(),
                count == latest.key_order().len(),
                latest@ == all,
                latest.key_order().no_duplicates(),
                forall|k: Seq<char>| latest.key_order().contains(k) <==> all.contains_key(k),
                forall|t: int| 0 <= t < keys@.len() ==> #[trigger] keys@[t]@ == latest.key_order()[t],
                j <= count,
                self.cells() == restore_cells(
                    cells0,
                    all.restrict(latest.key_order().take(j as int).to_set()),
                    now_ms,
                ),
            decreases count - j,
        {
            let key = &keys[j];
            let snap = *latest.value_at(j);
            let ghost kj = latest.key_order()[j as int];
            let ghost before = self.cells();
            let ghost before_states = self.states@;
            assert(latest.key_order().contains(kj));
            assert(all.contains_key(kj));
            assert(snap == all[kj]);
            let prev = self.states.remove(key.as_str());
            let cb = CircuitBreaker::restore_at(&snap, now_ms);
            let rec = match prev {
                Some(c) => {
                    let mut c = c;
                    c.circuit_breaker = cb;
                    if snap.open {
                        c.state = CellState::CircuitOpen { until_ms: now_ms.saturating_add(snap.reset_after_ms) };
                    }
                    c
                },
                None => {
                    CellSupervision {
                        state: if snap.open {
                            CellState::CircuitOpen { until_ms: now_ms.saturating_add(snap.reset_after_ms) }
                        } else {
                            CellState::Running
                        },
                        strategy: SupervisionStrategy::default(),
                        circuit_breaker: cb,
                        restart_count: 0,
                    }
                },
            };
            self.states.insert(key.clone(), rec);
            proof {
                assert(all.contains_key(kj));
                let done0 = latest.key_order().take(j as int).to_set();
                let done1 = latest.key_order().take(j + 1).to_set();
                assert(latest.key_order().take(j + 1) =~= latest.key_order().take(j as int).push(kj));
                latest.key_order().take(j as int).lemma_push_to_set_commute(kj);
                assert(done1 =~= done0.insert(kj));
                assert(!done0.contains(kj)) by {
                    if done0.contains(kj) {
                        let t = choose|t: int| 0 <= t < j && latest.key_order()[t] == kj;
                        assert(latest.key_order()[t] == latest.key_order()[j as int]);
                    }
                }
                assert(before.contains_key(kj) == cells0.contains_key(kj));
                if before.contains_key(kj) {
                    assert(before[kj] == cells0[kj]);
                }
                assert(rec@ == restore_step(
                    if cells0.contains_key(kj) {
                        Some(cells0[kj])
                    } else {
                        None
                    },
                    all[kj],
                    now_ms,
                ));
                assert(self.states@ == before_states.remove(kj).insert(kj, rec));
                assert(self.cells() =~= before.insert(kj, rec@));
                let target = restore_cells(cells0, all.restrict(done1), now_ms);
                assert forall|k: Seq<char>| #[trigger] self.cells().contains_key(k) <==> target.contains_key(k) by {
                    if k != kj {
                        assert(done1.contains(k) == done0.contains(k));
                    }
                }
                assert forall|k: Seq<char>| #[trigger] self.cells().contains_key(k) implies self.cells()[k] == target[k] by {
                    if k != kj {
                        assert(done1.contains(k) == done0.contains(k));
                        assert(self.cells()[k] == before[k]);
                    }
                }
                assert(self.cells() =~= target);
            }
            j = j + 1;
        }
        proof {
            let ko = latest.key_order();
            assert(ko.take(count as int) =~= ko);
            assert(ko.to_set() =~= all.dom());
            assert(all.restrict(all.dom()) =~= all);
        }
        count
    }

    /// Restores breakers from persisted snapshots as of now.
    pub fn restore_circuits(&mut self, snaps: &Vec<(String, CircuitSnapshot)>) -> (n: usize)
        ensures
            n == latest_snapshots(snaps@).len(),
            exists|now: u64|
                final(self).cells() == #[trigger] restore_cells(old(self).cells(), latest_snapshots(snaps@), now),
    {
        let now = crate::clock::monotonic_ms_since(&self.origin);
        self.restore_circuits_at(snaps, now)
    }

    /// How many failures have been recorded for `cell_id` (0 if unknown).
    pub fn restart_count(&self, cell_id: &str) -> (n: u64)
        ensures
            n == if self.cells().contains_key(cell_id@) {
                self.cells()[cell_id@].restart_count
            } else {
                0
            },
    {
        match self.states.get(cell_id) {
            Some(c) => c.restart_count,
            None => 0,
        }
    }

    /// The failures counted by the breaker of `cell_id` since its last
    /// success (0 if unknown).
    pub fn failure_count(&self, cell_id: &str) -> (n: u32)
        ensures
            n == if self.cells().contains_key(cell_id@) {
                self.cells()[cell_id@].circuit.failure_count
            } else {
                0
            },
    {
        match self.states.get(cell_id) {
            Some(c) => c.circuit_breaker.failure_count(),
            None => 0,
        }
    }

    /// Whether the breaker of `cell_id` is open (false if unknown).
    pub fn is_circuit_open(&self, cell_id: &str) -> (b: bool)
        ensures
            b == (self.cells().contains_key(cell_id@) && self.cells()[cell_id@].circuit.state
                == CBState::Open),
    {
        match self.states.get(cell_id) {
            Some(c) => c.circuit_breaker.is_open(),
            None => false,
        }
    }
}


/// A cell record after failures at the given times.
pub open spec fn after_panics(c: CellView, times: Seq<u64>) -> CellView
    decreases times.len(),
{
    if times.len() == 0 {
        c
    } else {
        panic_step(after_panics(c, times.drop_last()), times.last()).0
    }
}

/// The verdict on the last of a run of failures.
pub open spec fn last_verdict(c: CellView, times: Seq<u64>) -> PanicVerdict
    recommends
        times.len() > 0,
{
    panic_step(after_panics(c, times.drop_last()), times.last()).1
}

proof fn lemma_counts_after_panics(strategy: SupervisionStrategy, times: Seq<u64>)
    requires
        times.len() < circuit_params(strategy).0,
    ensures
        after_panics(registered(strategy), times).restart_count == times.len(),
        after_panics(registered(strategy), times).circuit.failure_count == times.len(),
        after_panics(registered(strategy), times).circuit.failure_threshold == circuit_params(
            strategy,
        ).0,
        after_panics(registered(strategy), times).circuit.state == CBState::Closed,
        after_panics(registered(strategy), times).strategy == strategy,
    decreases times.len(),
{
    if times.len() > 0 {
        lemma_counts_after_panics(strategy, times.drop_last());
    }
}

/// A cell under `Restart { max_retries }` whose breaker has not opened is
/// restarted on each of its first `max_retries` failures, the k-th restart
/// being attempt k, and stopped on the next one.
pub proof fn law_restart_budget(max_retries: u32, times: Seq<u64>)
    requires
        times.len() > 0,
        times.len() < 10,
    ensures
        last_verdict(registered(SupervisionStrategy::Restart { max_retries }), times) == if times.len()
            <= max_retries {
            PanicVerdict::Restart { attempt: times.len() as u32 }
        } else {
            PanicVerdict::Stop
        },
{
    lemma_counts_after_panics(SupervisionStrategy::Restart { max_retries }, times.drop_last());
}

/// The cell's breaker is open and the cell is held until `until_ms`.
pub open spec fn held_open(c: CellView, until_ms: u64) -> bool {
    &&& c.circuit.state == CBState::Open
    &&& c.state is CircuitOpen
    &&& c.state->until_ms == until_ms
}

/// A cell under `CircuitBreak { failure_threshold, reset_after_ms }` is
/// restarted on each failure before the threshold, and circuit-broken for
/// `reset_after_ms` from the failure that reaches it; after that failure
/// its breaker is open and the cell is held until then.
pub proof fn law_circuit_break_at_threshold(
    failure_threshold: u32,
    reset_after_ms: u64,
    times: Seq<u64>,
)
    requires
        0 < times.len() <= failure_threshold,
        times.last() + reset_after_ms <= u64::MAX,
    ensures
        last_verdict(
            registered(SupervisionStrategy::CircuitBreak { failure_threshold, reset_after_ms }),
            times,
        ) == if times.len() < failure_threshold {
            PanicVerdict::Restart { attempt: times.len() as u32 }
        } else {
            PanicVerdict::CircuitBreak { until_ms: (times.last() + reset_after_ms) as u64 }
        },
        forall|k: int|
            0 < k < times.len() ==> #[trigger] last_verdict(
                registered(SupervisionStrategy::CircuitBreak { failure_threshold, reset_after_ms }),
                times.take(k),
            ) == (PanicVerdict::Restart { attempt: k as u32 }),
        times.len() == failure_threshold ==> held_open(
            after_panics(
                registered(SupervisionStrategy::CircuitBreak { failure_threshold, reset_after_ms }),
                times,
            ),
            (times.last() + reset_after_ms) as u64,
        ),
{
    let strategy = SupervisionStrategy::CircuitBreak { failure_threshold, reset_after_ms };
    lemma_counts_after_panics(strategy, times.drop_last());
    assert forall|k: int| 0 < k < times.len() implies #[trigger] last_verdict(
        registered(strategy),
        times.take(k),
    ) == (PanicVerdict::Restart { attempt: k as u32 }) by {
        let pre = times.take(k);
        assert(pre.drop_last() =~= times.take(k - 1));
        lemma_counts_after_panics(strategy, pre.drop_last());
    }
}

/// A cell under `Stop` is stopped at its first failure; one under
/// `Escalate` has its first failure escalated.
pub proof fn law_stop_and_escalate(now: u64)
    ensures
        panic_step(registered(SupervisionStrategy::Stop), now).1 == PanicVerdict::Stop,
        panic_step(registered(SupervisionStrategy::Stop), now).0.state == CellState::Stopped,
        panic_step(registered(SupervisionStrategy::Escalate), now).1 == PanicVerdict::Escalate,
{
}

/// A cell under `Escalate` hands every failure up while its breaker stays
/// closed, however many failures came before: the verdict is `Escalate`,
/// the cell keeps its state (it is not stopped), and its restart count
/// goes up by one.
pub proof fn law_escalate_every_failure(c: CellView, now: u64)
    requires
        c.strategy == SupervisionStrategy::Escalate,
        after_failure(c.circuit, now).state != CBState::Open,
    ensures
        panic_step(c, now).1 == PanicVerdict::Escalate,
        panic_step(c, now).0.state == c.state,
        c.restart_count < u64::MAX ==> panic_step(c, now).0.restart_count == c.restart_count + 1,
{
}

/// Over a run of failures of a cell registered under `Escalate`, fewer
/// than its breaker's threshold, every failure is escalated and the cell
/// is never stopped.
pub proof fn law_escalate_run(times: Seq<u64>)
    requires
        0 < times.len() < 10,
    ensures
        last_verdict(registered(SupervisionStrategy::Escalate), times) == PanicVerdict::Escalate,
        after_panics(registered(SupervisionStrategy::Escalate), times).state == CellState::Running,
    decreases times.len(),
{
    lemma_counts_after_panics(SupervisionStrategy::Escalate, times.drop_last());
    lemma_counts_after_panics(SupervisionStrategy::Escalate, times);
    if times.len() > 1 {
        law_escalate_run(times.drop_last());
    }
}

/// A handled message closes the cell's breaker and clears its failure
/// count, but keeps its restart count.
pub proof fn law_success_keeps_restart_count(c: CellView)
    ensures
        success_step(c).restart_count == c.restart_count,
        success_step(c).circuit.failure_count == 0,
        success_step(c).circuit.state == CBState::Closed,
        success_step(c).state == CellState::Running,
{
}

/// The pairs are one snapshot per cell of `cells`, as
/// `Supervisor::circuit_snapshots` gives them.
pub open spec fn snapshots_of_cells(
    snaps: Seq<(String, CircuitSnapshot)>,
    cells: Map<Seq<char>, CellView>,
) -> bool {
    &&& forall|i: int, j: int|
        0 <= i < snaps.len() && 0 <= j < snaps.len() && i != j ==> #[trigger] snaps[i].0@
            != #[trigger] snaps[j].0@
    &&& forall|i: int|
        0 <= i < snaps.len() ==> cells.contains_key(#[trigger] snaps[i].0@) && snaps[i].1
            == snapshot_of(cells[snaps[i].0@].circuit)
    &&& forall|k: Seq<char>|
        #[trigger] cells.contains_key(k) ==> exists|i: int| 0 <= i < snaps.len() && #[trigger] snaps[i].0@ == k
}

proof fn lemma_latest_distinct(s: Seq<(String, CircuitSnapshot)>, i: int)
    requires
        0 <= i < s.len(),
        forall|a: int, b: int|
            0 <= a < s.len() && 0 <= b < s.len() && a != b ==> #[trigger] s[a].0@ != #[trigger] s[b].0@,
    ensures
        latest_snapshots(s).contains_key(s[i].0@),
        latest_snapshots(s)[s[i].0@] == s[i].1,
    decreases s.len(),
{
    if i < s.len() - 1 {
        let t = s.drop_last();
        assert(t[i] == s[i]);
        assert forall|a: int, b: int|
            0 <= a < t.len() && 0 <= b < t.len() && a != b implies #[trigger] t[a].0@ != #[trigger] t[b].0@ by {
            assert(t[a] == s[a] && t[b] == s[b]);
        }
        lemma_latest_distinct(t, i);
    }
}

/// Crash recovery: restoring a supervisor's breaker snapshots into a fresh
/// supervisor gives every cell back its breaker's failure count, threshold,
/// reset window and whether it was open; an open breaker keeps the cell
/// circuit-broken.
pub proof fn law_circuits_survive_restart(
    cells: Map<Seq<char>, CellView>,
    snaps: Seq<(String, CircuitSnapshot)>,
    now: u64,
)
    requires
        snapshots_of_cells(snaps, cells),
    ensures
        forall|k: Seq<char>| #[trigger] cells.contains_key(k) ==> {
            let r = restore_cells(Map::empty(), latest_snapshots(snaps), now);
            &&& r.contains_key(k)
            &&& r[k].circuit.failure_count == cells[k].circuit.failure_count
            &&& r[k].circuit.failure_threshold == cells[k].circuit.failure_threshold
            &&& r[k].circuit.reset_after_ms == cells[k].circuit.reset_after_ms
            &&& (r[k].circuit.state == CBState::Open) == (cells[k].circuit.state == CBState::Open)
            &&& cells[k].circuit.state == CBState::Open ==> r[k].state is CircuitOpen
        },
{
    assert forall|k: Seq<char>| #[trigger] cells.contains_key(k) implies {
        let r = restore_cells(Map::empty(), latest_snapshots(snaps), now);
        &&& r.contains_key(k)
        &&& r[k].circuit.failure_count == cells[k].circuit.failure_count
        &&& r[k].circuit.failure_threshold == cells[k].circuit.failure_threshold
        &&& r[k].circuit.reset_after_ms == cells[k].circuit.reset_after_ms
        &&& (r[k].circuit.state == CBState::Open) == (cells[k].circuit.state == CBState::Open)
        &&& cells[k].circuit.state == CBState::Open ==> r[k].state is CircuitOpen
    } by {
        let i = choose|i: int| 0 <= i < snaps.len() && #[trigger] snaps[i].0@ == k;
        lemma_latest_distinct(snaps, i);
    }
}

} // verus!
