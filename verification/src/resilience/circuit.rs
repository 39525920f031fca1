//! Circuit breaker around a port: after enough consecutive failures it
//! opens and short-circuits calls until a reset delay has passed.

use crate::isa::{IsaError, IsaErrorView, Port};
use crate::resilience::decorate::{decorate, decorated_name, lemma_decorated_name_of, saturating_inc};
use crate::text::owned;
use vstd::prelude::*;

verus! {

#[derive(Debug, Clone, Copy, PartialEq, Eq, Structural)]
pub enum CircuitState {
    Closed,
    Open,
    HalfOpen,
}

pub struct CircuitConfig {
    pub failure_threshold: u32,
    pub reset_after_ms: u64,
}

impl Clone for CircuitConfig {
    fn clone(&self) -> (c: Self)
        ensures
            c.failure_threshold == self.failure_threshold,
            c.reset_after_ms == self.reset_after_ms,
    {
        CircuitConfig { failure_threshold: self.failure_threshold, reset_after_ms: self.reset_after_ms }
    }
}

impl Default for CircuitConfig {
    fn default() -> (c: Self)
        ensures
            c.failure_threshold == 3,
            c.reset_after_ms == 1_000,
    {
        CircuitConfig { failure_threshold: 3, reset_after_ms: 1_000 }
    }
}

/// A circuit breaker's state as plain values.
pub struct CircuitView {
    pub name: Seq<char>,
    pub failure_threshold: u32,
    pub reset_after_ms: u64,
    pub state: CircuitState,
    pub consecutive_failures: u32,
    pub opened_at_ns: Option<u64>,
    pub rejected_while_open: u32,
}

/// Whole milliseconds from `opened` to `now` (none when `now` is earlier).
pub open spec fn elapsed_ms(now: u64, opened: u64) -> int {
    if now >= opened {
        (now - opened) / 1_000_000
    } else {
        0
    }
}

/// The state a call at `now` starts from: an open circuit whose reset
/// delay has passed is half-open.
pub open spec fn state_at(v: CircuitView, now: u64) -> CircuitState {
    if v.state == CircuitState::Open && v.opened_at_ns is Some && elapsed_ms(now, v.opened_at_ns->0)
        >= v.reset_after_ms {
        CircuitState::HalfOpen
    } else {
        v.state
    }
}

/// The breaker after the wrapped port failed a call made at `now`.
pub open spec fn after_port_failure(v: CircuitView, now: u64) -> CircuitView {
    let s = state_at(v, now);
    let failures = saturating_inc(v.consecutive_failures);
    if failures >= v.failure_threshold || s == CircuitState::HalfOpen {
        CircuitView {
            consecutive_failures: failures,
            state: CircuitState::Open,
            opened_at_ns: Some(now),
            ..v
        }
    } else {
        CircuitView { consecutive_failures: failures, state: s, ..v }
    }
}

/// The breaker after the wrapped port succeeded.
pub open spec fn after_port_success(v: CircuitView) -> CircuitView {
    CircuitView {
        consecutive_failures: 0,
        state: CircuitState::Closed,
        opened_at_ns: None,
        ..v
    }
}

/// One call at `now` took the breaker from `before` to `after` with
/// result `r`, the name aside.
pub open spec fn circuit_call<Out>(
    before: CircuitView,
    after: CircuitView,
    now: u64,
    r: Result<Out, IsaError>,
) -> bool {
    let named = CircuitView { name: after.name, ..before };
    if state_at(before, now) == CircuitState::Open {
        &&& r matches Err(e) && e@ == (IsaErrorView::CircuitOpen { name: after.name })
        &&& after == CircuitView {
            rejected_while_open: saturating_inc(before.rejected_while_open),
            ..named
        }
    } else {
        match r {
            Ok(_) => after == after_port_success(named),
            Err(_) => after == after_port_failure(named, now),
        }
    }
}

/// Circuit breaker around a port.
pub struct CircuitBreaker<P> {
    name: String,
    inner: P,
    config: CircuitConfig,
    state: CircuitState,
    consecutive_failures: u32,
    opened_at_ns: Option<u64>,
    /// How many calls were short-circuited while open.
    pub rejected_while_open: u32,
}

impl<P> View for CircuitBreaker<P> {
    type V = CircuitView;

    closed spec fn view(&self) -> CircuitView {
        CircuitView {
            name: self.name@,
            failure_threshold: self.config.failure_threshold,
            reset_after_ms: self.config.reset_after_ms,
            state: self.state,
            consecutive_failures: self.consecutive_failures,
            opened_at_ns: self.opened_at_ns,
            rejected_while_open: self.rejected_while_open,
        }
    }
}

impl<P> CircuitBreaker<P> {
    /// The wrapped port.
    pub closed spec fn spec_inner(&self) -> P {
        self.inner
    }

    pub fn new(inner: P, config: CircuitConfig) -> (c: Self)
        ensures
            c@ == (CircuitView {
                name: "circuit"@,
                failure_threshold: config.failure_threshold,
                reset_after_ms: config.reset_after_ms,
                state: CircuitState::Closed,
                consecutive_failures: 0,
                opened_at_ns: None,
                rejected_while_open: 0,
            }),
            c.spec_inner() == inner,
    {
        CircuitBreaker {
            name: owned("circuit"),
            inner,
            config,
            state: CircuitState::Closed,
            consecutive_failures: 0,
            opened_at_ns: None,
            rejected_while_open: 0,
        }
    }

    /// A breaker with the default thresholds.
    pub fn wrap(inner: P) -> (c: Self)
        ensures
            c@ == (CircuitView {
                name: "circuit"@,
                failure_threshold: 3,
                reset_after_ms: 1_000,
                state: CircuitState::Closed,
                consecutive_failures: 0,
                opened_at_ns: None,
                rejected_while_open: 0,
            }),
            c.spec_inner() == inner,
    {
        Self::new(inner, CircuitConfig::default())
    }

    pub fn state(&self) -> (s: CircuitState)
        ensures
            s == self@.state,
    {
        self.state
    }

    pub fn into_inner(self) -> (p: P)
        ensures
            p == self.spec_inner(),
    {
        self.inner
    }

    pub fn inner_mut(&mut self) -> (p: &mut P)
        ensures
            *p == old(self).spec_inner(),
            final(self).spec_inner() == *final(p),
            final(self)@ == old(self)@,
    {
        &mut self.inner
    }

    /// Opens the circuit as of `now_ns`.
    pub fn force_open_at(&mut self, now_ns: u64)
        ensures
            final(self)@ == (CircuitView {
                state: CircuitState::Open,
                opened_at_ns: Some(now_ns),
                ..old(self)@
            }),
            final(self).spec_inner() == old(self).spec_inner(),
    {
        self.state = CircuitState::Open;
        self.opened_at_ns = Some(now_ns);
    }

    /// Opens the circuit as of the current time.
    pub fn force_open(&mut self)
        ensures
            final(self)@.state == CircuitState::Open,
            final(self)@.opened_at_ns is Some,
            final(self)@ == (CircuitView {
                opened_at_ns: final(self)@.opened_at_ns,
                state: CircuitState::Open,
                ..old(self)@
            }),
            final(self).spec_inner() == old(self).spec_inner(),
    {
        let now = crate::clock::unix_time_ns();
        self.force_open_at(now);
    }

    /// Closes the circuit and forgets past failures.
    pub fn reset(&mut self)
        ensures
            final(self)@ == (CircuitView {
                state: CircuitState::Closed,
                consecutive_failures: 0,
                opened_at_ns: None,
                ..old(self)@
            }),
            final(self).spec_inner() == old(self).spec_inner(),
    {
        self.state = CircuitState::Closed;
        self.consecutive_failures = 0;
        self.opened_at_ns = None;
    }

    fn maybe_half_open(&mut self, now_ns: u64)
        ensures
            final(self)@ == (CircuitView { state: state_at(old(self)@, now_ns), ..old(self)@ }),
            final(self).spec_inner() == old(self).spec_inner(),
    {
        if self.state != CircuitState::Open {
            return;
        }
        let opened = match self.opened_at_ns {
            Some(t) => t,
            None => return,
        };
        let elapsed_ms = now_ns.saturating_sub(opened) / 1_000_000;
        if elapsed_ms >= self.config.reset_after_ms {
            self.state = CircuitState::HalfOpen;
        }
    }

    /// One call through the breaker with the clock reading `now_ns`.
    pub fn call_at<In, Out>(&mut self, input: In, now_ns: u64) -> (r: Result<Out, IsaError>) where
        P: Port<In, Out>,
        ensures
            decorated_name(final(self)@.name, "circuit"@),
            circuit_call(old(self)@, final(self)@, now_ns, r),
            state_at(old(self)@, now_ns) == CircuitState::Open ==> final(self).spec_inner() == old(
                self,
            ).spec_inner(),
    {
        let full_name = decorate("circuit", self.inner.name());
        proof {
            reveal_strlit("circuit");
            lemma_decorated_name_of(full_name@, "circuit"@);
        }
        self.name = full_name;
        self.maybe_half_open(now_ns);
        if self.state == CircuitState::Open {
            self.rejected_while_open = self.rejected_while_open.saturating_add(1);
            return Err(IsaError::CircuitOpen { name: self.name.clone() });
        }
        let res = self.inner.call(input);
        self.settle(res, now_ns)
    }

    /// Takes in what the wrapped port returned for a call made at `now_ns`
    /// and hands it on unchanged: a success closes the circuit and clears
    /// the failures; a failure is counted and opens the circuit at the
    /// threshold, or at once when the call was a half-open probe.
    pub fn settle<Out>(&mut self, res: Result<Out, IsaError>, now_ns: u64) -> (r: Result<Out, IsaError>)
        ensures
            r == res,
            final(self)@ == (match res {
                Ok(_) => after_port_success(old(self)@),
                Err(_) => after_port_failure(old(self)@, now_ns),
            }),
            final(self).spec_inner() == old(self).spec_inner(),
    {
        self.maybe_half_open(now_ns);
        match res {
            Ok(out) => {
                self.consecutive_failures = 0;
                self.state = CircuitState::Closed;
                self.opened_at_ns = None;
                Ok(out)
            },
            Err(e) => {
                self.consecutive_failures = self.consecutive_failures.saturating_add(1);
                if self.consecutive_failures >= self.config.failure_threshold || self.state
                    == CircuitState::HalfOpen {
                    self.state = CircuitState::Open;
                    self.opened_at_ns = Some(now_ns);
                }
                Err(e)
            },
        }
    }
}

/// The breaker went through one call at some clock reading.
pub open spec fn circuit_call_at_some_time<Out>(
    before: CircuitView,
    after: CircuitView,
    r: Result<Out, IsaError>,
) -> bool {
    exists|now: u64| #[trigger] circuit_call(before, after, now, r)
}

impl<P: Port<In, Out>, In, Out> Port<In, Out> for CircuitBreaker<P> {
    fn name(&self) -> (n: &str)
        ensures
            n@ == self@.name,
    {
        self.name.as_str()
    }

    /// Reads the clock once and makes the call at that reading.
    fn call(&mut self, input: In) -> (r: Result<Out, IsaError>)
        ensures
            decorated_name(final(self)@.name, "circuit"@),
            circuit_call_at_some_time(old(self)@, final(self)@, r),
    {
        let now = crate::clock::unix_time_ns();
        self.call_at(input, now)
    }
}

/// The breaker after `k` consecutive calls at `now` that reached the port
/// and failed there.
pub open spec fn after_failed_calls(v: CircuitView, now: u64, k: nat) -> CircuitView
    decreases k,
{
    if k == 0 {
        v
    } else {
        after_port_failure(after_failed_calls(v, now, (k - 1) as nat), now)
    }
}

/// A closed breaker with no failures stays closed through its first
/// `failure_threshold - 1` failed calls, counting each, and opens at the
/// next one.
pub proof fn law_opens_after_threshold(v: CircuitView, now: u64, k: nat)
    requires
        v.state == CircuitState::Closed,
        v.consecutive_failures == 0,
        1 <= k <= v.failure_threshold,
    ensures
        after_failed_calls(v, now, k).failure_threshold == v.failure_threshold,
        after_failed_calls(v, now, k).consecutive_failures == k,
        k < v.failure_threshold ==> after_failed_calls(v, now, k).state == CircuitState::Closed,
        k == v.failure_threshold ==> after_failed_calls(v, now, k).state == CircuitState::Open
            && after_failed_calls(v, now, k).opened_at_ns == Some(now),
    decreases k,
{
    let prev = after_failed_calls(v, now, (k - 1) as nat);
    if k > 1 {
        law_opens_after_threshold(v, now, (k - 1) as nat);
    } else {
        assert(prev == v);
    }
    assert(after_failed_calls(v, now, k) == after_port_failure(prev, now));
}

/// While the reset delay has not passed, an open breaker refuses every
/// call with a circuit-open error, counts it, and stays open.
pub proof fn law_open_rejects_until_reset<Out>(
    before: CircuitView,
    after: CircuitView,
    now: u64,
    r: Result<Out, IsaError>,
)
    requires
        before.state == CircuitState::Open,
        before.opened_at_ns is Some,
        elapsed_ms(now, before.opened_at_ns->0) < before.reset_after_ms,
        circuit_call(before, after, now, r),
    ensures
        r matches Err(e) && e@ is CircuitOpen,
        after.state == CircuitState::Open,
        after.consecutive_failures == before.consecutive_failures,
        after.opened_at_ns == before.opened_at_ns,
        after.rejected_while_open == saturating_inc(before.rejected_while_open),
{
}

/// Once the reset delay has passed, one trial call goes through: success
/// closes the breaker, failure opens it again as of that call.
pub proof fn law_trial_after_reset<Out>(
    before: CircuitView,
    after: CircuitView,
    now: u64,
    r: Result<Out, IsaError>,
)
    requires
        before.state == CircuitState::Open,
        before.opened_at_ns is Some,
        elapsed_ms(now, before.opened_at_ns->0) >= before.reset_after_ms,
        circuit_call(before, after, now, r),
    ensures
        r is Ok ==> after.state == CircuitState::Closed && after.consecutive_failures == 0,
        r is Err ==> after.state == CircuitState::Open && after.opened_at_ns == Some(now),
        after.rejected_while_open == before.rejected_while_open,
{
}

/// A success through a closed or half-open breaker clears its failures.
pub proof fn law_success_closes<Out>(
    before: CircuitView,
    after: CircuitView,
    now: u64,
    r: Result<Out, IsaError>,
)
    requires
        circuit_call(before, after, now, r),
        r is Ok,
    ensures
        after.state == CircuitState::Closed,
        after.consecutive_failures == 0,
        after.opened_at_ns is None,
{
}

} // verus!
