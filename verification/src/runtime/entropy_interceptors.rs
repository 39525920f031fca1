//! Enforcement of entropy governance: the emergency switch, which lets only
//! oversight messages through, and the per-cell counters of throttling.

use crate::runtime::bus::{BusInterceptor, DecisionView, InterceptDecision};
use crate::signal::{EnvelopeView, Layer, SignalEnvelope};
use crate::strmap::StrMap;
use crate::text::owned;
use vstd::prelude::*;

verus! {

pub open spec fn emergency_decision(enabled: bool, env: EnvelopeView) -> DecisionView {
    if !enabled || env.source_layer == Layer::Oversight {
        DecisionView::Allow
    } else {
        DecisionView::Reject { reason: "emergency mode active — only oversight messages accepted"@ }
    }
}

/// While enabled, refuses every message that does not come from oversight.
pub struct EmergencyInterceptor {
    enabled: bool,
}

impl EmergencyInterceptor {
    pub closed spec fn spec_enabled(&self) -> bool {
        self.enabled
    }

    pub fn new(enabled: bool) -> (i: Self)
        ensures
            i.spec_enabled() == enabled,
    {
        EmergencyInterceptor { enabled }
    }

    pub fn is_enabled(&self) -> (b: bool)
        ensures
            b == self.spec_enabled(),
    {
        self.enabled
    }

    pub fn set_enabled(&mut self, enabled: bool)
        ensures
            final(self).spec_enabled() == enabled,
    {
        self.enabled = enabled;
    }

    /// Flips the switch and gives its new position.
    pub fn toggle(&mut self) -> (b: bool)
        ensures
            b == !old(self).spec_enabled(),
            final(self).spec_enabled() == b,
    {
        self.enabled = !self.enabled;
        self.enabled
    }
}

impl BusInterceptor for EmergencyInterceptor {
    fn name(&self) -> (s: &'static str)
        ensures
            s@ == "entropy-emergency"@,
    {
        "entropy-emergency"
    }

    fn intercept(&mut self, env: &SignalEnvelope) -> (d: InterceptDecision)
        ensures
            d@ == emergency_decision(old(self).spec_enabled(), env@),
            final(self).spec_enabled() == old(self).spec_enabled(),
    {
        if !self.enabled {
            return InterceptDecision::Allow;
        }
        if env.source_layer == Layer::Oversight {
            return InterceptDecision::Allow;
        }
        proof {
            reveal_strlit("emergency mode active — only oversight messages accepted");
        }
        InterceptDecision::Reject {
            reason: owned("emergency mode active — only oversight messages accepted"),
        }
    }
}

/// One message to a throttled cell: the counter goes up, and the message
/// is refused (and the counter restarts) when it reaches `threshold`.
pub open spec fn throttle_step(counter: u64, threshold: u64) -> (u64, bool) {
    if counter + 1 >= threshold {
        (0u64, true)
    } else {
        ((counter + 1) as u64, false)
    }
}

/// Per-cell message counters of the throttle.
pub struct ThrottleCounters {
    counters: StrMap<u64>,
}

impl ThrottleCounters {
    #[verifier::type_invariant]
    closed spec fn inv(self) -> bool {
        forall|k: Seq<char>| #[trigger] self.counters@.contains_key(k) ==> self.counters@[k] < u64::MAX
    }

    /// The count of each cell since its last refused message.
    pub closed spec fn counts(&self) -> Map<Seq<char>, u64> {
        self.counters@
    }

    pub fn new() -> (t: Self)
        ensures
            t.counts() == Map::<Seq<char>, u64>::empty(),
    {
        ThrottleCounters { counters: StrMap::new() }
    }

    /// Counts one message to `target`, throttled to let through all but
    /// every `threshold`-th; true when this message is refused.
    pub fn count_and_check(&mut self, target: &str, threshold: u64) -> (refused: bool)
        ensures
            ({
                let c = if old(self).counts().contains_key(target@) {
                    old(self).counts()[target@]
                } else {
                    0u64
                };
                let (next, r) = throttle_step(c, threshold);
                &&& refused == r
                &&& final(self).counts() == old(self).counts().insert(target@, next)
            }),
    {
        proof {
            use_type_invariant(&*self);
        }
        let c: u64 = match self.counters.get(target) {
            Some(v) => *v,
            None => 0,
        };
        let next = c + 1;
        let mut counters = StrMap::new();
        std::mem::swap(&mut counters, &mut self.counters);
        if next >= threshold {
            counters.insert(owned(target), 0);
            self.counters = counters;
            true
        } else {
            counters.insert(owned(target), next);
            self.counters = counters;
            false
        }
    }

    /// Forgets every counter.
    pub fn clear_all(&mut self)
        ensures
            final(self).counts() == Map::<Seq<char>, u64>::empty(),
    {
        self.counters = StrMap::new();
    }
}

impl Default for ThrottleCounters {
    fn default() -> (t: Self)
        ensures
            t.counts() == Map::<Seq<char>, u64>::empty(),
    {
        ThrottleCounters::new()
    }
}

/// `k` messages to one cell from a fresh counter: the counter and whether
/// the last one was refused.
pub open spec fn throttle_run(threshold: u64, k: nat) -> (u64, bool)
    decreases k,
{
    if k == 0 {
        (0u64, false)
    } else {
        throttle_step(throttle_run(threshold, (k - 1) as nat).0, threshold)
    }
}

/// Under a threshold `t` of at least one, the first `t - 1` messages to a
/// cell pass and the `t`-th is refused, after which counting starts over.
pub proof fn law_throttle_refuses_every_threshold_th(threshold: u64, k: nat)
    requires
        threshold >= 1,
        1 <= k <= threshold,
    ensures
        k < threshold ==> throttle_run(threshold, k) == ((k as u64), false),
        k == threshold ==> throttle_run(threshold, k) == (0u64, true),
    decreases k,
{
    if k > 1 {
        law_throttle_refuses_every_threshold_th(threshold, (k - 1) as nat);
    } else {
        assert(throttle_run(threshold, 0) == (0u64, false));
    }
    assert(throttle_run(threshold, k) == throttle_step(throttle_run(threshold, (k - 1) as nat).0, threshold));
}

} // verus!
