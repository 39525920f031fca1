//! The built-in interceptors: hop limit, duplicate suppression, schema
//! version, loop detection, capability version and guard.

use crate::runtime::bus::{BusInterceptor, DecisionView, InterceptDecision};
use crate::runtime::constraint_validator::ConstraintValidator;
use crate::runtime::loop_detector::{check_outcome, visited_cell, LoopDetector, LruView};
use crate::signal::{EnvelopeView, SignalEnvelope};
use crate::strmap::StrMap;
use crate::text::{decimal, owned, u64_to_decimal};
use vstd::prelude::*;

verus! {

/// The most hops a message may make by default.
pub const MAX_HOPS: u32 = 8;

/// Remembered message ids are forgotten all at once when this many have
/// accumulated.
pub const IDEMPOTENCY_CLEANUP_THRESHOLD: usize = 10_000;

/// Rejects envelopes that have made `max_hops` hops or more.
pub struct HopLimitInterceptor {
    max_hops: u32,
}

pub open spec fn hop_decision(max_hops: u32, env: EnvelopeView) -> DecisionView {
    if env.hop_count >= max_hops {
        DecisionView::Reject {
            reason: "hop limit "@ + decimal(max_hops as nat) + " exceeded (current hops: "@ + decimal(
                env.hop_count as nat,
            ) + ")"@,
        }
    } else {
        DecisionView::Allow
    }
}

impl HopLimitInterceptor {
    pub closed spec fn max_hops(&self) -> u32 {
        self.max_hops
    }

    pub fn new(max_hops: u32) -> (i: Self)
        ensures
            i.max_hops() == max_hops,
    {
        HopLimitInterceptor { max_hops }
    }
}

impl Default for HopLimitInterceptor {
    fn default() -> (i: Self)
        ensures
            i.max_hops() == MAX_HOPS,
    {
        HopLimitInterceptor { max_hops: MAX_HOPS }
    }
}

impl BusInterceptor for HopLimitInterceptor {
    fn name(&self) -> (s: &'static str)
        ensures
            s@ == "hop-limit"@,
    {
        "hop-limit"
    }

    fn intercept(&mut self, env: &SignalEnvelope) -> (d: InterceptDecision)
        ensures
            d@ == hop_decision(old(self).max_hops(), env@),
            final(self).max_hops() == old(self).max_hops(),
    {
        if env.hop_count >= self.max_hops {
            proof {
                reveal_strlit("hop limit ");
                reveal_strlit(" exceeded (current hops: ");
                reveal_strlit(")");
            }
            let mut reason = owned("hop limit ");
            reason.append(u64_to_decimal(self.max_hops as u64).as_str());
            reason.append(" exceeded (current hops: ");
            reason.append(u64_to_decimal(env.hop_count as u64).as_str());
            reason.append(")");
            return InterceptDecision::Reject { reason };
        }
        InterceptDecision::Allow
    }
}

/// Rejects a message id that it has already let through.
pub struct IdempotencyInterceptor {
    seen: StrMap<()>,
}

/// The remembered ids after letting `id` through.
pub open spec fn remember(seen: Set<Seq<char>>, id: Seq<char>) -> Set<Seq<char>> {
    if seen.len() >= IDEMPOTENCY_CLEANUP_THRESHOLD {
        set![id]
    } else {
        seen.insert(id)
    }
}

impl IdempotencyInterceptor {
    /// The message ids remembered.
    pub closed spec fn seen(&self) -> Set<Seq<char>> {
        self.seen@.dom()
    }

    pub fn new() -> (i: Self)
        ensures
            i.seen() == Set::<Seq<char>>::empty(),
    {
        let i = IdempotencyInterceptor { seen: StrMap::new() };
        assert(i.seen() =~= Set::<Seq<char>>::empty());
        i
    }
}

impl Default for IdempotencyInterceptor {
    fn default() -> (i: Self)
        ensures
            i.seen() == Set::<Seq<char>>::empty(),
    {
        IdempotencyInterceptor::new()
    }
}

impl BusInterceptor for IdempotencyInterceptor {
    fn name(&self) -> (s: &'static str)
        ensures
            s@ == "idempotency"@,
    {
        "idempotency"
    }

    fn intercept(&mut self, env: &SignalEnvelope) -> (d: InterceptDecision)
        ensures
            old(self).seen().contains(env.msg_id@) ==> d@ == (DecisionView::Reject {
                reason: "duplicate message id: "@ + env.msg_id@,
            }) && final(self).seen() == old(self).seen(),
            !old(self).seen().contains(env.msg_id@) ==> d@ == DecisionView::Allow
                && final(self).seen() == remember(old(self).seen(), env.msg_id@),
            final(self).seen().finite(),
    {
        let id = env.msg_id.as_str();
        let n = self.seen.len();
        if self.seen.contains_key(id) {
            proof {
                reveal_strlit("duplicate message id: ");
            }
            let mut reason = owned("duplicate message id: ");
            reason.append(id);
            return InterceptDecision::Reject { reason };
        }
        if n >= IDEMPOTENCY_CLEANUP_THRESHOLD {
            self.seen = StrMap::new();
        }
        self.seen.insert(owned(id), ());
        proof {
            if n >= IDEMPOTENCY_CLEANUP_THRESHOLD {
                assert(self.seen() =~= set![env.msg_id@]);
            } else {
                assert(self.seen() =~= old(self).seen().insert(env.msg_id@));
            }
        }
        let _ = self.seen.len();
        InterceptDecision::Allow
    }
}

/// A message id let through is refused if it comes again right after.
pub proof fn law_duplicate_rejected(seen: Set<Seq<char>>, id: Seq<char>)
    ensures
        remember(seen, id).contains(id),
{
}

/// Rejects envelopes whose schema version is 0.
pub struct SchemaVersionInterceptor;

pub open spec fn schema_decision(env: EnvelopeView) -> DecisionView {
    if env.schema_version == 0 {
        DecisionView::Reject { reason: "schema version 0 is invalid"@ }
    } else {
        DecisionView::Allow
    }
}

impl BusInterceptor for SchemaVersionInterceptor {
    fn name(&self) -> (s: &'static str)
        ensures
            s@ == "schema-version"@,
    {
        "schema-version"
    }

    fn intercept(&mut self, env: &SignalEnvelope) -> (d: InterceptDecision)
        ensures
            d@ == schema_decision(env@),
    {
        if env.schema_version.0 == 0 {
            proof {
                reveal_strlit("schema version 0 is invalid");
            }
            return InterceptDecision::Reject { reason: owned("schema version 0 is invalid") };
        }
        InterceptDecision::Allow
    }
}

/// Runs a loop detector on every envelope.
pub struct LoopDetectInterceptor {
    detector: LoopDetector,
}

impl LoopDetectInterceptor {
    pub closed spec fn paths(&self) -> LruView {
        self.detector.paths()
    }

    pub closed spec fn max_cells(&self) -> nat {
        self.detector.max_cells()
    }
}

impl Default for LoopDetectInterceptor {
    /// Sixteen cells per correlation, 1024 correlations.
    fn default() -> (i: Self)
        ensures
            i.paths().order == Seq::<Seq<char>>::empty(),
            i.paths().tracks == Map::<Seq<char>, Set<Seq<char>>>::empty(),
            i.paths().max_tracked == 1024,
            i.max_cells() == 16,
    {
        LoopDetectInterceptor { detector: LoopDetector::new(16, 1024) }
    }
}

impl BusInterceptor for LoopDetectInterceptor {
    fn name(&self) -> (s: &'static str)
        ensures
            s@ == "loop-detect"@,
    {
        "loop-detect"
    }

    fn intercept(&mut self, env: &SignalEnvelope) -> (d: InterceptDecision)
        ensures
            ({
                let (after, outcome) = check_outcome(
                    old(self).paths(),
                    old(self).max_cells(),
                    env.correlation_id@,
                    visited_cell(env@),
                );
                &&& final(self).paths() == after
                &&& final(self).max_cells() == old(self).max_cells()
                &&& match outcome {
                    Ok(()) => d@ == DecisionView::Allow,
                    Err(m) => d@ == (DecisionView::Reject { reason: m }),
                }
            }),
    {
        match self.detector.check_and_record(env) {
            Ok(()) => InterceptDecision::Allow,
            Err(reason) => InterceptDecision::Reject { reason },
        }
    }
}

/// Checks capability versions against the registered capabilities.
///
/// This library keeps no capability registry, so every dimension has no
/// registered capability and every envelope passes.
pub struct CapabilityVersionInterceptor;

impl CapabilityVersionInterceptor {
    pub fn new(_inner: ConstraintValidator) -> (i: Self) {
        CapabilityVersionInterceptor
    }
}

impl BusInterceptor for CapabilityVersionInterceptor {
    fn name(&self) -> (s: &'static str)
        ensures
            s@ == "capability-version"@,
    {
        "capability-version"
    }

    fn intercept(&mut self, env: &SignalEnvelope) -> (d: InterceptDecision)
        ensures
            d@ == DecisionView::Allow,
    {
        InterceptDecision::Allow
    }
}

/// The signal type that the guard always refuses.
pub open spec fn forbidden_signal() -> Seq<char> {
    "ForbiddenSignal"@
}

/// Refuses forbidden signals.
pub struct GuardInterceptor;

impl GuardInterceptor {
    pub fn new() -> (i: Self) {
        GuardInterceptor
    }
}

impl Default for GuardInterceptor {
    fn default() -> (i: Self) {
        GuardInterceptor
    }
}

pub open spec fn guard_decision(env: EnvelopeView) -> DecisionView {
    if env.signal_type == forbidden_signal() {
        DecisionView::Reject { reason: "guard blocked signal: "@ + env.signal_type }
    } else {
        DecisionView::Allow
    }
}

impl BusInterceptor for GuardInterceptor {
    fn name(&self) -> (s: &'static str)
        ensures
            s@ == "guard"@,
    {
        "guard"
    }

    fn intercept(&mut self, env: &SignalEnvelope) -> (d: InterceptDecision)
        ensures
            d@ == guard_decision(env@),
    {
        proof {
            reveal_strlit("ForbiddenSignal");
            reveal_strlit("guard blocked signal: ");
        }
        if crate::text::str_equal(env.signal_type.as_str(), "ForbiddenSignal") {
            let mut reason = owned("guard blocked signal: ");
            reason.append(env.signal_type.as_str());
            return InterceptDecision::Reject { reason };
        }
        InterceptDecision::Allow
    }
}

} // verus!
