//! The architecture guardian: the first interceptor in the chain, which
//! checks the layer rule, the hop limit and the schema version of every
//! envelope and counts each kind of violation.

use crate::runtime::bus::{BusInterceptor, DecisionView, InterceptDecision};
use crate::signal::{layer_debug_name, may_send, EnvelopeView, SchemaVersion, SignalEnvelope, CURRENT_SCHEMA_VERSION};
use crate::text::{decimal, owned, u64_to_decimal};
use vstd::prelude::*;

verus! {

/// The most hops an envelope may have made.
pub const GUARDIAN_HOP_LIMIT: u32 = 8;

/// `x + 1`, wrapping to 0 past the largest `u64`.
pub open spec fn wrapping_inc(x: u64) -> u64 {
    if x == u64::MAX {
        0
    } else {
        (x + 1) as u64
    }
}

pub fn wrapping_inc_exec(x: u64) -> (r: u64)
    ensures
        r == wrapping_inc(x),
{
    x.wrapping_add(1)
}

/// What the guardian decides about `env`.
pub open spec fn guardian_decision(env: EnvelopeView) -> DecisionView {
    if !may_send(env.source_layer, env.target_layer) {
        DecisionView::Reject {
            reason: "illegal layer transition "@ + layer_debug_name(env.source_layer) + "→"@
                + layer_debug_name(env.target_layer),
        }
    } else if env.hop_count > GUARDIAN_HOP_LIMIT {
        DecisionView::Reject {
            reason: "hop count "@ + decimal(env.hop_count as nat) + " exceeds limit 8"@,
        }
    } else if env.schema_version > CURRENT_SCHEMA_VERSION {
        DecisionView::Reject {
            reason: "schema version too new: envelope "@ + decimal(env.schema_version as nat)
                + " cannot be read by system 1"@,
        }
    } else {
        DecisionView::Allow
    }
}

/// Which check `env` fails first: 1 for the layer rule, 2 for the hop
/// limit, 3 for the schema version, 0 for none.
pub open spec fn violation_kind(env: EnvelopeView) -> nat {
    if !may_send(env.source_layer, env.target_layer) {
        1
    } else if env.hop_count > GUARDIAN_HOP_LIMIT {
        2
    } else if env.schema_version > CURRENT_SCHEMA_VERSION {
        3
    } else {
        0
    }
}

/// The guardian's counters (layer, hop, schema) after checking `env`:
/// the counter of the check it fails first goes up by one.
pub open spec fn guardian_step(stats: (u64, u64, u64), env: EnvelopeView) -> (u64, u64, u64) {
    let (l, h, s) = stats;
    if violation_kind(env) == 1 {
        (wrapping_inc(l), h, s)
    } else if violation_kind(env) == 2 {
        (l, wrapping_inc(h), s)
    } else if violation_kind(env) == 3 {
        (l, h, wrapping_inc(s))
    } else {
        (l, h, s)
    }
}

/// The counters of a new guardian after checking `envs` in order.
pub open spec fn guardian_run(envs: Seq<EnvelopeView>) -> (u64, u64, u64)
    decreases envs.len(),
{
    if envs.len() == 0 {
        (0, 0, 0)
    } else {
        guardian_step(guardian_run(envs.drop_last()), envs.last())
    }
}

/// How many of `envs` fail check `kind` first.
pub open spec fn count_kind(envs: Seq<EnvelopeView>, kind: nat) -> nat
    decreases envs.len(),
{
    if envs.len() == 0 {
        0
    } else {
        count_kind(envs.drop_last(), kind) + if violation_kind(envs.last()) == kind {
            1nat
        } else {
            0nat
        }
    }
}

/// How many of `envs` the guardian rejects.
pub open spec fn count_rejected(envs: Seq<EnvelopeView>) -> nat
    decreases envs.len(),
{
    if envs.len() == 0 {
        0
    } else {
        count_rejected(envs.drop_last()) + if guardian_decision(envs.last()) is Allow {
            0nat
        } else {
            1nat
        }
    }
}

/// Violation counts of the guardian.
#[derive(Debug, Clone)]
pub struct GuardianStats {
    pub layer_violations: u64,
    pub hop_violations: u64,
    pub schema_violations: u64,
}

pub struct ArchitectureGuardian {
    layer_violations: u64,
    hop_violations: u64,
    schema_violations: u64,
}

impl ArchitectureGuardian {
    pub closed spec fn spec_stats(&self) -> (u64, u64, u64) {
        (self.layer_violations, self.hop_violations, self.schema_violations)
    }

    pub fn new() -> (g: Self)
        ensures
            g.spec_stats() == (0u64, 0u64, 0u64),
    {
        ArchitectureGuardian { layer_violations: 0, hop_violations: 0, schema_violations: 0 }
    }

    pub fn stats(&self) -> (s: GuardianStats)
        ensures
            (s.layer_violations, s.hop_violations, s.schema_violations) == self.spec_stats(),
    {
        GuardianStats {
            layer_violations: self.layer_violations,
            hop_violations: self.hop_violations,
            schema_violations: self.schema_violations,
        }
    }
}

impl Default for ArchitectureGuardian {
    fn default() -> (g: Self)
        ensures
            g.spec_stats() == (0u64, 0u64, 0u64),
    {
        ArchitectureGuardian::new()
    }
}

impl BusInterceptor for ArchitectureGuardian {
    fn name(&self) -> (s: &'static str)
        ensures
            s@ == "architecture-guardian"@,
    {
        "architecture-guardian"
    }

    /// The first failed check decides; its counter goes up by one.
    fn intercept(&mut self, env: &SignalEnvelope) -> (d: InterceptDecision)
        ensures
            d@ == guardian_decision(env@),
            final(self).spec_stats() == guardian_step(old(self).spec_stats(), env@),
    {
        if !env.source_layer.can_send_to(env.target_layer) {
            self.layer_violations = wrapping_inc_exec(self.layer_violations);
            proof {
                reveal_strlit("illegal layer transition ");
                reveal_strlit("→");
            }
            let mut reason = owned("illegal layer transition ");
            reason.append(env.source_layer.debug_name());
            reason.append("→");
            reason.append(env.target_layer.debug_name());
            return InterceptDecision::Reject { reason };
        }
        if env.hop_count > GUARDIAN_HOP_LIMIT {
            self.hop_violations = wrapping_inc_exec(self.hop_violations);
            proof {
                reveal_strlit("hop count ");
                reveal_strlit(" exceeds limit 8");
            }
            let mut reason = owned("hop count ");
            reason.append(u64_to_decimal(env.hop_count as u64).as_str());
            reason.append(" exceeds limit 8");
            return InterceptDecision::Reject { reason };
        }
        let current = SchemaVersion::new(CURRENT_SCHEMA_VERSION);
        if !current.can_read(env.schema_version) {
            self.schema_violations = wrapping_inc_exec(self.schema_violations);
            proof {
                reveal_strlit("schema version too new: envelope ");
                reveal_strlit(" cannot be read by system 1");
            }
            let mut reason = owned("schema version too new: envelope ");
            reason.append(u64_to_decimal(env.schema_version.0 as u64).as_str());
            reason.append(" cannot be read by system 1");
            return InterceptDecision::Reject { reason };
        }
        InterceptDecision::Allow
    }
}

/// The guardian lets an envelope through exactly when it keeps the layer
/// rule, has made at most eight hops, and its schema is not newer than the
/// system's.
pub proof fn law_guardian_allows_iff_valid(env: EnvelopeView)
    ensures
        guardian_decision(env) is Allow <==> may_send(env.source_layer, env.target_layer)
            && env.hop_count <= GUARDIAN_HOP_LIMIT && env.schema_version <= CURRENT_SCHEMA_VERSION,
{
}

/// Over any run of checks by a new guardian (of fewer than 2^64
/// envelopes, so no counter wraps), each counter holds the number of
/// envelopes that failed its check first, and together they count exactly
/// the rejected envelopes.
pub proof fn law_guardian_counts_rejections(envs: Seq<EnvelopeView>)
    requires
        envs.len() <= u64::MAX,
    ensures
        guardian_run(envs).0 == count_kind(envs, 1),
        guardian_run(envs).1 == count_kind(envs, 2),
        guardian_run(envs).2 == count_kind(envs, 3),
        guardian_run(envs).0 + guardian_run(envs).1 + guardian_run(envs).2 == count_rejected(envs),
    decreases envs.len(),
{
    if envs.len() > 0 {
        let pre = envs.drop_last();
        law_guardian_counts_rejections(pre);
        lemma_counts_bounded(pre);
    }
}

proof fn lemma_counts_bounded(envs: Seq<EnvelopeView>)
    ensures
        count_kind(envs, 1) + count_kind(envs, 2) + count_kind(envs, 3) <= envs.len(),
    decreases envs.len(),
{
    if envs.len() > 0 {
        lemma_counts_bounded(envs.drop_last());
    }
}

} // verus!
