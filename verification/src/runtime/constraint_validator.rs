//! Shared validation context for the interceptors: which signals are
//! allowed and which layer directions are legal.

use crate::runtime::bus::{DecisionView, InterceptDecision};
use crate::signal::{layer_debug_name, may_send, Layer, SchemaVersion, SignalEnvelope};
use crate::text::{clone_opt, opt_view, owned};
use vstd::prelude::*;

verus! {

/// An axis along which capabilities are versioned.
#[derive(Debug, Clone, Copy, PartialEq, Eq, Hash, Structural)]
pub enum CapabilityDimension {
    Schema,
    Layer,
    Runtime,
}

/// What the validators know about the envelope being checked.
#[derive(Debug, Clone)]
pub struct ValidationContext {
    pub capability_dimensions: Vec<CapabilityDimension>,
    pub target_layer: Option<Layer>,
    pub source_cell: Option<String>,
    pub signal_type: Option<String>,
    pub schema_version: Option<SchemaVersion>,
}

impl Default for ValidationContext {
    fn default() -> (c: Self)
        ensures
            c.capability_dimensions@ == Seq::<CapabilityDimension>::empty(),
            c.target_layer is None,
            c.source_cell is None,
            c.signal_type is None,
            c.schema_version is None,
    {
        ValidationContext {
            capability_dimensions: Vec::new(),
            target_layer: None,
            source_cell: None,
            signal_type: None,
            schema_version: None,
        }
    }
}

impl ValidationContext {
    /// The context of `env`: all three dimensions, and the envelope's
    /// target layer, source cell, signal type and schema version.
    pub fn from_envelope(env: &SignalEnvelope) -> (c: Self)
        ensures
            c.capability_dimensions@ == seq![
                CapabilityDimension::Schema,
                CapabilityDimension::Layer,
                CapabilityDimension::Runtime,
            ],
            c.target_layer == Some(env.target_layer),
            opt_view(c.source_cell) == opt_view(env.source_cell),
            c.signal_type matches Some(s) && s@ == env.signal_type@,
            c.schema_version == Some(env.schema_version),
    {
        let mut dims = Vec::new();
        dims.push(CapabilityDimension::Schema);
        dims.push(CapabilityDimension::Layer);
        dims.push(CapabilityDimension::Runtime);
        ValidationContext {
            capability_dimensions: dims,
            target_layer: Some(env.target_layer),
            source_cell: clone_opt(&env.source_cell),
            signal_type: Some(env.signal_type.clone()),
            schema_version: Some(env.schema_version),
        }
    }
}

/// Validates envelopes against a context.
#[derive(Debug, Clone)]
pub struct ConstraintValidator {
    pub ctx: ValidationContext,
}

/// An empty list allows every signal; otherwise the signal type must be
/// in the list.
pub open spec fn signal_allowed_decision(signal_type: Seq<char>, allowed: Seq<Seq<char>>) -> DecisionView {
    if allowed.len() == 0 || allowed.contains(signal_type) {
        DecisionView::Allow
    } else {
        DecisionView::Reject { reason: "signal '"@ + signal_type + "' is not allowed"@ }
    }
}

pub open spec fn direction_decision(from: Layer, to: Layer) -> DecisionView {
    if may_send(from, to) {
        DecisionView::Allow
    } else {
        DecisionView::Reject {
            reason: "layer violation: "@ + layer_debug_name(from) + " -> "@ + layer_debug_name(to),
        }
    }
}

impl ConstraintValidator {
    pub fn new(ctx: ValidationContext) -> (v: Self)
        ensures
            v.ctx == ctx,
    {
        ConstraintValidator { ctx }
    }

    /// Checks the envelope's signal type against `allowed_signals`.
    pub fn validate_signal_allowed(&self, env: &SignalEnvelope, allowed_signals: &[&str]) -> (d:
        InterceptDecision)
        ensures
            d@ == signal_allowed_decision(
                env.signal_type@,
                allowed_signals@.map_values(|s: &str| s@),
            ),
    {
        let ghost allowed = allowed_signals@.map_values(|s: &str| s@);
        if allowed_signals.len() == 0 {
            return InterceptDecision::Allow;
        }
        let mut i: usize = 0;
        while i < allowed_signals.len()
            invariant
                allowed == allowed_signals@.map_values(|s: &str| s@),
                i <= allowed_signals@.len(),
                forall|j: int| 0 <= j < i ==> allowed[j] != env.signal_type@,
            decreases allowed_signals@.len() - i,
        {
            if crate::text::str_equal(allowed_signals[i], env.signal_type.as_str()) {
                assert(allowed[i as int] == env.signal_type@);
                return InterceptDecision::Allow;
            }
            i = i + 1;
        }
        proof {
            reveal_strlit("signal '");
            reveal_strlit("' is not allowed");
            assert(!allowed.contains(env.signal_type@));
        }
        let mut reason = owned("signal '");
        reason.append(env.signal_type.as_str());
        reason.append("' is not allowed");
        InterceptDecision::Reject { reason }
    }

    /// Checks the layer calling rule.
    pub fn validate_layer_direction(&self, env: &SignalEnvelope) -> (d: InterceptDecision)
        ensures
            d@ == direction_decision(env.source_layer, env.target_layer),
    {
        if env.source_layer.can_send_to(env.target_layer) {
            InterceptDecision::Allow
        } else {
            proof {
                reveal_strlit("layer violation: ");
                reveal_strlit(" -> ");
            }
            let mut reason = owned("layer violation: ");
            reason.append(env.source_layer.debug_name());
            reason.append(" -> ");
            reason.append(env.target_layer.debug_name());
            InterceptDecision::Reject { reason }
        }
    }
}

} // verus!
