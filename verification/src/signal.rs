//! The message model: the four runtime layers, signal envelopes, and the
//! kernel errors that the runtime's rules produce.

use crate::json::{json_clone, JsonValue, JsonView};
use crate::text::{clone_opt, opt_view};
use vstd::prelude::*;

verus! {

/// The four layers of the architecture, from the top.
#[derive(Debug, Clone, Copy, PartialEq, Eq, Hash, Structural)]
pub enum Layer {
    Oversight,
    Agent,
    Validate,
    Exec,
}

/// Depth of a layer: the top is 0.
pub open spec fn layer_rank(l: Layer) -> int {
    match l {
        Layer::Oversight => 0,
        Layer::Agent => 1,
        Layer::Validate => 2,
        Layer::Exec => 3,
    }
}

/// The layer calling rule: oversight may reach every layer; any other
/// layer may reach its own layer and the layers below it.
pub open spec fn may_send(from: Layer, to: Layer) -> bool {
    from == Layer::Oversight || layer_rank(from) <= layer_rank(to)
}

/// The layer's name as `{:?}` prints it.
pub open spec fn layer_debug_name(l: Layer) -> Seq<char> {
    match l {
        Layer::Oversight => "Oversight"@,
        Layer::Agent => "Agent"@,
        Layer::Validate => "Validate"@,
        Layer::Exec => "Exec"@,
    }
}

impl Layer {
    /// Whether a message from this layer may go to `target`.
    pub fn can_send_to(self, target: Layer) -> (b: bool)
        ensures
            b == may_send(self, target),
    {
        match self {
            Layer::Oversight => true,
            Layer::Agent => !matches!(target, Layer::Oversight),
            Layer::Validate => matches!(target, Layer::Validate) || matches!(target, Layer::Exec),
            Layer::Exec => matches!(target, Layer::Exec),
        }
    }

    /// The layer's name as `{:?}` prints it.
    pub fn debug_name(self) -> (s: &'static str)
        ensures
            s@ == layer_debug_name(self),
    {
        proof {
            reveal_strlit("Oversight");
            reveal_strlit("Agent");
            reveal_strlit("Validate");
            reveal_strlit("Exec");
        }
        match self {
            Layer::Oversight => "Oversight",
            Layer::Agent => "Agent",
            Layer::Validate => "Validate",
            Layer::Exec => "Exec",
        }
    }
}

/// Every layer may message itself.
pub proof fn law_layer_reaches_itself(l: Layer)
    ensures
        may_send(l, l),
{
}

/// A message may go down or stay, never up, except from oversight, which
/// reaches every layer; no other layer reaches oversight.
pub proof fn law_layer_direction(from: Layer, to: Layer)
    ensures
        from == Layer::Oversight ==> may_send(from, to),
        from != Layer::Oversight && to == Layer::Oversight ==> !may_send(from, to),
        may_send(from, to) && may_send(to, from) ==> from == to || from == Layer::Oversight || to
            == Layer::Oversight,
{
}

/// Reachability between layers composes.
pub proof fn law_layer_transitive(a: Layer, b: Layer, c: Layer)
    requires
        may_send(a, b),
        may_send(b, c),
    ensures
        may_send(a, c),
{
}

#[derive(Debug, Clone, Copy, PartialEq, Eq, Structural)]
pub enum SignalKind {
    Command,
    Event,
}

/// The version of a signal's schema.
#[derive(Debug, Clone, Copy, PartialEq, Eq, Structural)]
pub struct SchemaVersion(pub u32);

/// The schema version that this system writes and reads.
pub const CURRENT_SCHEMA_VERSION: u32 = 1;

impl SchemaVersion {
    pub fn new(v: u32) -> (s: SchemaVersion)
        ensures
            s.0 == v,
    {
        SchemaVersion(v)
    }

    /// A reader at this version reads `other` when it is not newer.
    pub fn can_read(self, other: SchemaVersion) -> (b: bool)
        ensures
            b == (other.0 <= self.0),
    {
        other.0 <= self.0
    }
}

/// A message with its routing and tracing data.
#[derive(Debug)]
pub struct SignalEnvelope {
    pub msg_id: String,
    pub correlation_id: String,
    pub trace_id: Option<String>,
    pub signal_type: String,
    pub timestamp_ns: u64,
    pub kind: SignalKind,
    pub source_layer: Layer,
    pub target_layer: Layer,
    pub source_cell: Option<String>,
    pub target_cell: Option<String>,
    pub payload: JsonValue,
    pub schema_version: SchemaVersion,
    pub parent_msg_id: Option<String>,
    pub hop_count: u32,
}

/// An envelope as plain values.
pub struct EnvelopeView {
    pub msg_id: Seq<char>,
    pub correlation_id: Seq<char>,
    pub trace_id: Option<Seq<char>>,
    pub signal_type: Seq<char>,
    pub timestamp_ns: u64,
    pub kind: SignalKind,
    pub source_layer: Layer,
    pub target_layer: Layer,
    pub source_cell: Option<Seq<char>>,
    pub target_cell: Option<Seq<char>>,
    pub payload: JsonView,
    pub schema_version: u32,
    pub parent_msg_id: Option<Seq<char>>,
    pub hop_count: u32,
}

impl View for SignalEnvelope {
    type V = EnvelopeView;

    open spec fn view(&self) -> EnvelopeView {
        EnvelopeView {
            msg_id: self.msg_id@,
            correlation_id: self.correlation_id@,
            trace_id: opt_view(self.trace_id),
            signal_type: self.signal_type@,
            timestamp_ns: self.timestamp_ns,
            kind: self.kind,
            source_layer: self.source_layer,
            target_layer: self.target_layer,
            source_cell: opt_view(self.source_cell),
            target_cell: opt_view(self.target_cell),
            payload: self.payload@,
            schema_version: self.schema_version.0,
            parent_msg_id: opt_view(self.parent_msg_id),
            hop_count: self.hop_count,
        }
    }
}

impl Clone for SignalEnvelope {
    fn clone(&self) -> (r: Self)
        ensures
            r@ == self@,
    {
        SignalEnvelope {
            msg_id: self.msg_id.clone(),
            correlation_id: self.correlation_id.clone(),
            trace_id: clone_opt(&self.trace_id),
            signal_type: self.signal_type.clone(),
            timestamp_ns: self.timestamp_ns,
            kind: self.kind,
            source_layer: self.source_layer,
            target_layer: self.target_layer,
            source_cell: clone_opt(&self.source_cell),
            target_cell: clone_opt(&self.target_cell),
            payload: json_clone(&self.payload),
            schema_version: self.schema_version,
            parent_msg_id: clone_opt(&self.parent_msg_id),
            hop_count: self.hop_count,
        }
    }
}

impl SignalEnvelope {
    /// Checks the layer calling rule for this envelope.
    pub fn validate_layer_transition(&self) -> (r: Result<(), KernelError>)
        ensures
            r is Ok <==> may_send(self.source_layer, self.target_layer),
            r matches Err(e) ==> e@ == (KernelErrorView::LayerViolation {
                from: self.source_layer,
                to: self.target_layer,
                source_cell: match opt_view(self.source_cell) {
                    Some(c) => c,
                    None => "unknown"@,
                },
                signal_type: self.signal_type@,
            }),
    {
        if self.source_layer.can_send_to(self.target_layer) {
            Ok(())
        } else {
            let source_cell = match &self.source_cell {
                Some(c) => c.clone(),
                None => crate::text::owned("unknown"),
            };
            Err(
                KernelError::LayerViolation {
                    from: self.source_layer,
                    to: self.target_layer,
                    source_cell,
                    signal_type: self.signal_type.clone(),
                },
            )
        }
    }
}

/// Errors of the kernel rules that the runtime applies.
#[derive(Debug)]
pub enum KernelError {
    /// A bounded resource was full.
    ResourceExhausted { resource: String, cell_id: String },
    /// A message travelled more hops than allowed.
    HandoffLimitExceeded { msg_id: String, hops: u32, correlation_id: String },
    /// An interceptor refused the message.
    SignalValidationFailed(String),
    /// A message broke the layer calling rule.
    LayerViolation { from: Layer, to: Layer, source_cell: String, signal_type: String },
}

/// A kernel error as plain values.
pub enum KernelErrorView {
    ResourceExhausted { resource: Seq<char>, cell_id: Seq<char> },
    HandoffLimitExceeded { msg_id: Seq<char>, hops: u32, correlation_id: Seq<char> },
    SignalValidationFailed(Seq<char>),
    LayerViolation { from: Layer, to: Layer, source_cell: Seq<char>, signal_type: Seq<char> },
}

impl View for KernelError {
    type V = KernelErrorView;

    open spec fn view(&self) -> KernelErrorView {
        match self {
            KernelError::ResourceExhausted { resource, cell_id } => KernelErrorView::ResourceExhausted {
                resource: resource@,
                cell_id: cell_id@,
            },
            KernelError::HandoffLimitExceeded { msg_id, hops, correlation_id } =>
                KernelErrorView::HandoffLimitExceeded {
                msg_id: msg_id@,
                hops: *hops,
                correlation_id: correlation_id@,
            },
            KernelError::SignalValidationFailed(r) => KernelErrorView::SignalValidationFailed(r@),
            KernelError::LayerViolation { from, to, source_cell, signal_type } =>
                KernelErrorView::LayerViolation {
                from: *from,
                to: *to,
                source_cell: source_cell@,
                signal_type: signal_type@,
            },
        }
    }
}

} // verus!
