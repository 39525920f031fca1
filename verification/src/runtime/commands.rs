//! Commands published by the runtime itself: their message ids and their
//! envelopes.

use crate::json::{JsonValue, JsonView};
use crate::signal::{EnvelopeView, Layer, SchemaVersion, SignalEnvelope, SignalKind, CURRENT_SCHEMA_VERSION};
use crate::text::{decimal, owned, u64_to_decimal};
use vstd::prelude::*;

verus! {

/// The id of the `n`-th command issued at `ts` nanoseconds.
pub open spec fn command_msg_id(ts: u64, n: u64) -> Seq<char> {
    "cmd-"@ + decimal(ts as nat) + "-"@ + decimal(n as nat)
}

pub fn format_command_msg_id(ts: u64, n: u64) -> (s: String)
    ensures
        s@ == command_msg_id(ts, n),
{
    proof {
        reveal_strlit("cmd-");
        reveal_strlit("-");
    }
    let mut s = owned("cmd-");
    s.append(u64_to_decimal(ts).as_str());
    s.append("-");
    s.append(u64_to_decimal(n).as_str());
    s
}

/// Numbers the commands that one runtime issues.
pub struct CommandIds {
    next: u64,
}

impl CommandIds {
    /// The number the next command gets.
    pub closed spec fn spec_next(&self) -> u64 {
        self.next
    }

    pub fn new() -> (c: Self)
        ensures
            c.spec_next() == 0,
    {
        CommandIds { next: 0 }
    }

    /// The id of a command issued at `ts`; the count wraps around past the
    /// largest `u64`.
    pub fn next_msg_id_at(&mut self, ts: u64) -> (id: String)
        ensures
            id@ == command_msg_id(ts, old(self).spec_next()),
            final(self).spec_next() == crate::runtime::guardian::wrapping_inc(old(self).spec_next()),
    {
        let n = self.next;
        self.next = crate::runtime::guardian::wrapping_inc_exec(n);
        format_command_msg_id(ts, n)
    }

    /// The id of a command issued now.
    pub fn next_msg_id(&mut self) -> (id: String)
        ensures
            exists|ts: u64| id@ == #[trigger] command_msg_id(ts, old(self).spec_next()),
            final(self).spec_next() == crate::runtime::guardian::wrapping_inc(old(self).spec_next()),
    {
        let ts = crate::clock::unix_time_ns();
        self.next_msg_id_at(ts)
    }
}

/// The envelope of a command from the runtime: issued by oversight, with
/// correlation id `corr-<id>`, no parent, no hops, at the current schema.
pub open spec fn command_envelope_view(
    id: Seq<char>,
    signal_type: Seq<char>,
    payload: JsonView,
    target_cell: Option<Seq<char>>,
    target_layer: Layer,
    timestamp_ns: u64,
) -> EnvelopeView {
    EnvelopeView {
        msg_id: id,
        correlation_id: "corr-"@ + id,
        trace_id: None,
        signal_type,
        timestamp_ns,
        kind: SignalKind::Command,
        source_layer: Layer::Oversight,
        target_layer,
        source_cell: None,
        target_cell,
        payload,
        schema_version: CURRENT_SCHEMA_VERSION,
        parent_msg_id: None,
        hop_count: 0,
    }
}

/// Builds the envelope of a runtime command.
pub fn command_envelope(
    id: String,
    signal_type: &str,
    payload: JsonValue,
    target_cell: Option<&str>,
    target_layer: Layer,
    timestamp_ns: u64,
) -> (env: SignalEnvelope)
    ensures
        env@ == command_envelope_view(
            id@,
            signal_type@,
            payload@,
            match target_cell {
                Some(t) => Some(t@),
                None => None,
            },
            target_layer,
            timestamp_ns,
        ),
{
    proof {
        reveal_strlit("corr-");
    }
    let mut corr = owned("corr-");
    corr.append(id.as_str());
    let target = match target_cell {
        Some(t) => Some(owned(t)),
        None => None,
    };
    SignalEnvelope {
        msg_id: id,
        correlation_id: corr,
        trace_id: None,
        signal_type: owned(signal_type),
        timestamp_ns,
        kind: SignalKind::Command,
        source_layer: Layer::Oversight,
        target_layer,
        source_cell: None,
        target_cell: target,
        payload,
        schema_version: SchemaVersion::new(CURRENT_SCHEMA_VERSION),
        parent_msg_id: None,
        hop_count: 0,
    }
}

/// Commands come from oversight, so the layer rule lets them reach every
/// layer.
pub proof fn law_commands_pass_layer_rule(
    id: Seq<char>,
    signal_type: Seq<char>,
    payload: JsonView,
    target_cell: Option<Seq<char>>,
    target_layer: Layer,
    timestamp_ns: u64,
)
    ensures
        crate::signal::may_send(
            command_envelope_view(id, signal_type, payload, target_cell, target_layer, timestamp_ns).source_layer,
            target_layer,
        ),
{
}

} // verus!
