//! The runtime's start-up and bookkeeping rules: the preflight check on
//! cell versions, the layer check on externally submitted signals, the
//! topology of registered cells, the dead letter for a witness that could
//! not be stored, and the restart total reported in health.

use crate::json::{JsonValue, JsonView};
use crate::runtime::supervisor::Supervisor;
use crate::signal::{may_send, EnvelopeView, KernelError, KernelErrorView, Layer, SchemaVersion, SignalEnvelope, SignalKind, CURRENT_SCHEMA_VERSION};
use crate::text::{decimal, opt_view, owned, u64_to_decimal};
use vstd::prelude::*;

verus! {

/// The complaint about a cell whose major version is not 0.
pub open spec fn version_issue(id: Seq<char>, major: u64) -> Seq<char> {
    "cell "@ + id + " has non-zero major version "@ + decimal(major as nat) + ": not 0.x pre-release"@
}

/// The complaints, in registration order, about cells that are not 0.x.
pub open spec fn preflight_issues_of(cells: Seq<(Seq<char>, u64)>) -> Seq<Seq<char>>
    decreases cells.len(),
{
    if cells.len() == 0 {
        Seq::empty()
    } else {
        let rest = preflight_issues_of(cells.drop_last());
        let (id, major) = cells.last();
        if major != 0 {
            rest.push(version_issue(id, major))
        } else {
            rest
        }
    }
}

pub open spec fn cell_versions(cells: Seq<(String, u64)>) -> Seq<(Seq<char>, u64)> {
    cells.map_values(|c: (String, u64)| (c.0@, c.1))
}

pub open spec fn strings(v: Seq<String>) -> Seq<Seq<char>> {
    v.map_values(|s: String| s@)
}

/// Lists the cells, given as (id, major version), that are not 0.x.
pub fn preflight_issues(cells: &Vec<(String, u64)>) -> (issues: Vec<String>)
    ensures
        strings(issues@) == preflight_issues_of(cell_versions(cells@)),
{
    let ghost cv = cell_versions(cells@);
    let mut issues: Vec<String> = Vec::new();
    let mut i: usize = 0;
    while i < cells.len()
        invariant
            cv == cell_versions(cells@),
            i <= cells@.len(),
            strings(issues@) == preflight_issues_of(cv.take(i as int)),
        decreases cells@.len() - i,
    {
        proof {
            assert(cv.take(i + 1).drop_last() =~= cv.take(i as int));
            assert(cv.take(i + 1).last() == cv[i as int]);
        }
        let ghost before = issues@;
        if cells[i].1 != 0 {
            proof {
                reveal_strlit("cell ");
                reveal_strlit(" has non-zero major version ");
                reveal_strlit(": not 0.x pre-release");
            }
            let mut m = owned("cell ");
            m.append(cells[i].0.as_str());
            m.append(" has non-zero major version ");
            m.append(u64_to_decimal(cells[i].1).as_str());
            m.append(": not 0.x pre-release");
            let ghost mv = m@;
            issues.push(m);
            assert(strings(issues@) =~= strings(before).push(mv));
        }
        i = i + 1;
    }
    proof {
        assert(cv.take(i as int) =~= cv);
    }
    issues
}

/// `parts` joined by `sep`.
pub open spec fn joined(parts: Seq<Seq<char>>, sep: Seq<char>) -> Seq<char>
    decreases parts.len(),
{
    if parts.len() == 0 {
        Seq::empty()
    } else if parts.len() == 1 {
        parts[0]
    } else {
        joined(parts.drop_last(), sep) + sep + parts.last()
    }
}

/// The error text of a failed preflight.
pub fn preflight_failure_message(issues: &Vec<String>) -> (m: String)
    ensures
        m@ == "preflight failed: "@ + joined(strings(issues@), "; "@),
{
    proof {
        reveal_strlit("preflight failed: ");
        reveal_strlit("; ");
    }
    let ghost parts = strings(issues@);
    let mut body = String::new();
    let mut i: usize = 0;
    while i < issues.len()
        invariant
            parts == strings(issues@),
            i <= issues@.len(),
            body@ == joined(parts.take(i as int), "; "@),
        decreases issues@.len() - i,
    {
        proof {
            assert(parts.take(i + 1).drop_last() =~= parts.take(i as int));
        }
        if i > 0 {
            body.append("; ");
        }
        body.append(issues[i].as_str());
        proof {
            if i == 0 {
                assert(body@ =~= parts.take(1)[0]);
            }
        }
        i = i + 1;
    }
    proof {
        assert(parts.take(i as int) =~= parts);
    }
    let mut m = owned("preflight failed: ");
    m.append(body.as_str());
    m
}

/// A signal submitted from outside must keep the layer rule; a refusal
/// names the sender as external.
pub fn external_signal_check(source_layer: Layer, target_layer: Layer, signal_type: &str) -> (r: Result<
    (),
    KernelError,
>)
    ensures
        r is Ok <==> may_send(source_layer, target_layer),
        r matches Err(e) ==> e@ == (KernelErrorView::LayerViolation {
            from: source_layer,
            to: target_layer,
            source_cell: "external"@,
            signal_type: signal_type@,
        }),
{
    if source_layer.can_send_to(target_layer) {
        Ok(())
    } else {
        proof {
            reveal_strlit("external");
        }
        Err(
            KernelError::LayerViolation {
                from: source_layer,
                to: target_layer,
                source_cell: owned("external"),
                signal_type: owned(signal_type),
            },
        )
    }
}

/// The directed edges between registered cells: every ordered pair of
/// different cells where the first may message the second, in
/// registration order.
pub open spec fn edges_of(cells: Seq<(Seq<char>, Layer)>) -> Seq<(Seq<char>, Seq<char>)> {
    edges_from(cells, cells.len() as int)
}

/// The edges whose source is among the first `n` cells.
pub open spec fn edges_from(cells: Seq<(Seq<char>, Layer)>, n: int) -> Seq<(Seq<char>, Seq<char>)>
    decreases n,
{
    if n <= 0 {
        Seq::empty()
    } else {
        edges_from(cells, n - 1) + edges_to(cells, cells[n - 1], cells.len() as int)
    }
}

/// The edges from `from` to the first `m` cells.
pub open spec fn edges_to(cells: Seq<(Seq<char>, Layer)>, from: (Seq<char>, Layer), m: int) -> Seq<
    (Seq<char>, Seq<char>),
>
    decreases m,
{
    if m <= 0 {
        Seq::empty()
    } else {
        let rest = edges_to(cells, from, m - 1);
        let to = cells[m - 1];
        if from.0 != to.0 && may_send(from.1, to.1) {
            rest.push((from.0, to.0))
        } else {
            rest
        }
    }
}

pub open spec fn cell_layers(cells: Seq<(String, Layer)>) -> Seq<(Seq<char>, Layer)> {
    cells.map_values(|c: (String, Layer)| (c.0@, c.1))
}

pub open spec fn edge_views(edges: Seq<(String, String)>) -> Seq<(Seq<char>, Seq<char>)> {
    edges.map_values(|e: (String, String)| (e.0@, e.1@))
}

/// The topology edges of the cells given as (id, layer).
pub fn topology_edges(cells: &Vec<(String, Layer)>) -> (edges: Vec<(String, String)>)
    ensures
        edge_views(edges@) == edges_of(cell_layers(cells@)),
{
    let ghost cl = cell_layers(cells@);
    let n = cells.len();
    let mut edges: Vec<(String, String)> = Vec::new();
    let mut i: usize = 0;
    while i < n
        invariant
            n == cells@.len(),
            cl == cell_layers(cells@),
            i <= n,
            edge_views(edges@) == edges_from(cl, i as int),
        decreases n - i,
    {
        let ghost before = edge_views(edges@);
        let mut j: usize = 0;
        while j < n
            invariant
                n == cells@.len(),
                cl == cell_layers(cells@),
                i < n,
                j <= n,
                edge_views(edges@) == before + edges_to(cl, cl[i as int], j as int),
            decreases n - j,
        {
            let ghost mid = edges@;
            if !crate::text::str_equal(cells[i].0.as_str(), cells[j].0.as_str()) && cells[i].1.can_send_to(
                cells[j].1,
            ) {
                let e = (cells[i].0.clone(), cells[j].0.clone());
                let ghost ev = (e.0@, e.1@);
                edges.push(e);
                assert(edge_views(edges@) =~= edge_views(mid).push(ev));
            }
            j = j + 1;
        }
        i = i + 1;
    }
    edges
}

/// No cell has an edge to itself, and every edge keeps the layer rule.
pub proof fn law_topology_edges_keep_layer_rule(cells: Seq<(Seq<char>, Layer)>, n: int, k: int)
    requires
        0 <= n <= cells.len(),
        0 <= k < edges_from(cells, n).len(),
    ensures
        edges_from(cells, n)[k].0 != edges_from(cells, n)[k].1,
        exists|a: int, b: int|
            #![trigger cells[a], cells[b]]
            0 <= a < cells.len() && 0 <= b < cells.len() && cells[a].0 == edges_from(cells, n)[k].0
                && cells[b].0 == edges_from(cells, n)[k].1 && may_send(cells[a].1, cells[b].1),
    decreases n,
{
    if n > 0 {
        let prefix = edges_from(cells, n - 1);
        if k < prefix.len() {
            law_topology_edges_keep_layer_rule(cells, n - 1, k);
            assert(edges_from(cells, n)[k] == prefix[k]);
        } else {
            lemma_edges_to_sound(cells, cells[n - 1], cells.len() as int, k - prefix.len());
            assert(edges_from(cells, n)[k] == edges_to(cells, cells[n - 1], cells.len() as int)[k
                - prefix.len()]);
            let e = edges_from(cells, n)[k];
            let b = choose|b: int|
                #![trigger cells[b]]
                0 <= b < cells.len() && cells[b].0 == e.1 && e.0 == cells[n - 1].0 && may_send(
                    cells[n - 1].1,
                    cells[b].1,
                );
            assert(cells[n - 1].0 == e.0 && cells[b].0 == e.1);
        }
    }
}

proof fn lemma_edges_to_sound(cells: Seq<(Seq<char>, Layer)>, from: (Seq<char>, Layer), m: int, k: int)
    requires
        0 <= m <= cells.len(),
        0 <= k < edges_to(cells, from, m).len(),
    ensures
        edges_to(cells, from, m)[k].0 == from.0,
        edges_to(cells, from, m)[k].0 != edges_to(cells, from, m)[k].1,
        exists|b: int|
            #![trigger cells[b]]
            0 <= b < cells.len() && cells[b].0 == edges_to(cells, from, m)[k].1 && may_send(
                from.1,
                cells[b].1,
            ),
    decreases m,
{
    if m > 0 {
        let rest = edges_to(cells, from, m - 1);
        if k < rest.len() {
            lemma_edges_to_sound(cells, from, m - 1, k);
        } else {
            assert(cells[m - 1].0 == edges_to(cells, from, m)[k].1);
        }
    }
}

/// The dead letter envelope for a witness of `cell_id` that could not be
/// stored: an event from the cell's layer to oversight's witness dead
/// letter cell, carrying the witness id, the cell and the reason.
pub open spec fn witness_dlq_view(
    witness_id: Seq<char>,
    cell_id: Seq<char>,
    correlation_id: Seq<char>,
    trace_id: Option<Seq<char>>,
    timestamp_ns: u64,
    triggering_msg_id: Option<Seq<char>>,
    layer: Layer,
    reason: Seq<char>,
) -> EnvelopeView {
    EnvelopeView {
        msg_id: "witness-dlq"@,
        correlation_id,
        trace_id,
        signal_type: "WitnessSerializationFailed"@,
        timestamp_ns,
        kind: SignalKind::Event,
        source_layer: layer,
        target_layer: Layer::Oversight,
        source_cell: Some(cell_id),
        target_cell: Some("oversight:witness-dlq"@),
        payload: JsonView::Object(
            seq![
                ("witness_id"@, JsonView::String(witness_id)),
                ("cell_id"@, JsonView::String(cell_id)),
                ("reason"@, JsonView::String(reason)),
            ],
        ),
        schema_version: CURRENT_SCHEMA_VERSION,
        parent_msg_id: triggering_msg_id,
        hop_count: 0,
    }
}

pub fn witness_dlq_envelope(
    witness_id: &str,
    cell_id: &str,
    correlation_id: &str,
    trace_id: Option<String>,
    timestamp_ns: u64,
    triggering_msg_id: Option<String>,
    layer: Layer,
    reason: &str,
) -> (env: SignalEnvelope)
    ensures
        env@ == witness_dlq_view(
            witness_id@,
            cell_id@,
            correlation_id@,
            opt_view(trace_id),
            timestamp_ns,
            opt_view(triggering_msg_id),
            layer,
            reason@,
        ),
{
    proof {
        reveal_strlit("witness-dlq");
        reveal_strlit("WitnessSerializationFailed");
        reveal_strlit("oversight:witness-dlq");
        reveal_strlit("witness_id");
        reveal_strlit("cell_id");
        reveal_strlit("reason");
    }
    let mut members: Vec<(String, JsonValue)> = Vec::new();
    members.push((owned("witness_id"), JsonValue::String(owned(witness_id))));
    members.push((owned("cell_id"), JsonValue::String(owned(cell_id))));
    members.push((owned("reason"), JsonValue::String(owned(reason))));
    let ghost mv = members@;
    proof {
        assert(mv.len() == 3);
        assert(mv[0].0@ == "witness_id"@ && mv[0].1@ == JsonView::String(witness_id@));
        assert(mv[1].0@ == "cell_id"@ && mv[1].1@ == JsonView::String(cell_id@));
        assert(mv[2].0@ == "reason"@ && mv[2].1@ == JsonView::String(reason@));
    }
    let payload = JsonValue::Object(members);
    proof {
        if let JsonView::Object(ms) = payload@ {
            assert(ms.len() == 3);
            assert(ms[0] == (mv[0].0@, mv[0].1@));
            assert(ms[1] == (mv[1].0@, mv[1].1@));
            assert(ms[2] == (mv[2].0@, mv[2].1@));
            assert(ms =~= seq![
                ("witness_id"@, JsonView::String(witness_id@)),
                ("cell_id"@, JsonView::String(cell_id@)),
                ("reason"@, JsonView::String(reason@)),
            ]);
        }
    }
    SignalEnvelope {
        msg_id: owned("witness-dlq"),
        correlation_id: owned(correlation_id),
        trace_id,
        signal_type: owned("WitnessSerializationFailed"),
        timestamp_ns,
        kind: SignalKind::Event,
        source_layer: layer,
        target_layer: Layer::Oversight,
        source_cell: Some(owned(cell_id)),
        target_cell: Some(owned("oversight:witness-dlq")),
        payload,
        schema_version: SchemaVersion::new(CURRENT_SCHEMA_VERSION),
        parent_msg_id: triggering_msg_id,
        hop_count: 0,
    }
}

/// The restarts recorded for the first `n` of `cells` (0 for an unknown
/// cell).
pub open spec fn restart_sum(sup: Map<Seq<char>, crate::runtime::supervisor::CellView>, cells: Seq<Seq<char>>) -> int
    decreases cells.len(),
{
    if cells.len() == 0 {
        0
    } else {
        restart_sum(sup, cells.drop_last()) + if sup.contains_key(cells.last()) {
            sup[cells.last()].restart_count as int
        } else {
            0
        }
    }
}

proof fn lemma_restart_sum_monotone(sup: Map<Seq<char>, crate::runtime::supervisor::CellView>, cells: Seq<Seq<char>>, i: int)
    requires
        0 <= i <= cells.len(),
    ensures
        restart_sum(sup, cells.take(i)) <= restart_sum(sup, cells),
    decreases cells.len(),
{
    if i < cells.len() {
        lemma_restart_sum_monotone(sup, cells.drop_last(), i);
        assert(cells.drop_last().take(i) =~= cells.take(i));
    } else {
        assert(cells.take(i) =~= cells);
    }
}

/// The total restarts of `cells`, as reported in the runtime's health.
pub fn restart_total(sup: &Supervisor, cells: &Vec<String>) -> (total: u64)
    requires
        restart_sum(sup.cells(), strings(cells@)) <= u64::MAX,
    ensures
        total == restart_sum(sup.cells(), strings(cells@)),
{
    let ghost ids = strings(cells@);
    let mut total: u64 = 0;
    let mut i: usize = 0;
    while i < cells.len()
        invariant
            ids == strings(cells@),
            i <= cells@.len(),
            restart_sum(sup.cells(), ids) <= u64::MAX,
            total == restart_sum(sup.cells(), ids.take(i as int)),
        decreases cells@.len() - i,
    {
        proof {
            assert(ids.take(i + 1).drop_last() =~= ids.take(i as int));
            lemma_restart_sum_monotone(sup.cells(), ids, i + 1);
        }
        let n = sup.restart_count(cells[i].as_str());
        total = total + n;
        i = i + 1;
    }
    proof {
        assert(ids.take(i as int) =~= ids);
    }
    total
}

} // verus!
