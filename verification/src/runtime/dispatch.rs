//! The decisions of the dispatch loop: what to record, announce and do
//! after a cell handled a message, failed, or was held back by its circuit
//! breaker, and when a cell's state is snapshotted.
//!
//! The loop that performs these actions (waiting, replacing a cell,
//! publishing oversight messages) runs outside this library.

use crate::runtime::supervisor::SupervisionDecision;
use crate::text::{decimal, owned, u64_to_decimal};
use vstd::prelude::*;

verus! {

/// The entropy events that the dispatch loop records.
#[derive(Debug, Clone, Copy, PartialEq, Eq, Structural)]
pub enum EntropyEventKind {
    AxiomViolation,
    DroppedMessage,
    RejectedByGuardian,
    CellRestart,
    CircuitBreak,
    Timeout,
    DuplicateMessage,
    StaleStateViolation,
}

/// One step for the dispatch loop to carry out.
#[derive(Debug, Clone)]
pub enum DispatchAction {
    /// Record an entropy event for a cell.
    RecordEntropy { event: EntropyEventKind, cell_id: String },
    /// Announce a success to oversight.
    EmitSuccess { message: String },
    /// Announce a failure to oversight.
    EmitFailure { message: String, details: String },
    /// Announce a broken rule to oversight.
    EmitAxiomViolation { rule: String, details: String },
    /// Wait before going on.
    WaitMs { ms: u64 },
    /// Replace the cell by a fresh one from its factory.
    RestartCell,
}

/// An action as plain values.
pub enum ActionView {
    RecordEntropy { event: EntropyEventKind, cell_id: Seq<char> },
    EmitSuccess { message: Seq<char> },
    EmitFailure { message: Seq<char>, details: Seq<char> },
    EmitAxiomViolation { rule: Seq<char>, details: Seq<char> },
    WaitMs { ms: u64 },
    RestartCell,
}

impl View for DispatchAction {
    type V = ActionView;

    open spec fn view(&self) -> ActionView {
        match self {
            DispatchAction::RecordEntropy { event, cell_id } => ActionView::RecordEntropy {
                event: *event,
                cell_id: cell_id@,
            },
            DispatchAction::EmitSuccess { message } => ActionView::EmitSuccess { message: message@ },
            DispatchAction::EmitFailure { message, details } => ActionView::EmitFailure {
                message: message@,
                details: details@,
            },
            DispatchAction::EmitAxiomViolation { rule, details } => ActionView::EmitAxiomViolation {
                rule: rule@,
                details: details@,
            },
            DispatchAction::WaitMs { ms } => ActionView::WaitMs { ms: *ms },
            DispatchAction::RestartCell => ActionView::RestartCell,
        }
    }
}

pub open spec fn action_views(s: Seq<DispatchAction>) -> Seq<ActionView> {
    s.map_values(|a: DispatchAction| a@)
}

/// What follows a supervision decision for `cell`; `restartable` says
/// whether the cell has a factory to rebuild it.
pub open spec fn supervision_plan(cell: Seq<char>, d: SupervisionDecision, restartable: bool) -> Seq<
    ActionView,
> {
    match d {
        SupervisionDecision::Restart { backoff_ms } => {
            let announce = seq![
                ActionView::RecordEntropy { event: EntropyEventKind::CellRestart, cell_id: cell },
                ActionView::EmitSuccess {
                    message: "cell_restart: "@ + cell + " (backoff_ms="@ + decimal(backoff_ms as nat)
                        + ")"@,
                },
            ];
            if !restartable {
                announce
            } else if backoff_ms > 0 {
                announce + seq![ActionView::WaitMs { ms: backoff_ms }, ActionView::RestartCell]
            } else {
                announce.push(ActionView::RestartCell)
            }
        },
        SupervisionDecision::CircuitBreak { .. } => seq![
            ActionView::RecordEntropy { event: EntropyEventKind::CircuitBreak, cell_id: cell },
            ActionView::EmitFailure {
                message: "circuit_break: "@ + cell,
                details: "supervisor triggered circuit break"@,
            },
        ],
        SupervisionDecision::Stop | SupervisionDecision::Escalate => seq![
            ActionView::EmitFailure {
                message: "cell_stopped: "@ + cell,
                details: "supervisor stopped cell"@,
            },
        ],
    }
}

fn record(event: EntropyEventKind, cell_id: &str) -> (a: DispatchAction)
    ensures
        a@ == (ActionView::RecordEntropy { event, cell_id: cell_id@ }),
{
    DispatchAction::RecordEntropy { event, cell_id: owned(cell_id) }
}

fn prefixed(prefix: &str, cell_id: &str) -> (s: String)
    ensures
        s@ == prefix@ + cell_id@,
{
    let mut s = owned(prefix);
    s.append(cell_id);
    s
}

/// The actions after a supervision decision for `cell_id`.
pub fn supervision_actions(cell_id: &str, decision: SupervisionDecision, restartable: bool) -> (plan:
    Vec<DispatchAction>)
    ensures
        action_views(plan@) == supervision_plan(cell_id@, decision, restartable),
{
    let mut plan: Vec<DispatchAction> = Vec::new();
    match decision {
        SupervisionDecision::Restart { backoff_ms } => {
            proof {
                reveal_strlit("cell_restart: ");
                reveal_strlit(" (backoff_ms=");
                reveal_strlit(")");
            }
            plan.push(record(EntropyEventKind::CellRestart, cell_id));
            let mut message = prefixed("cell_restart: ", cell_id);
            message.append(" (backoff_ms=");
            message.append(u64_to_decimal(backoff_ms).as_str());
            message.append(")");
            plan.push(DispatchAction::EmitSuccess { message });
            if restartable {
                if backoff_ms > 0 {
                    plan.push(DispatchAction::WaitMs { ms: backoff_ms });
                }
                plan.push(DispatchAction::RestartCell);
            }
        },
        SupervisionDecision::CircuitBreak { .. } => {
            proof {
                reveal_strlit("circuit_break: ");
                reveal_strlit("supervisor triggered circuit break");
            }
            plan.push(record(EntropyEventKind::CircuitBreak, cell_id));
            plan.push(
                DispatchAction::EmitFailure {
                    message: prefixed("circuit_break: ", cell_id),
                    details: owned("supervisor triggered circuit break"),
                },
            );
        },
        SupervisionDecision::Stop | SupervisionDecision::Escalate => {
            proof {
                reveal_strlit("cell_stopped: ");
                reveal_strlit("supervisor stopped cell");
            }
            plan.push(
                DispatchAction::EmitFailure {
                    message: prefixed("cell_stopped: ", cell_id),
                    details: owned("supervisor stopped cell"),
                },
            );
        },
    }
    assert(action_views(plan@) =~= supervision_plan(cell_id@, decision, restartable));
    plan
}

/// What the loop does for a cell whose circuit breaker holds it back.
pub open spec fn circuit_hold_plan(cell: Seq<char>) -> Seq<ActionView> {
    seq![
        ActionView::RecordEntropy { event: EntropyEventKind::CircuitBreak, cell_id: cell },
        ActionView::EmitFailure {
            message: "circuit_break: "@ + cell,
            details: "supervisor circuit breaker open"@,
        },
    ]
}

pub fn circuit_hold_actions(cell_id: &str) -> (plan: Vec<DispatchAction>)
    ensures
        action_views(plan@) == circuit_hold_plan(cell_id@),
{
    proof {
        reveal_strlit("circuit_break: ");
        reveal_strlit("supervisor circuit breaker open");
    }
    let mut plan: Vec<DispatchAction> = Vec::new();
    plan.push(record(EntropyEventKind::CircuitBreak, cell_id));
    plan.push(
        DispatchAction::EmitFailure {
            message: prefixed("circuit_break: ", cell_id),
            details: owned("supervisor circuit breaker open"),
        },
    );
    assert(action_views(plan@) =~= circuit_hold_plan(cell_id@));
    plan
}

/// What the loop records and announces when a cell failed to handle a
/// message with `error`, before the supervision decision's own actions.
pub open spec fn failure_plan(cell: Seq<char>, error: Seq<char>) -> Seq<ActionView> {
    seq![
        ActionView::RecordEntropy { event: EntropyEventKind::AxiomViolation, cell_id: cell },
        ActionView::EmitAxiomViolation { rule: "cell_handle_failed"@, details: cell + ": "@ + error },
    ]
}

pub fn failure_actions(cell_id: &str, error: &str) -> (plan: Vec<DispatchAction>)
    ensures
        action_views(plan@) == failure_plan(cell_id@, error@),
{
    proof {
        reveal_strlit("cell_handle_failed");
        reveal_strlit(": ");
    }
    let mut plan: Vec<DispatchAction> = Vec::new();
    plan.push(record(EntropyEventKind::AxiomViolation, cell_id));
    let mut details = owned(cell_id);
    details.append(": ");
    details.append(error);
    plan.push(DispatchAction::EmitAxiomViolation { rule: owned("cell_handle_failed"), details });
    assert(action_views(plan@) =~= failure_plan(cell_id@, error@));
    plan
}

/// What the loop records and announces when an outgoing message of `cell`
/// could not be published because of `error`.
pub open spec fn dropped_plan(cell: Seq<char>, error: Seq<char>) -> Seq<ActionView> {
    seq![
        ActionView::RecordEntropy { event: EntropyEventKind::DroppedMessage, cell_id: cell },
        ActionView::EmitFailure {
            message: "dropped_message: "@ + cell,
            details: "failed to publish: "@ + error,
        },
    ]
}

pub fn dropped_actions(cell_id: &str, error: &str) -> (plan: Vec<DispatchAction>)
    ensures
        action_views(plan@) == dropped_plan(cell_id@, error@),
{
    proof {
        reveal_strlit("dropped_message: ");
        reveal_strlit("failed to publish: ");
    }
    let mut plan: Vec<DispatchAction> = Vec::new();
    plan.push(record(EntropyEventKind::DroppedMessage, cell_id));
    plan.push(
        DispatchAction::EmitFailure {
            message: prefixed("dropped_message: ", cell_id),
            details: prefixed("failed to publish: ", error),
        },
    );
    assert(action_views(plan@) =~= dropped_plan(cell_id@, error@));
    plan
}

/// A cell's state is snapshotted after this many witnessed events.
pub const SNAPSHOT_INTERVAL: u64 = 100;

/// One witnessed event of a cell: its count goes up, and at the interval
/// a snapshot is due and the count starts over.
pub open spec fn snapshot_step(count: u64) -> (u64, bool) {
    if count + 1 >= SNAPSHOT_INTERVAL {
        (0u64, true)
    } else {
        ((count + 1) as u64, false)
    }
}

pub fn snapshot_step_exec(count: u64) -> (r: (u64, bool))
    requires
        count < SNAPSHOT_INTERVAL,
    ensures
        r == snapshot_step(count),
{
    if count + 1 >= SNAPSHOT_INTERVAL {
        (0, true)
    } else {
        (count + 1, false)
    }
}

/// The snapshot sequence number read from a witness hash: the bytes taken
/// as a big-endian number, of which the last eight remain.
pub open spec fn hash_sequence_number(bytes: Seq<u8>) -> u64
    decreases bytes.len(),
{
    if bytes.len() == 0 {
        0
    } else {
        ((hash_sequence_number(bytes.drop_last()) << 8u64) | (bytes.last() as u64)) as u64
    }
}

pub fn hash_sequence_number_exec(bytes: &[u8]) -> (n: u64)
    ensures
        n == hash_sequence_number(bytes@),
{
    let mut acc: u64 = 0;
    let mut i: usize = 0;
    while i < bytes.len()
        invariant
            i <= bytes@.len(),
            acc == hash_sequence_number(bytes@.take(i as int)),
        decreases bytes@.len() - i,
    {
        proof {
            assert(bytes@.take(i + 1).drop_last() =~= bytes@.take(i as int));
        }
        acc = (acc << 8u64) | (bytes[i] as u64);
        i = i + 1;
    }
    proof {
        assert(bytes@.take(i as int) =~= bytes@);
    }
    acc
}

/// A restart always announces itself first and replaces the cell last
/// when it can; the other decisions never replace it.
pub proof fn law_only_restart_replaces(cell: Seq<char>, d: SupervisionDecision, restartable: bool)
    ensures
        supervision_plan(cell, d, restartable).len() > 0,
        (d is Restart && restartable) <==> supervision_plan(cell, d, restartable).last()
            is RestartCell,
{
}

} // verus!
