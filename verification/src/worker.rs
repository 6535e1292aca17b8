//! The per-pending-item state machine the worker loop drives.
//!
//! One pending item advances Fetched → Parsed → VariantsComputed →
//! Assembled → Persisted.  A recoverable error at any step abandons the item
//! as Skipped; a persistence error during the final write leaves it Failed.
//! No terminal state is retried automatically — the loop simply takes the
//! next pending item.  The steps themselves (fetching, the engines, the
//! writes) run outside the library; this module holds only the decision of
//! where an item stands after each step's outcome.

use vstd::prelude::*;

verus! {

/// Where one pending item stands.
#[derive(Debug, Clone, Copy, PartialEq, Eq, Structural)]
pub enum PendingPhase {
    Fetched,
    Parsed,
    VariantsComputed,
    Assembled,
    Persisted,
    Skipped,
    Failed,
}

/// How one step of the pipeline ended.
#[derive(Debug, Clone, Copy, PartialEq, Eq, Structural)]
pub enum StepOutcome {
    Success,
    RecoverableError,
    PersistenceError,
}

/// A state no further step leaves.
pub open spec fn phase_terminal(p: PendingPhase) -> bool {
    p is Persisted || p is Skipped || p is Failed
}

/// The phase following `phase` after a step with the given outcome: success
/// advances one stage, a recoverable error abandons the item, and a
/// persistence error during the final write fails it.
pub open spec fn next_phase(phase: PendingPhase, outcome: StepOutcome) -> PendingPhase {
    if phase_terminal(phase) {
        phase
    } else {
        match outcome {
            StepOutcome::Success => match phase {
                PendingPhase::Fetched => PendingPhase::Parsed,
                PendingPhase::Parsed => PendingPhase::VariantsComputed,
                PendingPhase::VariantsComputed => PendingPhase::Assembled,
                _ => PendingPhase::Persisted,
            },
            StepOutcome::RecoverableError => PendingPhase::Skipped,
            StepOutcome::PersistenceError => {
                if phase is Assembled {
                    PendingPhase::Failed
                } else {
                    PendingPhase::Skipped
                }
            },
        }
    }
}

/// Advances one pending item by one step.
pub fn advance_phase(phase: PendingPhase, outcome: StepOutcome) -> (r: PendingPhase)
    ensures
        r == next_phase(phase, outcome),
{
    if phase_terminal_exec(phase) {
        return phase;
    }
    match outcome {
        StepOutcome::Success => match phase {
            PendingPhase::Fetched => PendingPhase::Parsed,
            PendingPhase::Parsed => PendingPhase::VariantsComputed,
            PendingPhase::VariantsComputed => PendingPhase::Assembled,
            _ => PendingPhase::Persisted,
        },
        StepOutcome::RecoverableError => PendingPhase::Skipped,
        StepOutcome::PersistenceError => {
            if matches!(phase, PendingPhase::Assembled) {
                PendingPhase::Failed
            } else {
                PendingPhase::Skipped
            }
        },
    }
}

/// Whether no further step leaves this phase.
pub fn phase_terminal_exec(phase: PendingPhase) -> (r: bool)
    ensures
        r == phase_terminal(phase),
{
    matches!(phase, PendingPhase::Persisted | PendingPhase::Skipped | PendingPhase::Failed)
}

/// A terminal state stays where it is: no state is retried automatically,
/// whatever later steps report.
pub proof fn lemma_terminal_is_absorbing(p: PendingPhase, outcome: StepOutcome)
    requires
        phase_terminal(p),
    ensures
        next_phase(p, outcome) == p,
{
}

/// Skipped is reachable from every non-terminal state in one recoverable
/// error, and four successful steps from Fetched reach Persisted.
pub proof fn lemma_phase_paths(p: PendingPhase)
    ensures
        !phase_terminal(p) ==> next_phase(p, StepOutcome::RecoverableError) is Skipped,
        next_phase(
            next_phase(
                next_phase(
                    next_phase(PendingPhase::Fetched, StepOutcome::Success),
                    StepOutcome::Success,
                ),
                StepOutcome::Success,
            ),
            StepOutcome::Success,
        ) is Persisted,
{
}

} // verus!
