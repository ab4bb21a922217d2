//! Task state-machine validation.
//!
//! ```text
//!   pending ──start──▶ in_progress ──complete(proof)──▶ done        (terminal)
//!      │                    │
//!      └───abandon(reason)──┴──▶ abandoned                          (terminal)
//! ```
use vstd::prelude::*;

use crate::tasks::error::TaskStoreError;
use crate::tasks::types::TaskStatus;

verus! {

/// The transition being attempted.
#[derive(Debug, Clone, Copy, PartialEq, Eq, Structural)]
pub enum Transition {
    Start,
    Complete,
    Abandon,
}

impl Transition {
    pub open spec fn spec_target(self) -> TaskStatus {
        match self {
            Transition::Start => TaskStatus::InProgress,
            Transition::Complete => TaskStatus::Done,
            Transition::Abandon => TaskStatus::Abandoned,
        }
    }

    /// The status a task has after this transition.
    pub fn target(self) -> (r: TaskStatus)
        ensures
            r == self.spec_target(),
    {
        match self {
            Transition::Start => TaskStatus::InProgress,
            Transition::Complete => TaskStatus::Done,
            Transition::Abandon => TaskStatus::Abandoned,
        }
    }
}

/// The legal (status, transition) pairs.
pub open spec fn legal_transition(from: TaskStatus, t: Transition) -> bool {
    (from == TaskStatus::Pending && t == Transition::Start) || (from == TaskStatus::InProgress
        && t == Transition::Complete) || (from == TaskStatus::Pending && t == Transition::Abandon)
        || (from == TaskStatus::InProgress && t == Transition::Abandon)
}

/// Validate a state transition: `Ok(())` exactly for the legal pairs,
/// otherwise `InvalidTransition { from, to: t.target() }`.
pub fn check_transition(from: TaskStatus, t: Transition) -> (r: Result<(), TaskStoreError>)
    ensures
        r is Ok <==> legal_transition(from, t),
        r matches Err(e) ==> e == (TaskStoreError::InvalidTransition {
            from,
            to: t.spec_target(),
        }),
{
    if matches!(
        (from, t),
        (TaskStatus::Pending, Transition::Start) | (TaskStatus::InProgress, Transition::Complete)
            | (TaskStatus::Pending, Transition::Abandon) | (TaskStatus::InProgress,
        Transition::Abandon)
    ) {
        Ok(())
    } else {
        Err(TaskStoreError::InvalidTransition { from, to: t.target() })
    }
}

/// Terminal statuses admit no transition at all.
pub proof fn terminal_states_are_final(from: TaskStatus, t: Transition)
    requires
        from.spec_is_terminal(),
    ensures
        !legal_transition(from, t),
{
}

/// Every legal transition moves a task forward to its target, which
/// differs from where it started.
pub proof fn legal_transitions_change_status(from: TaskStatus, t: Transition)
    requires
        legal_transition(from, t),
    ensures
        t.spec_target() != from,
        !from.spec_is_terminal(),
{
}

} // verus!
