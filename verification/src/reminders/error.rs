//! Error type for the reminders module.
use vstd::prelude::*;

use crate::reminders::types::ReminderStatus;

verus! {

/// Why a reminder operation was refused.
#[derive(Debug)]
pub enum ReminderError {
    NotFound(String),
    AlreadyTerminal(String, ReminderStatus),
    InvalidTransition { id: String, from: ReminderStatus, to: ReminderStatus },
    RequiresApproval(String),
    Store(String),
}

} // verus!
