//! Error type for `TaskStore` operations.
use vstd::prelude::*;

use crate::tasks::types::{TaskId, TaskStatus};

verus! {

/// Why a task-store operation was refused.
#[derive(Debug)]
pub enum TaskStoreError {
    PlanNotFound(String),
    SummaryRequired,
    CannotClose { plan: String, reason: String },
    PlanAlreadyExists(String),
    TaskNotFound { plan: String, id: TaskId },
    InvalidTransition { from: TaskStatus, to: TaskStatus },
    Blocked { blockers: Vec<TaskId> },
    BlockerNotFound { blockers: Vec<TaskId> },
    ProofRequired,
    ParentNotFound(TaskId),
    ParentIsSubtask(TaskId),
    ReasonRequired,
    InvalidTaskId(String),
    InvalidBlockerId(String),
    WriteConflict,
    Repo(String),
}

} // verus!
