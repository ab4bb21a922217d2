//! Shared plan / task store: plans hold tasks that move through a strict
//! state machine, carry proofs of completion, blockers and assignees.
pub mod error;
pub mod history;
pub mod laws;
pub mod names;
pub mod paths;
pub mod state;
pub mod store;
pub mod types;
pub mod verify;
