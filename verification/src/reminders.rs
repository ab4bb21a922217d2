//! Agent reminders: future-oriented, pull-based scheduling. An agent
//! creates a reminder with a due time, instructions and soft references,
//! polls `remind_me` at its checkpoints for what is due, and records each
//! execution; repeating schedules reset the reminder for its next time.
pub mod error;
pub mod laws;
pub mod lifecycle;
pub mod manager;
pub mod memory;
pub mod schedule;
pub mod store;
pub mod types;
