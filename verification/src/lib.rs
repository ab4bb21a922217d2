//! Verified plan/task, reminder and taint substrate for agent state graphs.
pub mod keyed;
pub mod reminders;
pub mod storage;
pub mod taint;
pub mod tasks;
pub mod text;
pub mod time;
