//! Taint / quarantine / watch markers on state paths, and the pure
//! check that decides whether a write to a path may proceed.
pub mod check;
pub mod laws;
pub mod types;
