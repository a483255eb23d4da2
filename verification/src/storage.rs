//! The store: its tables, and the operations that keep them.

pub mod engine;
pub mod invariants;
pub mod tables;
