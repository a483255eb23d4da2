//! The entities the store keeps.

pub mod types;
