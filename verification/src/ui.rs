//! Plain descriptions of what the terminal front end draws.

pub mod components;
pub mod data;
pub mod paragraph;
pub mod style;
pub mod text;
pub mod tui;
