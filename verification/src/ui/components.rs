//! The pieces the screens are put together from.

pub mod theme;
pub mod widgets;
