//! State of the search screen.

use vstd::prelude::*;

verus! {

/// Which field the keyboard is typing into.
#[derive(Clone, Copy, Debug, PartialEq, Eq, Structural)]
pub enum InputMode {
    /// The search query itself.
    Query,
    /// The agent filter.
    Agent,
    /// The workspace filter.
    Workspace,
    /// The lower bound of the time filter.
    CreatedFrom,
    /// The upper bound of the time filter.
    CreatedTo,
}

} // verus!
