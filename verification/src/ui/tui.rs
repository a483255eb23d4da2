//! Fixed texts of the search screen.

use vstd::prelude::*;

verus! {

/// The legend shown while the help is closed.
pub open spec fn short_legend() -> Seq<char> {
    "F1 help • Esc/F10 quit"@
}

/// The legend shown while the help is open.
pub open spec fn full_legend() -> Seq<char> {
    "F3 agent • F4 workspace • F5/F6 time • F7 context • F11 clear • F9 mode • F2 theme • F8/Enter open • Ctrl-R history • Esc/F10 quit"@
}

/// The key legend of the footer: the short one while the help is closed, the
/// full one while it is open.
pub fn footer_legend(show_help: bool) -> (legend: String)
    ensures
        legend@ == (if show_help {
            full_legend()
        } else {
            short_legend()
        }),
{
    if show_help {
        String::from_str(
            "F3 agent • F4 workspace • F5/F6 time • F7 context • F11 clear • F9 mode • F2 theme • F8/Enter open • Ctrl-R history • Esc/F10 quit",
        )
    } else {
        String::from_str("F1 help • Esc/F10 quit")
    }
}

} // verus!
