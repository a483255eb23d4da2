//! Theme definitions.

use crate::ui::style::{Color, Modifier, Style, BOLD};
use vstd::prelude::*;

verus! {

/// The fixed styles of the front end.
pub struct Theme;

impl Theme {
    /// The style of a title: bold cyan.
    pub open spec fn title_style() -> Style {
        Style {
            fg: Some(Color::Cyan),
            bg: None,
            add_modifier: Modifier { bits: BOLD },
            sub_modifier: Modifier { bits: 0 },
        }
    }

    /// The style of a title: cyan on the unchanged background, bold switched
    /// on, nothing switched off.
    pub fn title() -> (s: Style)
        ensures
            s == Theme::title_style(),
    {
        assert(0u16 | 0x001u16 == 0x001u16) by (bit_vector);
        assert(0u16 & !0x001u16 == 0u16) by (bit_vector);
        Style::default().fg(Color::Cyan).add_modifier(Modifier::bold())
    }
}

/// The colours a screen is drawn in.
#[derive(Clone, Copy, Debug, PartialEq, Eq, Structural)]
pub struct ThemePalette {
    /// Marks what has the focus.
    pub accent: Color,
    /// Marks the frame of what has the focus.
    pub accent_alt: Color,
    /// The background of the screen.
    pub bg: Color,
    /// Ordinary text.
    pub fg: Color,
    /// The background of panels.
    pub surface: Color,
    /// Text of little weight.
    pub hint: Color,
}

impl ThemePalette {
    /// The style of a title in this palette: bold, in the accent colour.
    pub open spec fn title_style(self) -> Style {
        Style {
            fg: Some(self.accent),
            bg: None,
            add_modifier: Modifier { bits: BOLD },
            sub_modifier: Modifier { bits: 0 },
        }
    }

    /// The style of a title in this palette: the accent colour on the
    /// unchanged background, bold switched on, nothing switched off.
    pub fn title(self) -> (s: Style)
        ensures
            s == self.title_style(),
    {
        assert(0u16 | 0x001u16 == 0x001u16) by (bit_vector);
        assert(0u16 & !0x001u16 == 0u16) by (bit_vector);
        Style::default().fg(self.accent).add_modifier(Modifier::bold())
    }
}

} // verus!
