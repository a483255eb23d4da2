//! Styled text: spans and lines.

use crate::seqs::views;
use crate::ui::style::Style;
use vstd::prelude::*;

verus! {

/// A run of text drawn in one style.
#[derive(Clone, Debug, PartialEq, Eq)]
pub struct Span {
    pub style: Style,
    pub content: String,
}

/// What a [`Span`] holds, as mathematical values.
pub struct SpanView {
    pub style: Style,
    pub content: Seq<char>,
}

impl View for Span {
    type V = SpanView;

    open spec fn view(&self) -> SpanView {
        SpanView { style: self.style, content: self.content@ }
    }
}

impl Span {
    /// A span with the given text and the style that changes nothing.
    pub fn raw(content: &str) -> (s: Span)
        ensures
            s@ == (SpanView { style: Style::plain(), content: content@ }),
    {
        Span { style: Style::new(), content: String::from_str(content) }
    }

    /// A span with the given text and style.
    pub fn styled(content: String, style: Style) -> (s: Span)
        ensures
            s@ == (SpanView { style, content: content@ }),
    {
        Span { style, content }
    }
}

/// A line of text: spans side by side.
#[derive(Clone, Debug, PartialEq, Eq)]
pub struct Line {
    pub spans: Vec<Span>,
}

impl View for Line {
    type V = Seq<SpanView>;

    open spec fn view(&self) -> Seq<SpanView> {
        views(self.spans@)
    }
}

impl Line {
    /// The line made of the given spans.
    pub fn from_spans(spans: Vec<Span>) -> (l: Line)
        ensures
            l@ == views(spans@),
    {
        Line { spans }
    }
}

} // verus!
