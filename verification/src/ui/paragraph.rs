//! A block of text with an optional frame round it.

use crate::ui::style::Style;
use crate::seqs::views;
use crate::ui::text::{Line, SpanView};
use vstd::prelude::*;

verus! {

/// Where text stands between the left and the right edge.
#[derive(Clone, Copy, Debug, PartialEq, Eq, Structural)]
pub enum Alignment {
    Left,
    Center,
    Right,
}

/// The bit of each side of a frame.
pub const TOP: u8 = 0x1;

pub const RIGHT: u8 = 0x2;

pub const BOTTOM: u8 = 0x4;

pub const LEFT: u8 = 0x8;

/// The sides of a frame that are drawn, one bit each.
#[derive(Clone, Copy, Debug, PartialEq, Eq, Structural)]
pub struct Borders {
    pub bits: u8,
}

impl Borders {
    /// No side.
    pub fn none() -> (b: Borders)
        ensures
            b.bits == 0,
    {
        Borders { bits: 0 }
    }

    /// All four sides.
    pub fn all() -> (b: Borders)
        ensures
            b.bits == 0xf,
            b.bits == TOP | RIGHT | BOTTOM | LEFT,
    {
        assert(0x1u8 | 0x2u8 | 0x4u8 | 0x8u8 == 0xfu8) by (bit_vector);
        Borders { bits: 0xf }
    }
}

/// How text that is too long for a row goes on in the next.
#[derive(Clone, Copy, Debug, PartialEq, Eq, Structural)]
pub struct Wrap {
    /// Whether blanks at the start of a continued row are dropped.
    pub trim: bool,
}

/// A frame with titles on its top edge.
#[derive(Clone, Debug, PartialEq, Eq)]
pub struct Block {
    pub titles: Vec<Line>,
    pub borders: Borders,
    pub border_style: Style,
}

/// What a [`Block`] holds, as mathematical values.
pub struct BlockView {
    pub titles: Seq<Seq<SpanView>>,
    pub borders: Borders,
    pub border_style: Style,
}

impl View for Block {
    type V = BlockView;

    open spec fn view(&self) -> BlockView {
        BlockView {
            titles: views(self.titles@),
            borders: self.borders,
            border_style: self.border_style,
        }
    }
}

impl Block {
    /// A frame with no title and no side drawn.
    pub fn new() -> (b: Block)
        ensures
            b@ == (BlockView {
                titles: Seq::empty(),
                borders: Borders { bits: 0 },
                border_style: Style::plain(),
            }),
    {
        let b = Block { titles: Vec::new(), borders: Borders::none(), border_style: Style::new() };
        assert(b@.titles =~= Seq::empty());
        b
    }

    /// `self` with one more title, after those it has.
    pub fn title(self, title: Line) -> (b: Block)
        ensures
            b@ == (BlockView { titles: self@.titles.push(title@), ..self@ }),
    {
        let ghost before = self@;
        let mut titles = self.titles;
        titles.push(title);
        let b = Block { titles, borders: self.borders, border_style: self.border_style };
        assert(b@.titles =~= before.titles.push(title@));
        b
    }

    /// `self` with the given sides drawn.
    pub fn borders(self, borders: Borders) -> (b: Block)
        ensures
            b@ == (BlockView { borders, ..self@ }),
    {
        Block { titles: self.titles, borders, border_style: self.border_style }
    }

    /// `self` with the frame drawn in the given style.
    pub fn border_style(self, style: Style) -> (b: Block)
        ensures
            b@ == (BlockView { border_style: style, ..self@ }),
    {
        Block { titles: self.titles, borders: self.borders, border_style: style }
    }
}

/// Lines of text, with the frame, style, alignment and wrapping to draw them in.
#[derive(Clone, Debug, PartialEq, Eq)]
pub struct Paragraph {
    pub block: Option<Block>,
    pub style: Style,
    pub wrap: Option<Wrap>,
    pub lines: Vec<Line>,
    pub alignment: Alignment,
}

/// What a [`Paragraph`] holds, as mathematical values.
pub struct ParagraphView {
    pub block: Option<BlockView>,
    pub style: Style,
    pub wrap: Option<Wrap>,
    pub lines: Seq<Seq<SpanView>>,
    pub alignment: Alignment,
}

impl View for Paragraph {
    type V = ParagraphView;

    open spec fn view(&self) -> ParagraphView {
        ParagraphView {
            block: match self.block {
                Some(b) => Some(b@),
                None => None,
            },
            style: self.style,
            wrap: self.wrap,
            lines: views(self.lines@),
            alignment: self.alignment,
        }
    }
}

impl Paragraph {
    /// The given lines, unframed, unstyled, unwrapped and aligned left.
    pub fn new(lines: Vec<Line>) -> (p: Paragraph)
        ensures
            p@ == (ParagraphView {
                block: None,
                style: Style::plain(),
                wrap: None,
                lines: views(lines@),
                alignment: Alignment::Left,
            }),
    {
        Paragraph { block: None, style: Style::new(), wrap: None, lines, alignment: Alignment::Left }
    }

    /// `self` inside the given frame.
    pub fn block(self, block: Block) -> (p: Paragraph)
        ensures
            p@ == (ParagraphView { block: Some(block@), ..self@ }),
    {
        Paragraph {
            block: Some(block),
            style: self.style,
            wrap: self.wrap,
            lines: self.lines,
            alignment: self.alignment,
        }
    }

    /// `self` drawn in the given style.
    pub fn style(self, style: Style) -> (p: Paragraph)
        ensures
            p@ == (ParagraphView { style, ..self@ }),
    {
        Paragraph {
            block: self.block,
            style,
            wrap: self.wrap,
            lines: self.lines,
            alignment: self.alignment,
        }
    }

    /// `self` with long text wrapped as `wrap` says.
    pub fn wrap(self, wrap: Wrap) -> (p: Paragraph)
        ensures
            p@ == (ParagraphView { wrap: Some(wrap), ..self@ }),
    {
        Paragraph {
            block: self.block,
            style: self.style,
            wrap: Some(wrap),
            lines: self.lines,
            alignment: self.alignment,
        }
    }

    /// `self` with its text aligned as given.
    pub fn alignment(self, alignment: Alignment) -> (p: Paragraph)
        ensures
            p@ == (ParagraphView { alignment, ..self@ }),
    {
        Paragraph {
            block: self.block,
            style: self.style,
            wrap: self.wrap,
            lines: self.lines,
            alignment,
        }
    }
}

} // verus!
