//! The widgets of the search screen.

use crate::ui::components::theme::ThemePalette;
use crate::ui::data::InputMode;
use crate::ui::paragraph::{Alignment, Block, BlockView, Borders, Paragraph, ParagraphView, Wrap};
use crate::ui::style::Style;
use crate::seqs::views;
use crate::ui::text::{Line, Span, SpanView};
use vstd::prelude::*;

verus! {

/// The key hints under the query.
pub open spec fn tips_text() -> Seq<char> {
    "F3 agent • F4 workspace • F5/F6 time • F7 context • F11 clear • F9 mode • F2 theme • F8/Enter open • Ctrl-R history"@
}

/// The style of the query text: the accent colour while the query has the
/// focus, the hint colour otherwise.
pub open spec fn query_style(palette: ThemePalette, input_mode: InputMode) -> Style {
    if input_mode == InputMode::Query {
        Style { fg: Some(palette.accent), ..Style::plain() }
    } else {
        Style { fg: Some(palette.hint), ..Style::plain() }
    }
}

/// The style of the frame: the second accent colour while the query has the
/// focus, the accent colour on the panel background otherwise.
pub open spec fn frame_style(palette: ThemePalette, input_mode: InputMode) -> Style {
    if input_mode == InputMode::Query {
        Style { fg: Some(palette.accent_alt), ..Style::plain() }
    } else {
        Style { fg: Some(palette.accent), bg: Some(palette.surface), ..Style::plain() }
    }
}

/// The first line of the search bar: the filter chips, a blank after them if
/// there are any, then a slash, a blank and the query.
pub open spec fn query_line(
    query: Seq<char>,
    palette: ThemePalette,
    input_mode: InputMode,
    chips: Seq<SpanView>,
) -> Seq<SpanView> {
    let typed = SpanView { style: query_style(palette, input_mode), content: "/ "@ + query };
    if chips.len() > 0 {
        chips.push(SpanView { style: Style::plain(), content: " "@ }).push(typed)
    } else {
        chips.push(typed)
    }
}

/// The second line of the search bar: the key hints.
pub open spec fn tips_line(palette: ThemePalette) -> Seq<SpanView> {
    seq![
        SpanView { style: palette.title_style(), content: "Tips: "@ },
        SpanView { style: Style::plain(), content: tips_text() },
    ]
}

/// The search bar, whole.
pub open spec fn search_bar_view(
    query: Seq<char>,
    palette: ThemePalette,
    input_mode: InputMode,
    mode_label: Seq<char>,
    chips: Seq<SpanView>,
) -> ParagraphView {
    ParagraphView {
        block: Some(
            BlockView {
                titles: seq![
                    seq![
                        SpanView {
                            style: palette.title_style(),
                            content: "Search · "@ + mode_label,
                        },
                    ],
                ],
                borders: Borders { bits: 0xf },
                border_style: frame_style(palette, input_mode),
            },
        ),
        style: Style::plain(),
        wrap: Some(Wrap { trim: true }),
        lines: seq![query_line(query, palette, input_mode, chips), tips_line(palette)],
        alignment: Alignment::Left,
    }
}

/// The search bar: a frame titled with the search mode, round the filter
/// chips and the query on one line and the key hints on the next.
pub fn search_bar(
    query: &str,
    palette: ThemePalette,
    input_mode: InputMode,
    mode_label: &str,
    chips: Vec<Span>,
) -> (bar: Paragraph)
    ensures
        bar@ == search_bar_view(query@, palette, input_mode, mode_label@, views(chips@)),
{
    let focused = matches!(input_mode, InputMode::Query);
    let title = Span::styled(String::from_str("Search · ").concat(mode_label), palette.title());
    let style = if focused {
        Style::default().fg(palette.accent)
    } else {
        Style::default().fg(palette.hint)
    };

    let border_style = match input_mode {
        InputMode::Query => Style::default().fg(palette.accent_alt),
        _ => Style::default().fg(palette.accent).bg(palette.surface),
    };

    let ghost given = views(chips@);
    let mut first_line = chips;
    if !first_line.is_empty() {
        first_line.push(Span::raw(" "));
    }
    first_line.push(Span::styled(String::from_str("/ ").concat(query), style));
    assert(views(first_line@) =~= query_line(query@, palette, input_mode, given));

    let mut tips: Vec<Span> = Vec::new();
    tips.push(Span::styled(String::from_str("Tips: "), palette.title()));
    tips.push(
        Span::raw(
            "F3 agent • F4 workspace • F5/F6 time • F7 context • F11 clear • F9 mode • F2 theme • F8/Enter open • Ctrl-R history",
        ),
    );
    assert(views(tips@) =~= tips_line(palette));

    let mut body: Vec<Line> = Vec::new();
    body.push(Line::from_spans(first_line));
    body.push(Line::from_spans(tips));

    let mut heading: Vec<Span> = Vec::new();
    heading.push(title);
    assert(views(heading@) =~= seq![
        SpanView { style: palette.title_style(), content: "Search · "@ + mode_label@ },
    ]);

    let bar = Paragraph::new(body).block(
        Block::new().title(Line::from_spans(heading)).borders(Borders::all()).border_style(
            border_style,
        ),
    ).style(Style::default()).alignment(Alignment::Left).wrap(Wrap { trim: true });
    assert(bar@.lines =~= seq![
        query_line(query@, palette, input_mode, given),
        tips_line(palette),
    ]);
    assert(bar@.block->0.titles =~= seq![
        seq![SpanView { style: palette.title_style(), content: "Search · "@ + mode_label@ }],
    ]);
    bar
}

} // verus!
