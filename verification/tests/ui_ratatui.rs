//! The plain widgets, held against what `ratatui` builds from the same calls.

use coding_agent_search::ui::components::theme::{Theme, ThemePalette};
use coding_agent_search::ui::components::widgets::search_bar;
use coding_agent_search::ui::data::InputMode;
use coding_agent_search::ui::{paragraph, style, text};
use ratatui::buffer::Buffer;
use ratatui::layout::{Alignment, Rect};
use ratatui::style::{Color, Modifier, Style};
use ratatui::text::{Line, Span};
use ratatui::widgets::{Block, Borders, Paragraph, Widget, Wrap};

fn to_color(c: style::Color) -> Color {
    match c {
        style::Color::Reset => Color::Reset,
        style::Color::Black => Color::Black,
        style::Color::Red => Color::Red,
        style::Color::Green => Color::Green,
        style::Color::Yellow => Color::Yellow,
        style::Color::Blue => Color::Blue,
        style::Color::Magenta => Color::Magenta,
        style::Color::Cyan => Color::Cyan,
        style::Color::Gray => Color::Gray,
        style::Color::DarkGray => Color::DarkGray,
        style::Color::LightRed => Color::LightRed,
        style::Color::LightGreen => Color::LightGreen,
        style::Color::LightYellow => Color::LightYellow,
        style::Color::LightBlue => Color::LightBlue,
        style::Color::LightMagenta => Color::LightMagenta,
        style::Color::LightCyan => Color::LightCyan,
        style::Color::White => Color::White,
        style::Color::Rgb(r, g, b) => Color::Rgb(r, g, b),
        style::Color::Indexed(i) => Color::Indexed(i),
    }
}

fn to_style(s: style::Style) -> Style {
    let mut out = Style::default();
    out.fg = s.fg.map(to_color);
    out.bg = s.bg.map(to_color);
    out.add_modifier = Modifier::from_bits_truncate(s.add_modifier.bits);
    out.sub_modifier = Modifier::from_bits_truncate(s.sub_modifier.bits);
    out
}

fn to_line(l: text::Line) -> Line<'static> {
    Line::from(
        l.spans.into_iter().map(|s| Span::styled(s.content, to_style(s.style))).collect::<Vec<_>>(),
    )
}

fn to_paragraph(p: paragraph::Paragraph) -> Paragraph<'static> {
    let lines: Vec<Line<'static>> = p.lines.into_iter().map(to_line).collect();
    let mut out = Paragraph::new(lines).style(to_style(p.style)).alignment(match p.alignment {
        paragraph::Alignment::Left => Alignment::Left,
        paragraph::Alignment::Center => Alignment::Center,
        paragraph::Alignment::Right => Alignment::Right,
    });
    if let Some(b) = p.block {
        let mut block = Block::default()
            .borders(Borders::from_bits_truncate(b.borders.bits))
            .border_style(to_style(b.border_style));
        for title in b.titles {
            block = block.title(to_line(title));
        }
        out = out.block(block);
    }
    if let Some(w) = p.wrap {
        out = out.wrap(Wrap { trim: w.trim });
    }
    out
}

fn plain_palette() -> ThemePalette {
    ThemePalette {
        accent: style::Color::LightBlue,
        accent_alt: style::Color::Rgb(200, 100, 0),
        bg: style::Color::Black,
        fg: style::Color::White,
        surface: style::Color::Indexed(236),
        hint: style::Color::DarkGray,
    }
}

/// The search bar as `ratatui` builds it, call for call.
fn built_with_ratatui(query: &str, focused: bool, mode_label: &str, chips: Vec<Span<'static>>) -> Paragraph<'static> {
    let p = plain_palette();
    let title_style = Style::default().fg(to_color(p.accent)).add_modifier(Modifier::BOLD);
    let title = Span::styled(format!("Search · {mode_label}"), title_style);
    let style = if focused {
        Style::default().fg(to_color(p.accent))
    } else {
        Style::default().fg(to_color(p.hint))
    };
    let border_style = if focused {
        Style::default().fg(to_color(p.accent_alt))
    } else {
        Style::default().fg(to_color(p.accent)).bg(to_color(p.surface))
    };
    let mut first_line = chips;
    if !first_line.is_empty() {
        first_line.push(Span::raw(" "));
    }
    first_line.push(Span::styled(format!("/ {}", query), style));
    let body = vec![
        Line::from(first_line),
        Line::from(vec![
            Span::styled("Tips: ", title_style),
            Span::raw(
                "F3 agent • F4 workspace • F5/F6 time • F7 context • F11 clear • F9 mode • F2 theme • F8/Enter open • Ctrl-R history",
            ),
        ]),
    ];
    Paragraph::new(body)
        .block(Block::default().title(title).borders(Borders::ALL).border_style(border_style))
        .style(Style::default())
        .alignment(Alignment::Left)
        .wrap(Wrap { trim: true })
}

fn drawn(p: Paragraph<'static>) -> Buffer {
    let area = Rect::new(0, 0, 60, 6);
    let mut buffer = Buffer::empty(area);
    p.render(area, &mut buffer);
    buffer
}

#[test]
fn theme_title_is_the_style_ratatui_builds() {
    let expected = Style::default().fg(Color::Cyan).add_modifier(Modifier::BOLD);
    assert_eq!(to_style(Theme::title()), expected);
    let plain = style::Style::new()
        .fg(style::Color::Red)
        .bg(style::Color::Indexed(3))
        .add_modifier(style::Modifier { bits: style::ITALIC | style::DIM });
    let built = Style::default()
        .fg(Color::Red)
        .bg(Color::Indexed(3))
        .add_modifier(Modifier::ITALIC | Modifier::DIM);
    assert_eq!(to_style(plain), built);
    for (bits, modifier) in [
        (style::BOLD, Modifier::BOLD),
        (style::DIM, Modifier::DIM),
        (style::ITALIC, Modifier::ITALIC),
        (style::UNDERLINED, Modifier::UNDERLINED),
        (style::SLOW_BLINK, Modifier::SLOW_BLINK),
        (style::RAPID_BLINK, Modifier::RAPID_BLINK),
        (style::REVERSED, Modifier::REVERSED),
        (style::HIDDEN, Modifier::HIDDEN),
        (style::CROSSED_OUT, Modifier::CROSSED_OUT),
    ] {
        assert_eq!(bits, modifier.bits());
    }
    for (bits, borders) in [
        (paragraph::TOP, Borders::TOP),
        (paragraph::RIGHT, Borders::RIGHT),
        (paragraph::BOTTOM, Borders::BOTTOM),
        (paragraph::LEFT, Borders::LEFT),
        (paragraph::Borders::all().bits, Borders::ALL),
        (paragraph::Borders::none().bits, Borders::NONE),
    ] {
        assert_eq!(bits, borders.bits());
    }
}

#[test]
fn add_modifier_follows_ratatui() {
    let start = style::Style {
        fg: None,
        bg: None,
        add_modifier: style::Modifier { bits: style::ITALIC },
        sub_modifier: style::Modifier { bits: style::BOLD | style::HIDDEN },
    };
    let plain = start.add_modifier(style::Modifier { bits: style::BOLD | style::DIM });
    let built = to_style(start).add_modifier(Modifier::BOLD | Modifier::DIM);
    assert_eq!(to_style(plain), built);
}

#[test]
fn search_bar_is_the_paragraph_ratatui_builds() {
    for (mode, focused) in [
        (InputMode::Query, true),
        (InputMode::Agent, false),
        (InputMode::Workspace, false),
        (InputMode::CreatedFrom, false),
        (InputMode::CreatedTo, false),
    ] {
        for with_chips in [false, true] {
            let plain_chips = if with_chips {
                vec![
                    text::Span::styled("agent:codex".to_string(), style::Style::new().fg(style::Color::Green)),
                    text::Span::raw("ws:/tmp"),
                ]
            } else {
                vec![]
            };
            let chips: Vec<Span<'static>> = plain_chips
                .iter()
                .map(|s| Span::styled(s.content.clone(), to_style(s.style)))
                .collect();
            let plain = search_bar("apple pie", plain_palette(), mode, "lexical", plain_chips);
            let expected = built_with_ratatui("apple pie", focused, "lexical", chips);
            let converted = to_paragraph(plain);
            assert_eq!(converted, expected);
            assert_eq!(drawn(converted), drawn(expected));
        }
    }
}

#[test]
fn search_bar_draws_title_query_and_tips() {
    let bar = to_paragraph(search_bar("apple", plain_palette(), InputMode::Query, "lexical", vec![]));
    let buffer = drawn(bar);
    let row = |y: u16| -> String { (0..60).map(|x| buffer[(x, y)].symbol().to_string()).collect() };
    assert!(row(0).starts_with("┌Search · lexical"));
    assert!(row(1).starts_with("│/ apple"));
    assert!(row(2).starts_with("│Tips: F3 agent"));
    assert!(row(5).starts_with("└"));
    assert_eq!(buffer[(1, 1)].fg, Color::LightBlue);
    assert_eq!(buffer[(0, 0)].fg, Color::Rgb(200, 100, 0));
    assert!(buffer[(1, 0)].modifier.contains(Modifier::BOLD));
}
