//! Drawing into buffers, against what `ratatui` itself draws.

use codex_surface::canvas::{copy_cells, draw_line, draw_paragraph, draw_span, restyle_cell};
use codex_surface::cells::ParagraphRenderable;
use codex_surface::geometry::Rect;
use codex_surface::hyperlinks::HyperlinkLine;
use codex_surface::renderable::Renderable;
use codex_surface::styled::{
    TextAlignment, TextColor, TextLine, TextSpan, TextStyle, BOLD, DIM, UNDERLINED,
};
use ratatui::buffer::Buffer;
use ratatui::style::{Color, Modifier, Style};
use ratatui::text::{Line, Span};
use ratatui::widgets::{Paragraph, Widget, WidgetRef, Wrap};

fn buffer(width: u16, height: u16) -> Buffer {
    Buffer::empty(ratatui::layout::Rect::new(0, 0, width, height))
}

fn line(text: &str) -> TextLine {
    TextLine::from_span(TextSpan::raw(text))
}

#[test]
fn spans_and_lines_are_drawn_as_ratatui_draws_them() {
    let mut ours = buffer(12, 3);
    let mut theirs = buffer(12, 3);
    let style = TextStyle::none().color(TextColor::Rgb(1, 2, 3)).add(BOLD).remove(DIM);
    draw_span(&mut ours, "héllo 世界 end", style, Rect::new(1, 1, 9, 1));
    Span::styled(
        "héllo 世界 end",
        Style::new()
            .fg(Color::Rgb(1, 2, 3))
            .add_modifier(Modifier::BOLD)
            .remove_modifier(Modifier::DIM),
    )
    .render_ref(ratatui::layout::Rect::new(1, 1, 9, 1), &mut theirs);
    assert_eq!(ours, theirs);

    let spans = vec![
        TextSpan::styled("one", TextStyle::none().color(TextColor::Indexed(7))),
        TextSpan::raw(" two three four"),
    ];
    let mut text = TextLine::from_spans(spans);
    text.style = TextStyle::none().add(UNDERLINED);
    draw_line(&mut ours, &text, Rect::new(0, 2, 12, 1));
    Paragraph::new(vec![Line::from(vec![
        Span::styled("one", Style::new().fg(Color::Indexed(7))),
        Span::raw(" two three four"),
    ])
    .style(Style::new().add_modifier(Modifier::UNDERLINED))])
    .render_ref(ratatui::layout::Rect::new(0, 2, 12, 1), &mut theirs);
    assert_eq!(ours, theirs);
}

#[test]
fn paragraphs_are_drawn_as_ratatui_draws_them() {
    let texts = ["  leading spaces stay", "", "a longer line that has to be wrapped", "x"];
    let mut ours = buffer(14, 9);
    let mut theirs = buffer(14, 9);
    draw_span(&mut ours, "@@@@@@@@@@@@@@", TextStyle::none(), Rect::new(0, 3, 14, 1));
    Span::raw("@@@@@@@@@@@@@@").render_ref(ratatui::layout::Rect::new(0, 3, 14, 1), &mut theirs);
    let lines: Vec<TextLine> = texts.iter().map(|t| line(t)).collect();
    let style = TextStyle::none().color(TextColor::Green);
    draw_paragraph(&mut ours, &lines, style, Rect::new(2, 1, 10, 7));
    Paragraph::new(texts.iter().map(|t| Line::from(*t)).collect::<Vec<_>>())
        .style(Style::new().fg(Color::Green))
        .wrap(Wrap { trim: false })
        .render(ratatui::layout::Rect::new(2, 1, 10, 7), &mut theirs);
    assert_eq!(ours, theirs);
}

#[test]
fn aligned_lines_are_drawn_as_ratatui_draws_them() {
    let aligned = |text: &str, alignment: TextAlignment| {
        let mut line = line(text);
        line.alignment = Some(alignment);
        line
    };
    let mut ours = buffer(12, 6);
    let mut theirs = buffer(12, 6);
    let lines = vec![
        aligned("left", TextAlignment::Left),
        aligned("center it here", TextAlignment::Center),
        aligned("right", TextAlignment::Right),
    ];
    draw_paragraph(&mut ours, &lines, TextStyle::none(), Rect::new(1, 0, 10, 5));
    Paragraph::new(vec![
        Line::from("left").left_aligned(),
        Line::from("center it here").centered(),
        Line::from("right").right_aligned(),
    ])
    .wrap(Wrap { trim: false })
    .render(ratatui::layout::Rect::new(1, 0, 10, 5), &mut theirs);
    draw_line(&mut ours, &aligned("end", TextAlignment::Right), Rect::new(0, 5, 12, 1));
    Paragraph::new(vec![Line::from("end").right_aligned()])
        .render_ref(ratatui::layout::Rect::new(0, 5, 12, 1), &mut theirs);
    assert_eq!(ours, theirs);
}

#[test]
fn wide_words_reach_beyond_a_narrow_area() {
    let mut ours = buffer(6, 3);
    let mut theirs = buffer(6, 3);
    draw_span(&mut ours, "@@@@@@", TextStyle::none(), Rect::new(0, 1, 6, 1));
    Span::raw("@@@@@@").render_ref(ratatui::layout::Rect::new(0, 1, 6, 1), &mut theirs);
    draw_paragraph(&mut ours, &vec![line("a世b")], TextStyle::none(), Rect::new(1, 1, 2, 2));
    Paragraph::new(vec![Line::from("a世b")])
        .wrap(Wrap { trim: false })
        .render(ratatui::layout::Rect::new(1, 1, 2, 2), &mut theirs);
    assert_eq!(ours, theirs);
}

#[test]
fn wide_words_are_cut_off_at_the_edge() {
    let mut ours = buffer(2, 3);
    draw_paragraph(&mut ours, &vec![line("a世")], TextStyle::none(), Rect::new(0, 0, 2, 3));
    assert_eq!(ours[(0, 0)].symbol(), "a");
    assert_eq!(ours[(1, 0)].symbol(), "世");
}

#[test]
fn wrapped_rows_are_counted() {
    let mut paragraph = ParagraphRenderable::new(vec![line("aaa bbb ccc"), line("d")]);
    assert_eq!(paragraph.desired_height(20), 2);
    assert_eq!(paragraph.desired_height(7), 3);
    assert_eq!(paragraph.desired_height(3), 4);
    assert_eq!(paragraph.desired_height(0), 0);
}

#[test]
fn cells_are_restyled_and_copied() {
    let mut source = buffer(4, 2);
    draw_span(&mut source, "abcd", TextStyle::none(), Rect::new(0, 1, 4, 1));
    restyle_cell(&mut source, 1, 1, TextStyle::none().color(TextColor::Gray).add(BOLD));
    let mut target = buffer(5, 3);
    copy_cells(&mut target, Rect::new(2, 1, 3, 1), &source, 1, 1);
    assert_eq!(target[(2, 1)].symbol(), "b");
    assert_eq!(target[(2, 1)].fg, Color::Gray);
    assert!(target[(2, 1)].modifier.contains(Modifier::BOLD));
    assert_eq!(target[(3, 1)].symbol(), "c");
    assert_eq!(target[(4, 1)].symbol(), "d");
    assert_eq!(target[(1, 1)].symbol(), " ");
    assert_eq!(target[(2, 0)].symbol(), " ");
}

#[test]
fn hyperlinks_take_the_columns_of_their_text() {
    let mut linked = HyperlinkLine::new(line("世 "));
    linked.push_span(TextSpan::raw("link"), Some("dest"));
    linked.push_span(TextSpan::raw("!"), None);
    assert_eq!(linked.hyperlinks.len(), 1);
    assert_eq!(linked.hyperlinks[0].start, 3);
    assert_eq!(linked.hyperlinks[0].end, 7);
    assert_eq!(linked.hyperlinks[0].destination, "dest");
    assert_eq!(linked.line.spans.len(), 3);
}
