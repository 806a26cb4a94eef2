//! The pager, the transcript and the other overlays, drawn into real buffers.

use std::cell::Cell;
use std::rc::Rc;
use std::sync::atomic::{AtomicUsize, Ordering};
use std::sync::Arc;

use codex_surface::cells::{
    CellKind, HistoryCell, InlineExpansionRegion, TranscriptPresentation,
};
use codex_surface::geometry::Rect;
use codex_surface::hyperlinks::HyperlinkLine;
use codex_surface::keys::{EditKeys, KeyBinding, PagerKeymap, PressedKeys};
use codex_surface::overlay::{Overlay, StaticOverlay, TextPage};
use codex_surface::pager::{content_area, PagerView};
use codex_surface::renderable::{CachedRenderable, Renderable};
use codex_surface::styled::{TextColor, TextLine, TextSpan, TextStyle, DIM, REVERSED};
use codex_surface::transcript::{ActiveCellTranscriptKey, TranscriptOverlay};
use codex_surface::transcript_screen::{MouseKind, OverlayAction, OverlayEvent};
use ratatui::buffer::Buffer;
use ratatui::style::{Color, Modifier, Style};
use ratatui::text::{Line, Span};
use ratatui::widgets::{Paragraph, Widget, Wrap};

fn screen(area: Rect) -> ratatui::layout::Rect {
    ratatui::layout::Rect::new(area.x, area.y, area.width, area.height)
}

fn empty_buffer(area: Rect) -> Buffer {
    Buffer::empty(screen(area))
}

fn terminal_color(color: TextColor) -> Color {
    match color {
        TextColor::Green => Color::Green,
        TextColor::Gray => Color::Gray,
        TextColor::Cyan => Color::Cyan,
        _ => Color::Reset,
    }
}

fn terminal_style(style: TextStyle) -> Style {
    Style {
        fg: style.fg.map(terminal_color),
        bg: style.bg.map(terminal_color),
        add_modifier: Modifier::from_bits_retain(style.add_modifier),
        sub_modifier: Modifier::from_bits_retain(style.sub_modifier),
        ..Style::default()
    }
}

fn terminal_line(line: &TextLine) -> Line<'static> {
    let spans: Vec<Span<'static>> = line
        .spans
        .iter()
        .map(|span| Span::styled(span.content.clone(), terminal_style(span.style)))
        .collect();
    Line::from(spans).style(terminal_style(line.style))
}

fn paragraph(lines: &[HyperlinkLine]) -> Paragraph<'static> {
    let lines: Vec<Line<'static>> = lines.iter().map(|line| terminal_line(&line.line)).collect();
    Paragraph::new(lines).wrap(Wrap { trim: false })
}

fn wrapped_height(lines: &[HyperlinkLine], width: u16) -> u16 {
    paragraph(lines).line_count(width) as u16
}

/// Marks the first row of each hyperlink.
fn mark(buffer: &mut Buffer, area: Rect, lines: &[HyperlinkLine]) {
    let mut y = area.y;
    for line in lines {
        for link in &line.hyperlinks {
            for column in link.start..link.end.min(area.width as usize) {
                if y < area.y + area.height {
                    let cell = &mut buffer[(area.x + column as u16, y)];
                    let marked = format!("\x1b]8;;{}\x07{}", link.destination, cell.symbol());
                    cell.set_symbol(&marked);
                }
            }
        }
        y += wrapped_height(std::slice::from_ref(line), area.width);
    }
}

fn text_line(text: &str) -> TextLine {
    TextLine::from_span(TextSpan::raw(text))
}

fn plain(text: &str) -> HyperlinkLine {
    HyperlinkLine::new(text_line(text))
}

fn dimmed(text: &str) -> HyperlinkLine {
    HyperlinkLine::new(TextLine::from_span(TextSpan::styled(
        text,
        TextStyle::none().add(DIM),
    )))
}

/// A cell that shows different things in different ways.
struct TestCell {
    display: Vec<HyperlinkLine>,
    transcript: Vec<HyperlinkLine>,
    expanded: Option<Vec<HyperlinkLine>>,
    regions: Vec<InlineExpansionRegion>,
    expanded_regions: Vec<InlineExpansionRegion>,
    continuation: bool,
    kind: CellKind,
    display_calls: Arc<AtomicUsize>,
}

impl TestCell {
    fn new(lines: Vec<HyperlinkLine>) -> Self {
        TestCell {
            display: lines.clone(),
            transcript: lines,
            expanded: None,
            regions: Vec::new(),
            expanded_regions: Vec::new(),
            continuation: false,
            kind: CellKind::Other,
            display_calls: Arc::new(AtomicUsize::new(0)),
        }
    }

    fn text(text: &str) -> Arc<Self> {
        Arc::new(TestCell::new(vec![plain(text)]))
    }
}

impl HistoryCell for TestCell {
    fn display_hyperlink_lines(&self, _width: u16) -> Vec<HyperlinkLine> {
        self.display_calls.fetch_add(1, Ordering::Relaxed);
        self.display.clone()
    }

    fn transcript_hyperlink_lines(&self, _width: u16) -> Vec<HyperlinkLine> {
        self.transcript.clone()
    }

    fn expanded_display_hyperlink_lines(&self, _width: u16) -> Option<Vec<HyperlinkLine>> {
        self.expanded.clone()
    }

    fn expanded_transcript_hyperlink_lines(&self, _width: u16) -> Option<Vec<HyperlinkLine>> {
        self.expanded.clone()
    }

    fn desired_height(&self, width: u16) -> u16 {
        wrapped_height(&self.display, width)
    }

    fn desired_transcript_height(&self, width: u16) -> u16 {
        wrapped_height(&self.transcript, width)
    }

    fn has_inline_expansion(&self) -> bool {
        self.expanded.is_some()
    }

    fn has_inline_transcript_expansion(&self) -> bool {
        self.expanded.is_some()
    }

    fn inline_expansion_regions(&self, _width: u16, expanded: bool) -> Vec<InlineExpansionRegion> {
        if expanded {
            self.expanded_regions.clone()
        } else {
            self.regions.clone()
        }
    }

    fn is_stream_continuation(&self) -> bool {
        self.continuation
    }

    fn kind(&self) -> CellKind {
        self.kind
    }

    fn mark_buffer_hyperlinks(
        buffer: &mut Buffer,
        area: Rect,
        lines: &Vec<HyperlinkLine>,
        _scroll_rows: usize,
    ) {
        mark(buffer, area, lines);
    }
}

/// A patch of 25 added lines, of which the first are shown until it is expanded.
fn patch_cell() -> TestCell {
    let headline = "• Added src/large.rs (+25 -0)";
    let mut preview = vec![plain(headline)];
    let mut full = vec![plain(headline)];
    for line in 0..25 {
        let text = format!("    {} +line {line}", line + 1);
        if line < 6 {
            preview.push(plain(&text));
        }
        full.push(plain(&text));
    }
    preview.push(plain("    … +19 lines"));
    let head = InlineExpansionRegion { row: 0, start: 0, end: 29 };
    let omitted = InlineExpansionRegion { row: 7, start: 4, end: 15 };
    let mut cell = TestCell::new(preview);
    cell.expanded = Some(full);
    cell.regions = vec![head, omitted];
    cell.expanded_regions = vec![head];
    cell
}

fn key(label: &str) -> KeyBinding {
    KeyBinding {
        label: TextSpan::styled(label, TextStyle::none().color(TextColor::Cyan)),
    }
}

fn default_pager_keymap() -> PagerKeymap {
    PagerKeymap {
        scroll_up: vec![key("↑"), key("k")],
        scroll_down: vec![key("↓"), key("j")],
        page_up: vec![key("pgup")],
        page_down: vec![key("pgdn")],
        half_page_up: vec![key("ctrl + u")],
        half_page_down: vec![key("ctrl + d")],
        jump_top: vec![key("home")],
        jump_bottom: vec![key("end")],
        close: vec![key("q")],
        close_transcript: vec![key("ctrl + t")],
        edit: EditKeys {
            esc: key("esc"),
            left: key("←"),
            right: key("→"),
            enter: key("enter"),
        },
    }
}

fn no_keys() -> PressedKeys {
    PressedKeys {
        scroll_up: false,
        scroll_down: false,
        page_up: false,
        page_down: false,
        half_page_up: false,
        half_page_down: false,
        jump_top: false,
        jump_bottom: false,
        close: false,
        close_transcript: false,
    }
}

fn user_style() -> TextStyle {
    TextStyle::none()
}

fn transcript_overlay(cells: Vec<Arc<TestCell>>) -> TranscriptOverlay<TestCell> {
    TranscriptOverlay::new(cells, default_pager_keymap(), user_style())
}

fn scrollback_overlay(cells: Vec<Arc<TestCell>>) -> TranscriptOverlay<TestCell> {
    TranscriptOverlay::new_with_presentation(
        cells,
        default_pager_keymap(),
        TranscriptPresentation::Display,
        user_style(),
    )
}

fn percent(offset: usize, max_scroll: usize) -> u8 {
    ((offset as f32 / max_scroll as f32) * 100.0).round() as u8
}

fn draw(overlay: &mut TranscriptOverlay<TestCell>, area: Rect, buffer: &mut Buffer) {
    overlay.render(area, buffer, &percent);
}

fn buffer_to_text(buffer: &Buffer, area: Rect) -> String {
    let mut out = String::new();
    for y in area.y..area.y + area.height {
        for x in area.x..area.x + area.width {
            let symbol = buffer[(x, y)].symbol();
            if symbol.is_empty() {
                out.push(' ');
            } else {
                out.push(symbol.chars().next().unwrap_or(' '));
            }
        }
        while out.ends_with(' ') {
            out.pop();
        }
        out.push('\n');
    }
    out
}

fn lines_cells(count: usize) -> Vec<Arc<TestCell>> {
    (0..count)
        .map(|i| TestCell::text(&format!("line{i}")))
        .collect()
}

/// Some rows, each of a label and a number.
struct Block {
    label: String,
    lines: u16,
}

impl Renderable for Block {
    type Model = ();

    fn desired_height(&mut self, _width: u16) -> u16 {
        self.lines
    }

    fn render(&mut self, area: Rect, buffer: &mut Buffer) {
        let lines: Vec<Line<'static>> = (0..self.lines)
            .map(|i| Line::from(format!("{}{i}", self.label)))
            .collect();
        Paragraph::new(lines).render(screen(area), buffer);
    }
}

fn paragraph_block(label: &str, lines: u16) -> Block {
    Block { label: label.to_string(), lines }
}

fn pager_view(renderables: Vec<Block>, title: &str, scroll_offset: usize) -> PagerView<Block> {
    PagerView::new(renderables, title.to_string(), scroll_offset, default_pager_keymap())
}

/// A row that counts how often it is measured.
struct CountingRenderable {
    desired_height_calls: Rc<Cell<usize>>,
}

impl Renderable for CountingRenderable {
    type Model = ();

    fn desired_height(&mut self, _width: u16) -> u16 {
        self.desired_height_calls.set(self.desired_height_calls.get() + 1);
        1
    }

    fn render(&mut self, _area: Rect, _buffer: &mut Buffer) {}
}

#[test]
fn scrolling_reuses_cached_transcript_layout() {
    let desired_height_calls = Rc::new(Cell::new(0));
    let renderables: Vec<CountingRenderable> = (0..500)
        .map(|_| CountingRenderable { desired_height_calls: desired_height_calls.clone() })
        .collect();
    let mut pager =
        PagerView::new(renderables, "PERF".to_string(), 0, default_pager_keymap());
    let area = Rect::new(0, 0, 80, 20);
    let mut buf = empty_buffer(area);

    pager.render(area, &mut buf, &percent);
    assert_eq!(desired_height_calls.get(), 500);
    pager.scroll_offset = 10;
    pager.render(area, &mut buf, &percent);

    assert_eq!(desired_height_calls.get(), 500);
}

#[test]
fn repeated_draws_reuse_committed_cell_lines() {
    let display_calls = Arc::new(AtomicUsize::new(0));
    let mut cell = TestCell::new(vec![plain("cached transcript row")]);
    cell.display_calls = display_calls.clone();
    let mut overlay = scrollback_overlay(vec![Arc::new(cell)]);
    let area = Rect::new(0, 0, 80, 20);
    let mut buf = empty_buffer(area);

    overlay.render_scrollback(area, &mut buf);
    let calls_after_first_draw = display_calls.load(Ordering::Relaxed);
    overlay.render_scrollback(area, &mut buf);

    assert!(calls_after_first_draw > 0);
    assert_eq!(display_calls.load(Ordering::Relaxed), calls_after_first_draw);
}

#[test]
fn patch_headline_hover_is_subtle_and_click_expands_inline() {
    let mut overlay = transcript_overlay(vec![Arc::new(patch_cell())]);
    let area = Rect::new(0, 0, 80, 40);
    let mut buf = empty_buffer(area);
    draw(&mut overlay, area, &mut buf);
    assert!(!buf[(10, 1)].style().add_modifier.contains(Modifier::BOLD));
    let body_style_before = buf[(10, 2)].style();

    let moved = overlay.handle_event(OverlayEvent::Mouse(MouseKind::Moved, 10, 1));
    assert_eq!(moved, OverlayAction::ScheduleFrame);
    assert_eq!(overlay.hovered_cell, Some(0));
    draw(&mut overlay, area, &mut buf);
    let headline_style = buf[(10, 1)].style();
    assert!(headline_style.add_modifier.contains(Modifier::BOLD));
    assert!(!headline_style.add_modifier.contains(Modifier::REVERSED));
    assert_eq!(buf[(10, 2)].style(), body_style_before);

    overlay.handle_event(OverlayEvent::Mouse(MouseKind::LeftDown, 10, 1));
    assert!(overlay.expanded_cells.contains(&0));
    draw(&mut overlay, area, &mut buf);
    assert!(buffer_to_text(&buf, area).contains("line 24"));

    overlay.handle_event(OverlayEvent::Mouse(MouseKind::LeftDown, 10, 1));
    assert!(!overlay.expanded_cells.contains(&0));
}

#[test]
fn patch_preview_body_is_not_a_hover_target() {
    let mut overlay = transcript_overlay(vec![Arc::new(patch_cell())]);
    let area = Rect::new(0, 0, 80, 20);
    let mut buf = empty_buffer(area);
    draw(&mut overlay, area, &mut buf);
    let action = overlay.handle_event(OverlayEvent::Mouse(MouseKind::Moved, 8, 2));

    assert_eq!(action, OverlayAction::Nothing);
    assert_eq!(overlay.hovered_cell, None);
}

#[test]
fn patch_omitted_count_hover_and_click_expand_inline() {
    let mut overlay = scrollback_overlay(vec![Arc::new(patch_cell())]);
    let area = Rect::new(0, 0, 80, 40);
    let mut buf = empty_buffer(area);
    overlay.render_scrollback(area, &mut buf);

    overlay.handle_event(OverlayEvent::Mouse(MouseKind::Moved, 8, 7));
    assert_eq!(overlay.hovered_cell, Some(0));
    assert_eq!(overlay.hovered_region.as_ref().map(|region| region.row), Some(7));
    overlay.render_scrollback(area, &mut buf);
    let style = buf[(8, 7)].style();
    assert!(style.add_modifier.contains(Modifier::BOLD));
    assert!(!style.add_modifier.contains(Modifier::REVERSED));

    overlay.handle_event(OverlayEvent::Mouse(MouseKind::LeftDown, 8, 7));
    assert!(overlay.expanded_cells.contains(&0));
    overlay.render_scrollback(area, &mut buf);
    assert!(buffer_to_text(&buf, area).contains("line 24"));
}

/// A command with 30 lines of output, of which a few are shown until it is expanded.
fn exec_cell() -> TestCell {
    let headline = "• Ran generate-output";
    let mut collapsed = vec![plain(headline)];
    let mut full = vec![plain(headline)];
    for line in 0..30 {
        let text = format!("    output {line}");
        if line == 2 {
            collapsed.push(dimmed("    … +26 lines"));
        }
        if line < 2 || line >= 28 {
            collapsed.push(dimmed(&text));
        }
        full.push(dimmed(&text));
    }
    let region = |row: usize| InlineExpansionRegion { row, start: 0, end: 40 };
    let mut cell = TestCell::new(collapsed);
    cell.expanded = Some(full);
    cell.regions = vec![region(0), region(3)];
    cell.expanded_regions = (0..31).map(region).collect();
    cell.kind = CellKind::Exec;
    cell
}

#[test]
fn command_output_hover_and_click_reveal_full_output_inline() {
    let mut overlay = scrollback_overlay(vec![Arc::new(exec_cell())]);
    let area = Rect::new(0, 0, 80, 40);
    let mut buf = empty_buffer(area);
    overlay.render_scrollback(area, &mut buf);
    assert!(!buffer_to_text(&buf, area).contains("output 15"));

    overlay.handle_event(OverlayEvent::Mouse(MouseKind::Moved, 6, 0));
    assert_eq!(overlay.hovered_cell, Some(0));
    overlay.render_scrollback(area, &mut buf);
    let style = buf[(6, 0)].style();
    assert!(style.add_modifier.contains(Modifier::BOLD));
    assert!(!style.add_modifier.contains(Modifier::REVERSED));

    overlay.handle_event(OverlayEvent::Mouse(MouseKind::LeftDown, 6, 0));
    overlay.render_scrollback(area, &mut buf);
    assert!(buffer_to_text(&buf, area).contains("output 15"));

    overlay.handle_event(OverlayEvent::Mouse(MouseKind::Moved, 6, 16));
    overlay.render_scrollback(area, &mut buf);
    let output_style = buf[(6, 16)].style();
    assert!(output_style.add_modifier.contains(Modifier::BOLD));
    assert!(!output_style.add_modifier.contains(Modifier::DIM));
    assert_eq!(output_style.fg, Some(Color::Gray));

    overlay.handle_event(OverlayEvent::Mouse(MouseKind::LeftDown, 6, 16));
    overlay.render_scrollback(area, &mut buf);
    assert!(!buffer_to_text(&buf, area).contains("output 15"));

    let omitted_row: u16 = buffer_to_text(&buf, area)
        .lines()
        .position(|line| line.contains("… +"))
        .expect("collapsed command output should show an omitted-line count")
        .try_into()
        .expect("test row should fit in u16");
    overlay.handle_event(OverlayEvent::Mouse(MouseKind::Moved, 6, omitted_row));
    overlay.render_scrollback(area, &mut buf);
    let omitted_style = buf[(6, omitted_row)].style();
    assert!(omitted_style.add_modifier.contains(Modifier::BOLD));
    assert!(!omitted_style.add_modifier.contains(Modifier::DIM));

    overlay.handle_event(OverlayEvent::Mouse(MouseKind::LeftDown, 6, omitted_row));
    overlay.render_scrollback(area, &mut buf);
    assert!(buffer_to_text(&buf, area).contains("output 15"));
}

#[test]
fn edit_prev_hint_is_visible() {
    let mut overlay = transcript_overlay(vec![TestCell::text("hello")]);

    // A wide buffer, so that the hints are not cut off.
    let area = Rect::new(0, 0, 120, 10);
    let mut buf = empty_buffer(area);
    draw(&mut overlay, area, &mut buf);

    let s = buffer_to_text(&buf, area);
    assert!(
        s.contains("edit prev"),
        "expected 'edit prev' hint in overlay footer, got: {s:?}"
    );
}

#[test]
fn mouse_scrollback_omits_transcript_pager_chrome() {
    let mut overlay = transcript_overlay(vec![TestCell::text("history line")]);
    let area = Rect::new(0, 0, 80, 8);
    let mut buf = empty_buffer(area);

    overlay.render_scrollback(area, &mut buf);

    let rendered = buffer_to_text(&buf, area);
    assert!(rendered.contains("history line"));
    assert!(!rendered.contains("T R A N S C R I P T"));
    assert!(!rendered.contains("100%"));
}

#[test]
fn mouse_scrollback_preserves_condensed_rich_cell_presentation() {
    let mut cell = TestCell::new(vec![HyperlinkLine::new(TextLine::from_span(
        TextSpan::styled("condensed rich view", TextStyle::none().color(TextColor::Green)),
    ))]);
    cell.transcript = vec![plain("expanded raw transcript")];
    let overlay: Overlay<TestCell, Block> = Overlay::new_mouse_scrollback(
        vec![Arc::new(cell)],
        default_pager_keymap(),
        user_style(),
    );
    let Overlay::Transcript(mut overlay) = overlay else {
        panic!("expected transcript overlay");
    };
    let area = Rect::new(0, 0, 80, 8);
    let mut buf = empty_buffer(area);

    overlay.render_scrollback(area, &mut buf);

    let rendered = buffer_to_text(&buf, area);
    assert!(rendered.contains("condensed rich view"));
    assert!(!rendered.contains("expanded raw transcript"));
    assert_eq!(buf[(0, 0)].fg, Color::Green);
}

#[test]
fn edit_next_hint_is_visible_when_highlighted() {
    let mut overlay = transcript_overlay(vec![TestCell::text("hello")]);
    overlay.set_highlight_cell(Some(0));

    // A wide buffer, so that the hints are not cut off.
    let area = Rect::new(0, 0, 120, 10);
    let mut buf = empty_buffer(area);
    draw(&mut overlay, area, &mut buf);

    let s = buffer_to_text(&buf, area);
    assert!(
        s.contains("edit next"),
        "expected 'edit next' hint in overlay footer, got: {s:?}"
    );
}

#[test]
fn transcript_overlay_snapshot_basic() {
    let mut overlay = transcript_overlay(vec![
        TestCell::text("alpha"),
        TestCell::text("beta"),
        TestCell::text("gamma"),
    ]);
    let area = Rect::new(0, 0, 40, 10);
    let mut buf = empty_buffer(area);
    draw(&mut overlay, area, &mut buf);
    let bar = format!("{} 100% ─", "─".repeat(33));
    assert_eq!(
        buffer_to_text(&buf, area).lines().collect::<Vec<_>>(),
        vec![
            "/ T R A N S C R I P T / / / / / / / / /",
            "alpha",
            "",
            "beta",
            "",
            "gamma",
            bar.as_str(),
            " ↑/↓ to scroll   pgup/pgdn to page   hom",
            " q to quit   esc to edit prev",
            "",
        ]
    );
}

fn linked_lines(destination: &str) -> Vec<HyperlinkLine> {
    let mut line = plain("");
    line.push_span(TextSpan::raw(destination), Some(destination));
    vec![line]
}

#[test]
fn transcript_overlay_preserves_semantic_web_links() {
    let destination = "https://example.com/a/very/long/path";
    let mut overlay =
        transcript_overlay(vec![Arc::new(TestCell::new(linked_lines(destination)))]);
    let area = Rect::new(0, 0, 24, 10);
    let mut buf = empty_buffer(area);

    draw(&mut overlay, area, &mut buf);

    assert!(screen(area).positions().any(|position| {
        buf[position]
            .symbol()
            .contains(&format!("\x1b]8;;{destination}\x07"))
    }));
}

#[test]
fn transcript_overlay_renders_live_tail() {
    let mut overlay = transcript_overlay(vec![TestCell::text("alpha")]);
    overlay.sync_live_tail(
        40,
        Some(ActiveCellTranscriptKey {
            revision: 1,
            is_stream_continuation: false,
            animation_tick: None,
        }),
        |_| Some(vec![plain("tail")]),
    );

    let area = Rect::new(0, 0, 40, 10);
    let mut buf = empty_buffer(area);
    draw(&mut overlay, area, &mut buf);
    let rendered = buffer_to_text(&buf, area);
    let rows: Vec<&str> = rendered.lines().collect();
    let header = format!("/ T R A N S C R I P T{}", " /".repeat(9));
    let bar = format!("{} 100% ─", "─".repeat(33));
    assert_eq!(
        rows,
        vec![
            header.as_str(),
            "alpha",
            "",
            "tail",
            "~",
            "~",
            bar.as_str(),
            " ↑/↓ to scroll   pgup/pgdn to page   hom",
            " q to quit   esc to edit prev",
            "",
        ]
    );
}

#[test]
fn transcript_overlay_live_tail_preserves_semantic_web_links() {
    let destination = "https://example.com/a/streamed/path";
    let mut overlay = transcript_overlay(Vec::new());
    let area = Rect::new(0, 0, 24, 10);
    let mut buf = empty_buffer(area);

    overlay.sync_live_tail(
        area.width,
        Some(ActiveCellTranscriptKey {
            revision: 1,
            is_stream_continuation: false,
            animation_tick: None,
        }),
        |_| Some(linked_lines(destination)),
    );
    draw(&mut overlay, area, &mut buf);

    assert!(screen(area).positions().any(|position| {
        buf[position]
            .symbol()
            .contains(&format!("\x1b]8;;{destination}\x07"))
    }));
}

#[test]
fn transcript_overlay_sync_live_tail_is_noop_for_identical_key() {
    let mut overlay = transcript_overlay(vec![TestCell::text("alpha")]);

    let calls = Cell::new(0usize);
    let key = ActiveCellTranscriptKey {
        revision: 1,
        is_stream_continuation: false,
        animation_tick: None,
    };

    overlay.sync_live_tail(40, Some(key), |_| {
        calls.set(calls.get() + 1);
        Some(vec![plain("tail")])
    });
    overlay.sync_live_tail(40, Some(key), |_| {
        calls.set(calls.get() + 1);
        Some(vec![plain("tail2")])
    });

    assert_eq!(calls.get(), 1);
}

#[test]
fn transcript_overlay_apply_patch_scroll_vt100_clears_previous_page() {
    let patch = || {
        Arc::new(TestCell::new(vec![
            plain("• Added foo.txt (+2 -0)"),
            plain("    1 +hello"),
            plain("    2 +world"),
        ]))
    };
    let cells = vec![
        patch(),
        patch(),
        TestCell::text("✔ You approved codex to run ls this time"),
        Arc::new(TestCell::new(vec![
            plain("$ ls"),
            plain("src"),
            plain("README.md"),
            plain("✓ • 420ms"),
        ])),
    ];
    let mut overlay = transcript_overlay(cells);
    let area = Rect::new(0, 0, 80, 12);
    let mut buf = empty_buffer(area);

    draw(&mut overlay, area, &mut buf);
    assert!(buffer_to_text(&buf, area).contains("420ms"));
    overlay.view.scroll_offset = 0;
    draw(&mut overlay, area, &mut buf);

    let bar = format!("{} 0% ─", "─".repeat(75));
    assert_eq!(
        buffer_to_text(&buf, area).lines().collect::<Vec<_>>(),
        vec![
            "/ T R A N S C R I P T / / / / / / / / / / / / / / / / / / / / / / / / / / / / /",
            "• Added foo.txt (+2 -0)",
            "    1 +hello",
            "    2 +world",
            "",
            "• Added foo.txt (+2 -0)",
            "    1 +hello",
            "    2 +world",
            bar.as_str(),
            " ↑/↓ to scroll   pgup/pgdn to page   home/end to jump",
            " q to quit   esc to edit prev",
            "",
        ]
    );
}

#[test]
fn transcript_overlay_keeps_scroll_pinned_at_bottom() {
    let mut overlay = transcript_overlay(lines_cells(20));
    let area = Rect::new(0, 0, 40, 12);
    let mut buf = empty_buffer(area);
    draw(&mut overlay, area, &mut buf);

    assert!(
        overlay.view.is_scrolled_to_bottom(),
        "expected initial render to leave view at bottom"
    );

    overlay.insert_cell(TestCell::text("tail"));

    assert_eq!(overlay.view.scroll_offset, usize::MAX);
    draw(&mut overlay, area, &mut buf);
    assert!(overlay.is_scrolled_to_bottom());
    assert!(buffer_to_text(&buf, area).contains("tail"));
}

#[test]
fn transcript_overlay_preserves_manual_scroll_position() {
    let mut overlay = transcript_overlay(lines_cells(20));
    let area = Rect::new(0, 0, 40, 12);
    let mut buf = empty_buffer(area);
    draw(&mut overlay, area, &mut buf);

    overlay.view.scroll_offset = 0;

    overlay.insert_cell(TestCell::text("tail"));

    assert_eq!(overlay.view.scroll_offset, 0);
}

#[test]
fn transcript_overlay_consolidation_remaps_highlight_inside_range() {
    let mut overlay = transcript_overlay(lines_cells(6));
    overlay.set_highlight_cell(Some(3));

    overlay.consolidate_cells(2, 5, TestCell::text("consolidated"));

    assert_eq!(
        overlay.highlight_cell,
        Some(2),
        "highlight inside consolidated range should point to replacement cell",
    );
}

#[test]
fn transcript_overlay_consolidation_remaps_highlight_after_range() {
    let mut overlay = transcript_overlay(lines_cells(7));
    overlay.set_highlight_cell(Some(6));

    overlay.consolidate_cells(2, 5, TestCell::text("consolidated"));

    assert_eq!(
        overlay.highlight_cell,
        Some(4),
        "highlight after consolidated range should shift left by removed cells",
    );
}

fn static_overlay(lines: &[&str], title: &str) -> StaticOverlay<TextPage> {
    let lines: Vec<TextLine> = lines.iter().map(|line| text_line(line)).collect();
    StaticOverlay::with_title(lines, title.to_string(), default_pager_keymap())
}

#[test]
fn static_overlay_snapshot_basic() {
    let mut overlay = static_overlay(&["one", "two", "three"], "S T A T I C");
    let area = Rect::new(0, 0, 40, 10);
    let mut buf = empty_buffer(area);
    overlay.render(area, &mut buf, &percent);
    let bar = format!("{} 100% ─", "─".repeat(33));
    assert_eq!(
        buffer_to_text(&buf, area).lines().collect::<Vec<_>>(),
        vec![
            "/ S T A T I C / / / / / / / / / / / / /",
            "one",
            "two",
            "three",
            "~",
            "~",
            bar.as_str(),
            " ↑/↓ to scroll   pgup/pgdn to page   hom",
            " q to quit",
            "",
        ]
    );
}

/// Draws the transcript and returns the numbers of the lines (`line-NN`) that are shown, in order.
fn transcript_line_numbers(overlay: &mut TranscriptOverlay<TestCell>, area: Rect) -> Vec<usize> {
    let mut buf = empty_buffer(area);
    draw(overlay, area, &mut buf);

    let top_h = area.height.saturating_sub(3);
    let top = Rect::new(area.x, area.y, area.width, top_h);
    let content = content_area(top);

    let mut nums = Vec::new();
    for y in content.y..content.bottom() {
        let mut line = String::new();
        for x in content.x..content.right() {
            line.push(buf[(x, y)].symbol().chars().next().unwrap_or(' '));
        }
        if let Some(n) = line
            .split_whitespace()
            .find_map(|w| w.strip_prefix("line-"))
            .and_then(|s| s.parse().ok())
        {
            nums.push(n);
        }
    }
    nums
}

#[test]
fn transcript_overlay_paging_is_continuous_and_round_trips() {
    let mut overlay = transcript_overlay(
        (0..50)
            .map(|i| TestCell::text(&format!("line-{i:02}")))
            .collect(),
    );
    let area = Rect::new(0, 0, 40, 15);

    // Draw once, so that paging uses the real content height.
    let mut buf = empty_buffer(area);
    overlay.view.scroll_offset = 0;
    draw(&mut overlay, area, &mut buf);
    let page_height = overlay.view.page_height(area);

    // From the top, PageDown shows the next page of content.
    overlay.view.scroll_offset = 0;
    let page1 = transcript_line_numbers(&mut overlay, area);
    let page1_len = page1.len();
    let expected_page1: Vec<usize> = (0..page1_len).collect();
    assert_eq!(
        page1, expected_page1,
        "first page should start at line-00 and show a full page of content"
    );

    overlay.view.scroll_offset = overlay.view.scroll_offset.saturating_add(page_height);
    let page2 = transcript_line_numbers(&mut overlay, area);
    assert_eq!(
        page2.len(),
        page1_len,
        "second page should have the same number of visible lines as the first page"
    );
    let expected_page2_first = *page1.last().unwrap() + 1;
    assert_eq!(
        page2[0], expected_page2_first,
        "second page after PageDown should immediately follow the first page"
    );

    // From an interior offset, PageDown then PageUp round-trips.
    let interior_offset = 3usize;
    overlay.view.scroll_offset = interior_offset;
    let before = transcript_line_numbers(&mut overlay, area);
    overlay.view.scroll_offset = overlay.view.scroll_offset.saturating_add(page_height);
    let _ = transcript_line_numbers(&mut overlay, area);
    overlay.view.scroll_offset = overlay.view.scroll_offset.saturating_sub(page_height);
    let after = transcript_line_numbers(&mut overlay, area);
    assert_eq!(
        before, after,
        "PageDown+PageUp from interior offset ({interior_offset}) should round-trip"
    );

    // From the top of the second page, PageUp then PageDown round-trips.
    overlay.view.scroll_offset = page_height;
    let before2 = transcript_line_numbers(&mut overlay, area);
    overlay.view.scroll_offset = overlay.view.scroll_offset.saturating_sub(page_height);
    let _ = transcript_line_numbers(&mut overlay, area);
    overlay.view.scroll_offset = overlay.view.scroll_offset.saturating_add(page_height);
    let after2 = transcript_line_numbers(&mut overlay, area);
    assert_eq!(
        before2, after2,
        "PageUp+PageDown from the top of the second page should round-trip"
    );
}

#[test]
fn static_overlay_wraps_long_lines() {
    let mut overlay = static_overlay(
        &["a very long line that should wrap when rendered within a narrow pager overlay width"],
        "S T A T I C",
    );
    let area = Rect::new(0, 0, 24, 8);
    let mut buf = empty_buffer(area);
    overlay.render(area, &mut buf, &percent);
    let bar = format!("{} 0% ─", "─".repeat(19));
    assert_eq!(
        buffer_to_text(&buf, area).lines().collect::<Vec<_>>(),
        vec![
            "/ S T A T I C / / / / /",
            "a very long line that",
            "should wrap when",
            "rendered within a narrow",
            bar.as_str(),
            " ↑/↓ to scroll   pgup/pg",
            " q to quit",
            "",
        ]
    );
}

#[test]
fn pager_view_content_height_counts_renderables() {
    let mut pv = pager_view(vec![paragraph_block("a", 2), paragraph_block("b", 3)], "T", 0);

    pv.ensure_layout(80);
    assert_eq!(pv.content_height(), 5);
}

#[test]
fn pager_view_ensure_chunk_visible_scrolls_down_when_needed() {
    let mut pv = pager_view(
        vec![
            paragraph_block("a", 1),
            paragraph_block("b", 3),
            paragraph_block("c", 3),
        ],
        "T",
        0,
    );
    let area = Rect::new(0, 0, 20, 8);

    pv.scroll_offset = 0;
    pv.ensure_chunk_visible(2, content_area(area));

    let mut buf = empty_buffer(area);
    pv.render(area, &mut buf, &percent);
    let rendered = buffer_to_text(&buf, area);

    assert!(rendered.contains("c0"), "expected chunk top in view: {rendered:?}");
    assert!(rendered.contains("c1"), "expected chunk middle in view: {rendered:?}");
    assert!(rendered.contains("c2"), "expected chunk bottom in view: {rendered:?}");
}

#[test]
fn pager_view_ensure_chunk_visible_scrolls_up_when_needed() {
    let mut pv = pager_view(
        vec![
            paragraph_block("a", 2),
            paragraph_block("b", 3),
            paragraph_block("c", 3),
        ],
        "T",
        0,
    );
    let area = Rect::new(0, 0, 20, 3);

    pv.scroll_offset = 6;
    pv.ensure_chunk_visible(0, area);

    assert_eq!(pv.scroll_offset, 0);
}

#[test]
fn pager_view_is_scrolled_to_bottom_accounts_for_wrapped_height() {
    let mut pv = pager_view(vec![paragraph_block("a", 10)], "T", 0);
    let area = Rect::new(0, 0, 20, 8);
    let mut buf = empty_buffer(area);

    pv.render(area, &mut buf, &percent);

    assert!(
        !pv.is_scrolled_to_bottom(),
        "expected view to report not at bottom when offset < max"
    );

    pv.scroll_offset = usize::MAX;
    pv.render(area, &mut buf, &percent);

    assert!(
        pv.is_scrolled_to_bottom(),
        "expected view to report at bottom after scrolling to end"
    );
}

#[test]
fn chunk_as_tall_as_the_window_is_wholly_visible() {
    let mut pv = pager_view(vec![paragraph_block("a", 4), paragraph_block("b", 3)], "T", 0);
    pv.ensure_chunk_visible(1, Rect::new(0, 0, 20, 3));
    assert_eq!(pv.scroll_offset, 4);
    pv.ensure_chunk_visible(1, Rect::new(0, 0, 20, 3));
    assert_eq!(pv.scroll_offset, 4);
}

#[test]
fn chunk_is_scrolled_to_the_last_but_one_row() {
    let mut pv = pager_view(
        vec![paragraph_block("a", 1), paragraph_block("b", 3), paragraph_block("c", 3)],
        "T",
        0,
    );
    pv.ensure_chunk_visible(2, Rect::new(0, 0, 20, 6));
    assert_eq!(pv.scroll_offset, 2);
    pv.ensure_chunk_visible(2, Rect::new(0, 0, 20, 6));
    assert_eq!(pv.scroll_offset, 2);
    // A chunk that ends in the last row is moved.
    pv.scroll_offset = 1;
    pv.ensure_chunk_visible(2, Rect::new(0, 0, 20, 6));
    assert_eq!(pv.scroll_offset, 2);
    // A chunk that is taller than the window is shown at its end.
    pv.scroll_offset = 0;
    pv.ensure_chunk_visible(2, Rect::new(0, 0, 20, 2));
    assert_eq!(pv.scroll_offset, 6);
}

#[test]
fn position_is_known_before_a_drawing() {
    let mut pv = pager_view(vec![paragraph_block("a", 4), paragraph_block("b", 3)], "T", 99);
    let area = Rect::new(0, 0, 20, 6);
    assert_eq!(pv.upcoming_position(area), Some((3, 3)));
    assert_eq!(pv.scroll_offset, 99);
    pv.scroll_offset = 0;
    pv.scroll_chunk_into_view(1);
    assert_eq!(pv.upcoming_position(area), Some((3, 3)));
    assert_eq!(pv.upcoming_position(Rect::new(0, 0, 20, 9)), None);
    let mut buf = empty_buffer(area);
    pv.render(area, &mut buf, &percent);
    assert_eq!(pv.scroll_offset, 3);
}

#[test]
fn popping_undoes_pushing() {
    let mut pv = pager_view(vec![paragraph_block("a", 4)], "T", 0);
    pv.ensure_layout(20);
    pv.push_renderable(paragraph_block("b", 3));
    assert_eq!(pv.layout_starts, vec![0, 4]);
    assert_eq!(pv.layout_heights, vec![4, 3]);
    let last = pv.pop_renderable().unwrap();
    assert_eq!((last.label.as_str(), last.lines), ("b", 3));
    assert_eq!(pv.layout_starts, vec![0]);
    assert_eq!(pv.layout_heights, vec![4]);
    assert_eq!(pv.layout_width, Some(20));
    assert!(pv.pop_renderable().is_some());
    assert!(pv.pop_renderable().is_none());
    assert_eq!(pv.layout_width, Some(20));
    assert!(pv.layout_starts.is_empty());
}

#[test]
fn run_of_equal_widths_is_measured_once() {
    let desired_height_calls = Rc::new(Cell::new(0));
    let mut cached = CachedRenderable::new(CountingRenderable {
        desired_height_calls: desired_height_calls.clone(),
    });
    for width in [80, 80, 40, 80, 80, 80] {
        assert_eq!(cached.desired_height(width), 1);
    }
    assert_eq!(desired_height_calls.get(), 3);
}

#[test]
fn partly_scrolled_chunk_is_drawn_from_its_visible_row() {
    let mut pv = pager_view(vec![paragraph_block("a", 4), paragraph_block("b", 3)], "T", 2);
    let area = Rect::new(0, 0, 20, 6);
    let mut buf = empty_buffer(area);
    pv.render(area, &mut buf, &percent);
    let rendered = buffer_to_text(&buf, area);
    let rows: Vec<&str> = rendered.lines().collect();
    assert_eq!(&rows[1..5], &["a2", "a3", "b0", "b1"]);
    assert_eq!(rows[5], format!("{} 67% ─", "─".repeat(14)));
    assert_eq!(pv.renderable_position_at(0, 1), Some((0, 2)));
    assert_eq!(pv.renderable_position_at(19, 3), Some((1, 0)));
    assert_eq!(pv.renderable_position_at(20, 3), None);
    assert_eq!(pv.renderable_position_at(0, 0), None);
    assert_eq!(pv.renderable_position_at(0, 5), None);
}

#[test]
fn rows_below_the_last_one_show_tildes() {
    let mut pv = pager_view(vec![paragraph_block("a", 1)], "T", usize::MAX);
    let area = Rect::new(2, 1, 20, 5);
    let mut buf = empty_buffer(Rect::new(0, 0, 24, 8));
    pv.render(area, &mut buf, &percent);
    assert_eq!(pv.scroll_offset, 0);
    assert_eq!(buf[(2, 2)].symbol(), "a");
    assert_eq!(buf[(2, 3)].symbol(), "~");
    assert_eq!(buf[(2, 4)].symbol(), "~");
    assert_eq!(buf[(3, 4)].symbol(), " ");
    assert_eq!(buf[(2, 5)].symbol(), "─");
    assert_eq!(buf[(1, 3)].symbol(), " ");
    assert_eq!(pv.renderable_position_at(2, 3), None);
}

#[test]
fn keys_move_the_window() {
    let mut pv = pager_view(vec![paragraph_block("a", 100)], "T", 10);
    let viewport = Rect::new(0, 0, 20, 13);
    let press = |pv: &mut PagerView<Block>, keys: PressedKeys| pv.handle_key_event(keys, viewport);

    assert!(press(&mut pv, PressedKeys { scroll_down: true, ..no_keys() }));
    assert_eq!(pv.scroll_offset, 11);
    assert!(press(&mut pv, PressedKeys { scroll_up: true, ..no_keys() }));
    assert_eq!(pv.scroll_offset, 10);
    assert_eq!(pv.page_height(viewport), 11);
    assert!(press(&mut pv, PressedKeys { page_down: true, ..no_keys() }));
    assert_eq!(pv.scroll_offset, 21);
    assert!(press(&mut pv, PressedKeys { page_up: true, ..no_keys() }));
    assert_eq!(pv.scroll_offset, 10);
    assert!(press(&mut pv, PressedKeys { half_page_down: true, ..no_keys() }));
    assert_eq!(pv.scroll_offset, 16);
    assert!(press(&mut pv, PressedKeys { half_page_up: true, ..no_keys() }));
    assert_eq!(pv.scroll_offset, 10);
    assert!(press(&mut pv, PressedKeys { jump_bottom: true, ..no_keys() }));
    assert_eq!(pv.scroll_offset, usize::MAX);
    assert!(press(&mut pv, PressedKeys { scroll_down: true, ..no_keys() }));
    assert_eq!(pv.scroll_offset, usize::MAX);
    assert!(press(&mut pv, PressedKeys { jump_top: true, ..no_keys() }));
    assert_eq!(pv.scroll_offset, 0);
    assert!(press(&mut pv, PressedKeys { page_up: true, ..no_keys() }));
    assert_eq!(pv.scroll_offset, 0);
    assert!(!press(&mut pv, PressedKeys { close: true, ..no_keys() }));
    assert_eq!(pv.scroll_offset, 0);
}

#[test]
fn layout_follows_pushed_and_popped_renderables() {
    let mut pv = pager_view(vec![paragraph_block("a", 2)], "T", 0);
    assert_eq!(pv.content_height(), 0);
    pv.ensure_layout(10);
    pv.push_renderable(paragraph_block("b", 3));
    assert_eq!(pv.content_height(), 5);
    assert_eq!(pv.layout_starts, vec![0, 2]);
    assert_eq!(pv.pop_renderable().map(|b| b.lines), Some(3));
    assert_eq!(pv.content_height(), 2);
    pv.replace_renderables(vec![paragraph_block("c", 7)]);
    assert_eq!(pv.content_height(), 0);
    pv.ensure_layout(10);
    assert_eq!(pv.content_height(), 7);
    assert!(pv.pop_renderable().is_some());
    assert!(pv.pop_renderable().is_none());
}

#[test]
fn cached_height_is_measured_once_per_width() {
    let calls = Rc::new(Cell::new(0));
    let mut cached =
        CachedRenderable::new(CountingRenderable { desired_height_calls: calls.clone() });
    assert_eq!(cached.desired_height(10), 1);
    assert_eq!(cached.desired_height(10), 1);
    assert_eq!(calls.get(), 1);
    assert_eq!(cached.desired_height(11), 1);
    assert_eq!(calls.get(), 2);
}

#[test]
fn highlighted_user_message_is_reversed_and_scrolled_into_view() {
    let mut cells = lines_cells(20);
    let mut message = TestCell::new(vec![plain("my message")]);
    message.kind = CellKind::User;
    cells.insert(4, Arc::new(message));
    let mut overlay = transcript_overlay(cells);
    let area = Rect::new(0, 0, 40, 12);
    let mut buf = empty_buffer(area);
    draw(&mut overlay, area, &mut buf);
    assert!(!buffer_to_text(&buf, area).contains("my message"));

    overlay.set_highlight_cell(Some(4));
    draw(&mut overlay, area, &mut buf);
    let rendered = buffer_to_text(&buf, area);
    let row = rendered
        .lines()
        .position(|line| line.contains("my message"))
        .expect("message should be in view") as u16;
    assert_eq!(
        buf[(0, row)].modifier.bits() & REVERSED,
        REVERSED
    );
    assert_eq!(overlay.view.pending_scroll_chunk, None);
}

#[test]
fn live_tail_survives_changes_of_the_cells() {
    let key = Some(ActiveCellTranscriptKey {
        revision: 3,
        is_stream_continuation: false,
        animation_tick: Some(7),
    });
    let area = Rect::new(0, 0, 40, 12);
    let mut buf = empty_buffer(area);
    let mut overlay = transcript_overlay(Vec::new());
    overlay.sync_live_tail(40, key, |_| Some(vec![plain("tail")]));
    draw(&mut overlay, area, &mut buf);
    let rows = |buf: &Buffer| -> Vec<String> {
        buffer_to_text(buf, area).lines().skip(1).take(5).map(|l| l.to_string()).collect()
    };
    assert_eq!(rows(&buf), vec!["tail", "~", "~", "~", "~"]);

    // The tail gets a blank row above it when the first cell comes.
    overlay.insert_cell(TestCell::text("first"));
    draw(&mut overlay, area, &mut buf);
    assert_eq!(rows(&buf), vec!["first", "", "tail", "~", "~"]);

    overlay.replace_cells(vec![TestCell::text("other"), TestCell::text("second")]);
    assert_eq!(overlay.committed_cell_count(), 2);
    draw(&mut overlay, area, &mut buf);
    assert_eq!(rows(&buf), vec!["other", "", "second", "", "tail"]);

    overlay.consolidate_cells(0, 9, TestCell::text("one"));
    assert_eq!(overlay.committed_cell_count(), 1);
    draw(&mut overlay, area, &mut buf);
    assert_eq!(rows(&buf), vec!["one", "", "tail", "~", "~"]);

    overlay.sync_live_tail(40, None, |_| Some(vec![plain("ghost")]));
    draw(&mut overlay, area, &mut buf);
    assert_eq!(rows(&buf), vec!["one", "~", "~", "~", "~"]);
}

#[test]
fn live_tail_without_lines_is_not_shown() {
    let key = Some(ActiveCellTranscriptKey {
        revision: 1,
        is_stream_continuation: true,
        animation_tick: None,
    });
    let mut overlay = transcript_overlay(vec![TestCell::text("alpha")]);
    overlay.sync_live_tail(40, key, |_| None);
    assert_eq!(overlay.view.renderables.len(), 1);
    overlay.sync_live_tail(41, key, |_| Some(vec![plain("tail")]));
    assert_eq!(overlay.view.renderables.len(), 2);
    assert_eq!(overlay.view.renderables[1].top, 0);
}

#[test]
fn stream_continuation_has_no_blank_row() {
    let mut continuation = TestCell::new(vec![plain("more")]);
    continuation.continuation = true;
    let mut overlay = transcript_overlay(vec![TestCell::text("begin"), Arc::new(continuation)]);
    let area = Rect::new(0, 0, 40, 10);
    let mut buf = empty_buffer(area);
    draw(&mut overlay, area, &mut buf);
    let rendered = buffer_to_text(&buf, area);
    let rows: Vec<&str> = rendered.lines().collect();
    assert_eq!(&rows[1..4], &["begin", "more", "~"]);
}

#[test]
fn replacing_cells_drops_what_is_gone() {
    let cells: Vec<Arc<TestCell>> = (0..3).map(|_| Arc::new(patch_cell())).collect();
    let mut overlay = scrollback_overlay(cells);
    overlay.toggle_expanded(0);
    overlay.toggle_expanded(2);
    overlay.set_highlight_cell(Some(2));
    overlay.replace_cells(vec![Arc::new(patch_cell())]);
    assert!(overlay.expanded_cells.contains(&0));
    assert!(!overlay.expanded_cells.contains(&2));
    assert_eq!(overlay.highlight_cell, None);
}

#[test]
fn consolidating_an_empty_range_changes_nothing() {
    let mut overlay = transcript_overlay(lines_cells(3));
    overlay.set_highlight_cell(Some(1));
    overlay.consolidate_cells(5, 9, TestCell::text("consolidated"));
    assert_eq!(overlay.committed_cell_count(), 3);
    assert_eq!(overlay.highlight_cell, Some(1));
    overlay.consolidate_cells(2, 1, TestCell::text("consolidated"));
    assert_eq!(overlay.committed_cell_count(), 3);
}

#[test]
fn toggling_twice_restores_the_cell() {
    let mut overlay = scrollback_overlay(vec![Arc::new(patch_cell()), Arc::new(patch_cell())]);
    let area = Rect::new(0, 0, 80, 60);
    let mut before = empty_buffer(area);
    overlay.render_scrollback(area, &mut before);
    overlay.toggle_expanded(1);
    let mut expanded = empty_buffer(area);
    overlay.render_scrollback(area, &mut expanded);
    assert_ne!(before, expanded);
    overlay.toggle_expanded(1);
    let mut after = empty_buffer(area);
    overlay.render_scrollback(area, &mut after);
    assert_eq!(before, after);
}

#[test]
fn hovering_the_same_region_again_needs_no_frame() {
    let mut overlay = scrollback_overlay(vec![Arc::new(patch_cell())]);
    let area = Rect::new(0, 0, 80, 20);
    let mut buf = empty_buffer(area);
    overlay.render_scrollback(area, &mut buf);
    let hover = OverlayEvent::Mouse(MouseKind::Moved, 3, 0);
    assert_eq!(overlay.handle_event(hover), OverlayAction::ScheduleFrame);
    assert_eq!(overlay.handle_event(hover), OverlayAction::Nothing);
    let away = OverlayEvent::Mouse(MouseKind::Moved, 60, 0);
    assert_eq!(overlay.handle_event(away), OverlayAction::ScheduleFrame);
    assert_eq!(overlay.hovered_cell, None);
    let click_beside = OverlayEvent::Mouse(MouseKind::LeftDown, 60, 0);
    assert_eq!(overlay.handle_event(click_beside), OverlayAction::Nothing);
}

#[test]
fn events_of_the_transcript() {
    let mut overlay = transcript_overlay(lines_cells(30));
    let viewport = Rect::new(0, 0, 40, 12);
    let mut buf = empty_buffer(viewport);
    draw(&mut overlay, viewport, &mut buf);
    let bottom = overlay.view.scroll_offset;
    assert_eq!(
        overlay.handle_event(OverlayEvent::Mouse(MouseKind::ScrollUp, 0, 0)),
        OverlayAction::ScheduleFrameSoon
    );
    assert_eq!(overlay.view.scroll_offset, bottom - 3);
    assert_eq!(
        overlay.handle_event(OverlayEvent::Mouse(MouseKind::ScrollDown, 0, 0)),
        OverlayAction::ScheduleFrameSoon
    );
    assert_eq!(overlay.view.scroll_offset, bottom);
    assert_eq!(overlay.handle_event(OverlayEvent::Draw), OverlayAction::Draw);
    assert_eq!(overlay.handle_event(OverlayEvent::Resize), OverlayAction::Draw);
    assert_eq!(overlay.handle_event(OverlayEvent::Other), OverlayAction::Nothing);
    assert_eq!(
        overlay.handle_event(OverlayEvent::Mouse(MouseKind::Other, 0, 0)),
        OverlayAction::Nothing
    );
    let up = PressedKeys { scroll_up: true, ..no_keys() };
    assert_eq!(
        overlay.handle_event(OverlayEvent::Key(up, viewport)),
        OverlayAction::ScheduleFrameSoon
    );
    assert_eq!(
        overlay.handle_event(OverlayEvent::Key(no_keys(), viewport)),
        OverlayAction::Nothing
    );
    assert!(!overlay.is_done());
    let close = PressedKeys { close_transcript: true, ..no_keys() };
    assert_eq!(
        overlay.handle_event(OverlayEvent::Key(close, viewport)),
        OverlayAction::Nothing
    );
    assert!(overlay.is_done());
}

#[test]
fn static_pages_close_by_the_close_key_only() {
    let mut overlay: Overlay<TestCell, TextPage> =
        Overlay::new_static_with_lines(vec![text_line("x")], "T".to_string(), default_pager_keymap());
    let viewport = Rect::new(0, 0, 40, 12);
    assert!(!overlay.is_scrolled_to_bottom());
    let toggle = PressedKeys { close_transcript: true, ..no_keys() };
    overlay.handle_event(OverlayEvent::Key(toggle, viewport));
    assert!(!overlay.is_done());
    overlay.handle_event(OverlayEvent::Mouse(MouseKind::ScrollDown, 0, 0));
    let close = PressedKeys { close: true, ..no_keys() };
    overlay.handle_event(OverlayEvent::Key(close, viewport));
    assert!(overlay.is_done());
    assert_eq!(overlay.handle_event(OverlayEvent::Draw), OverlayAction::Draw);
}

#[test]
fn overlays_of_renderables_and_transcripts() {
    let page: Overlay<TestCell, Block> = Overlay::new_static_with_renderables(
        vec![paragraph_block("a", 2)],
        "T".to_string(),
        default_pager_keymap(),
    );
    match page {
        Overlay::Static(mut page) => {
            let area = Rect::new(0, 0, 40, 9);
            let mut buf = empty_buffer(area);
            page.render(area, &mut buf, &percent);
            assert!(buffer_to_text(&buf, area).contains("a1"));
            assert!(!page.is_done());
        },
        Overlay::Transcript(_) => panic!("expected a page"),
    }
    let transcript: Overlay<TestCell, Block> =
        Overlay::new_transcript(lines_cells(2), default_pager_keymap(), user_style());
    assert!(transcript.is_scrolled_to_bottom());
    assert!(!transcript.is_done());
}

#[test]
fn drawing_again_draws_the_same() {
    let mut overlay = transcript_overlay(lines_cells(30));
    let area = Rect::new(0, 0, 40, 12);
    let mut first = empty_buffer(area);
    draw(&mut overlay, area, &mut first);
    let offset = overlay.view.scroll_offset;
    let mut second = empty_buffer(area);
    draw(&mut overlay, area, &mut second);
    assert_eq!(overlay.view.scroll_offset, offset);
    assert_eq!(first, second);
}

#[test]
fn visible_chunk_is_not_moved() {
    let mut pv = pager_view(
        vec![paragraph_block("a", 4), paragraph_block("b", 3), paragraph_block("c", 9)],
        "T",
        3,
    );
    pv.ensure_chunk_visible(1, Rect::new(0, 0, 20, 5));
    assert_eq!(pv.scroll_offset, 3);
    pv.ensure_chunk_visible(7, Rect::new(0, 0, 20, 5));
    assert_eq!(pv.scroll_offset, 3);
    pv.ensure_chunk_visible(2, Rect::new(0, 0, 20, 0));
    assert_eq!(pv.scroll_offset, 3);
}
