//! The terminal buffer: what its cells hold, and the drawing that `ratatui` does into it.

use ratatui::buffer::Buffer;
use ratatui::layout::Alignment;
use ratatui::style::Color as T;
use ratatui::style::Modifier;
use ratatui::widgets::{Widget, WidgetRef};
use vstd::prelude::*;

use crate::geometry::Rect;
use crate::styled::{LineView, SpanView, TextAlignment, TextColor, TextLine, TextStyle};

verus! {

/// What one cell of a buffer holds.
pub struct CellView {
    pub symbol: Seq<char>,
    pub fg: TextColor,
    pub bg: TextColor,
    pub modifier: u16,
}

/// What the cells of a buffer hold, by column and row.
pub type Grid = Map<(int, int), CellView>;

/// A cell with one character in no particular style.
pub open spec fn plain_cell(c: char) -> CellView {
    CellView { symbol: seq![c], fg: TextColor::Reset, bg: TextColor::Reset, modifier: 0 }
}

/// A cell after a change of style.
pub open spec fn restyled(cell: CellView, style: TextStyle) -> CellView {
    CellView {
        symbol: cell.symbol,
        fg: match style.fg {
            Some(color) => color,
            None => cell.fg,
        },
        bg: match style.bg {
            Some(color) => color,
            None => cell.bg,
        },
        modifier: (cell.modifier | style.add_modifier) & !style.sub_modifier,
    }
}

/// Every cell of the rectangle is one of the grid's.
pub open spec fn covers(grid: Grid, area: Rect) -> bool {
    forall|x: int, y: int| #[trigger] area.holds(x, y) ==> grid.dom().contains((x, y))
}

/// The grids have the same cells, and differ at most inside the rectangle.
pub open spec fn differ_only_in(before: Grid, after: Grid, area: Rect) -> bool {
    &&& after.dom() == before.dom()
    &&& forall|p: (int, int)| #[trigger]
        before.dom().contains(p) && !area.holds(p.0, p.1) ==> after[p] == before[p]
}

/// The grid with every cell of the rectangle blank.
pub open spec fn cleared(grid: Grid, area: Rect) -> Grid {
    grid.union_prefer_right(
        Map::new(
            |p: (int, int)| grid.dom().contains(p) && area.holds(p.0, p.1),
            |p: (int, int)| plain_cell(' '),
        ),
    )
}

/// A grid of blank cells.
pub open spec fn blank_grid(width: u16, height: u16) -> Grid {
    Map::new(
        |p: (int, int)| 0 <= p.0 < width && 0 <= p.1 < height,
        |p: (int, int)| plain_cell(' '),
    )
}

/// The screen buffer that `ratatui` draws into.
#[verifier::external_type_specification]
#[verifier::external_body]
pub struct ExBuffer(ratatui::buffer::Buffer);

/// What a `ratatui` buffer holds: for each position in its area the symbol, the two colors and the
/// modifier bits of the cell.
pub uninterp spec fn buffer_cells(buffer: Buffer) -> Map<(int, int), CellView>;

/// The color that `ratatui` draws with.
#[verifier::external_type_specification]
#[verifier::external_body]
pub struct ExColor(ratatui::style::Color);

/// The color that a `ratatui` color is.
pub uninterp spec fn color_of(color: ratatui::style::Color) -> TextColor;

/// The color that an optional `ratatui` color is.
pub open spec fn opt_color(color: Option<ratatui::style::Color>) -> Option<TextColor> {
    match color {
        Some(color) => Some(color_of(color)),
        None => None,
    }
}

/// The line of styled text that `ratatui` draws.
#[verifier::external_type_specification]
#[verifier::external_body]
pub struct ExLine<'a>(ratatui::text::Line<'a>);

/// What a `ratatui` line holds: its spans in order, and its own style and alignment.
pub uninterp spec fn line_of(line: ratatui::text::Line<'static>) -> LineView;

/// What a sequence of `ratatui` lines holds.
pub open spec fn lines_of(lines: Seq<ratatui::text::Line<'static>>) -> Seq<LineView> {
    lines.map_values(|l: ratatui::text::Line<'static>| line_of(l))
}

/// The grid after `ratatui` has drawn a span into an area of it.
pub uninterp spec fn span_painted(
    span: SpanView,
    area: Rect,
    before: Map<(int, int), CellView>,
) -> Map<(int, int), CellView>;

/// The grid after `ratatui` has drawn lines, cut off at the right, into an area of it.
pub uninterp spec fn lines_painted(
    lines: Seq<LineView>,
    area: Rect,
    before: Map<(int, int), CellView>,
) -> Map<(int, int), CellView>;

/// The grid after `ratatui` has drawn lines in a style at its top left corner, wrapped at words with
/// leading spaces kept, into an area of the given width and height.
pub uninterp spec fn lines_wrapped(
    lines: Seq<LineView>,
    style: TextStyle,
    width: u16,
    height: u16,
    before: Map<(int, int), CellView>,
) -> Map<(int, int), CellView>;

/// The number of rows that lines, given by the texts of their spans, take at a width when `ratatui`
/// wraps them at words and keeps leading spaces.
pub uninterp spec fn wrapped_rows(lines: Seq<Seq<Seq<char>>>, width: u16) -> nat;

/// The widest area in which `ratatui` adds up column counts of text without leaving `u16`.
pub const MAX_COLUMNS: u16 = 16_383;

/// The number of characters up to which the columns of a text, four for a character at the most, fit in
/// `u16`.
pub const MAX_TEXT: usize = 16_383;

/// The columns of each span fit in `u16`.
pub open spec fn countable(line: LineView) -> bool {
    forall|i: int|
        0 <= i < line.spans.len() ==> (#[trigger] line.spans[i]).content.len() <= MAX_TEXT
}

/// `ratatui::style::Color`: the variant of the same name, with the same numbers.
#[verifier::external_body]
fn terminal_color(color: TextColor) -> (r: ratatui::style::Color)
    ensures
        color_of(r) == color,
{
    match color {
        TextColor::Reset => T::Reset, TextColor::Black => T::Black,
        TextColor::Red => T::Red, TextColor::Green => T::Green,
        TextColor::Yellow => T::Yellow, TextColor::Blue => T::Blue,
        TextColor::Magenta => T::Magenta, TextColor::Cyan => T::Cyan,
        TextColor::Gray => T::Gray, TextColor::DarkGray => T::DarkGray,
        TextColor::LightRed => T::LightRed, TextColor::LightGreen => T::LightGreen,
        TextColor::LightYellow => T::LightYellow, TextColor::LightBlue => T::LightBlue,
        TextColor::LightMagenta => T::LightMagenta, TextColor::LightCyan => T::LightCyan,
        TextColor::White => T::White, TextColor::Indexed(n) => T::Indexed(n),
        TextColor::Rgb(r, g, b) => T::Rgb(r, g, b),
    }
}

/// The optional `ratatui` color of an optional color.
fn opt_terminal_color(color: Option<TextColor>) -> (r: Option<ratatui::style::Color>)
    ensures
        opt_color(r) == color,
{
    match color {
        Some(color) => Some(terminal_color(color)),
        None => None,
    }
}

/// The style change of the given parts.
pub open spec fn style_of(
    fg: Option<ratatui::style::Color>,
    bg: Option<ratatui::style::Color>,
    add: u16,
    sub: u16,
) -> TextStyle {
    TextStyle { fg: opt_color(fg), bg: opt_color(bg), add_modifier: add, sub_modifier: sub }
}

/// `ratatui::text::Line::default`, its `style` setter, and its `alignment` setter where an alignment is
/// given: a line without spans, in the style of the given colors and modifier bits.
#[verifier::external_body]
fn new_line(
    fg: Option<ratatui::style::Color>,
    bg: Option<ratatui::style::Color>,
    add: u16,
    sub: u16,
    alignment: Option<TextAlignment>,
) -> (r: ratatui::text::Line<'static>)
    ensures
        line_of(r) == (LineView {
            spans: Seq::empty(),
            style: style_of(fg, bg, add, sub),
            alignment,
        }),
{
    let add_modifier = Modifier::from_bits_retain(add);
    let sub_modifier = Modifier::from_bits_retain(sub);
    let style = ratatui::style::Style { fg, bg, add_modifier, sub_modifier, ..Default::default() };
    let line = ratatui::text::Line::default().style(style);
    match alignment {
        None => line,
        Some(TextAlignment::Left) => line.alignment(Alignment::Left),
        Some(TextAlignment::Center) => line.alignment(Alignment::Center),
        Some(TextAlignment::Right) => line.alignment(Alignment::Right),
    }
}

/// `ratatui::text::Line::push_span`: appends a span of the given text, in the style of the given
/// colors and modifier bits.
#[verifier::external_body]
fn push_span(
    line: &mut ratatui::text::Line<'static>,
    content: &str,
    fg: Option<ratatui::style::Color>,
    bg: Option<ratatui::style::Color>,
    add: u16,
    sub: u16,
)
    ensures
        line_of(*final(line)) == (LineView {
            spans: line_of(*old(line)).spans.push(
                SpanView { content: content@, style: style_of(fg, bg, add, sub) },
            ),
            ..line_of(*old(line))
        }),
{
    let add_modifier = Modifier::from_bits_retain(add);
    let sub_modifier = Modifier::from_bits_retain(sub);
    let style = ratatui::style::Style { fg, bg, add_modifier, sub_modifier, ..Default::default() };
    line.push_span(ratatui::text::Span::styled(content.to_string(), style));
}

/// `ratatui`'s `WidgetRef::render_ref` of a `Span` of the given text, in the style of the given colors
/// and modifier bits. The span is drawn into the first row of the part of the area that lies in the
/// buffer; which symbol each cell there gets is given by its name only. There must be a column right of
/// the area, and the columns of the text must fit in `u16`.
#[verifier::external_body]
fn render_span(
    buffer: &mut Buffer,
    content: &str,
    fg: Option<ratatui::style::Color>,
    bg: Option<ratatui::style::Color>,
    add: u16,
    sub: u16,
    area: Rect,
)
    requires
        area.right_edge() < u16::MAX,
        content@.len() <= MAX_TEXT,
    ensures
        buffer_cells(*final(buffer)) == span_painted(
            SpanView { content: content@, style: style_of(fg, bg, add, sub) },
            area,
            buffer_cells(*old(buffer)),
        ),
        differ_only_in(buffer_cells(*old(buffer)), buffer_cells(*final(buffer)), area),
{
    let add_modifier = Modifier::from_bits_retain(add);
    let sub_modifier = Modifier::from_bits_retain(sub);
    let style = ratatui::style::Style { fg, bg, add_modifier, sub_modifier, ..Default::default() };
    let Rect { x, y, width, height } = area;
    let area = ratatui::layout::Rect { x, y, width, height };
    ratatui::text::Span::styled(content, style).render_ref(area, buffer);
}

/// `ratatui`'s `WidgetRef::render_ref` of a `Paragraph` of the given lines that is not wrapped: each
/// line is drawn into a row of its own, cut off at the right edge, and nothing outside the area is
/// touched; which symbol each cell gets is given by its name only. The area must lie in the buffer and
/// end inside of `u16`, and be no wider than the widths that `ratatui` can add up; the columns of each
/// span must fit in `u16`.
#[verifier::external_body]
fn render_lines(buffer: &mut Buffer, lines: Vec<ratatui::text::Line<'static>>, area: Rect)
    requires
        area.fits(),
        covers(buffer_cells(*old(buffer)), area),
        area.width <= MAX_COLUMNS,
        forall|i: int| 0 <= i < lines.len() ==> countable(line_of(#[trigger] lines@[i])),
    ensures
        buffer_cells(*final(buffer)) == lines_painted(
            lines_of(lines@),
            area,
            buffer_cells(*old(buffer)),
        ),
        differ_only_in(buffer_cells(*old(buffer)), buffer_cells(*final(buffer)), area),
{
    let Rect { x, y, width, height } = area;
    let area = ratatui::layout::Rect { x, y, width, height };
    ratatui::widgets::Paragraph::new(lines).render_ref(area, buffer);
}

/// `ratatui`'s `Widget::render` of a `Paragraph` of the given lines, wrapped at words with leading
/// spaces kept, in the style of the given colors and modifier bits, into the area of the given width
/// and height at the top left corner of the buffer. A line whose last word ends in a wide symbol may
/// reach beyond the width, but not beyond three times of it; nothing else outside the area is touched.
/// Which symbol each cell gets is given by its name only. The buffer must have room for such lines,
/// and the width must be one that `ratatui` can add up.
#[verifier::external_body]
fn render_wrapped(
    buffer: &mut Buffer,
    lines: Vec<ratatui::text::Line<'static>>,
    fg: Option<ratatui::style::Color>,
    bg: Option<ratatui::style::Color>,
    add: u16,
    sub: u16,
    width: u16,
    height: u16,
)
    requires
        width <= MAX_COLUMNS,
        covers(
            buffer_cells(*old(buffer)),
            Rect { x: 0, y: 0, width: (3 * width) as u16, height },
        ),
    ensures
        buffer_cells(*final(buffer)) == lines_wrapped(
            lines_of(lines@),
            style_of(fg, bg, add, sub),
            width,
            height,
            buffer_cells(*old(buffer)),
        ),
        differ_only_in(
            buffer_cells(*old(buffer)),
            buffer_cells(*final(buffer)),
            Rect { x: 0, y: 0, width: (3 * width) as u16, height },
        ),
{
    let add_modifier = Modifier::from_bits_retain(add);
    let sub_modifier = Modifier::from_bits_retain(sub);
    let style = ratatui::style::Style { fg, bg, add_modifier, sub_modifier, ..Default::default() };
    let area = ratatui::layout::Rect { x: 0, y: 0, width, height };
    let wrap = ratatui::widgets::Wrap { trim: false };
    ratatui::widgets::Paragraph::new(lines).style(style).wrap(wrap).render(area, buffer);
}

/// The texts of the spans of each line.
pub open spec fn span_texts(lines: Seq<LineView>) -> Seq<Seq<Seq<char>>> {
    lines.map_values(|l: LineView| l.spans.map_values(|s: SpanView| s.content))
}

/// `ratatui`'s `Paragraph::line_count` of the given lines, wrapped at words with leading spaces kept:
/// zero at no width at all, and otherwise given by its name only. The width must be one that
/// `ratatui` can add up.
#[verifier::external_body]
pub(crate) fn wrapped_row_count(lines: &Vec<TextLine>, width: u16) -> (rows: usize)
    requires
        width <= MAX_COLUMNS,
    ensures
        rows == wrapped_rows(span_texts(crate::styled::line_views(lines@)), width),
        width == 0 ==> rows == 0,
{
    let lines = lines.iter().map(|line| {
        let spans = line.spans.iter().map(|span| ratatui::text::Span::raw(span.content.as_str()));
        ratatui::text::Line::from(spans.collect::<Vec<_>>())
    });
    ratatui::widgets::Paragraph::new(lines.collect::<Vec<_>>())
        .wrap(ratatui::widgets::Wrap { trim: false })
        .line_count(width)
}

/// `ratatui`'s `Clear` widget: makes every cell of the area blank. The area must lie in the buffer.
#[verifier::external_body]
pub(crate) fn clear_area(buffer: &mut Buffer, area: Rect)
    requires
        covers(buffer_cells(*old(buffer)), area),
    ensures
        buffer_cells(*final(buffer)) == cleared(buffer_cells(*old(buffer)), area),
{
    let Rect { x, y, width, height } = area;
    ratatui::widgets::Clear.render(ratatui::layout::Rect { x, y, width, height }, buffer);
}

/// `Buffer::empty` of the rectangle at the origin: blank cells.
#[verifier::external_body]
pub(crate) fn blank_buffer(width: u16, height: u16) -> (buffer: Buffer)
    ensures
        buffer_cells(buffer) == blank_grid(width, height),
{
    Buffer::empty(ratatui::layout::Rect { x: 0, y: 0, width, height })
}

/// Assignment of `Cell::from` of a character through `Buffer`'s `IndexMut`. The position must lie in
/// the buffer.
#[verifier::external_body]
pub(crate) fn set_cell(buffer: &mut Buffer, x: u16, y: u16, c: char)
    requires
        buffer_cells(*old(buffer)).dom().contains((x as int, y as int)),
    ensures
        buffer_cells(*final(buffer)) == buffer_cells(*old(buffer)).insert(
            (x as int, y as int),
            plain_cell(c),
        ),
{
    buffer[(x, y)] = ratatui::buffer::Cell::from(c);
}

/// Assignment of a clone of another buffer's cell through `Buffer`'s `Index` and `IndexMut`. Both
/// positions must lie in their buffers.
#[verifier::external_body]
pub(crate) fn copy_cell(
    buffer: &mut Buffer,
    x: u16,
    y: u16,
    source: &Buffer,
    source_x: u16,
    source_y: u16,
)
    requires
        buffer_cells(*old(buffer)).dom().contains((x as int, y as int)),
        buffer_cells(*source).dom().contains((source_x as int, source_y as int)),
    ensures
        buffer_cells(*final(buffer)) == buffer_cells(*old(buffer)).insert(
            (x as int, y as int),
            buffer_cells(*source)[(source_x as int, source_y as int)],
        ),
{
    buffer[(x, y)] = source[(source_x, source_y)].clone();
}

/// `Cell::set_style` through `Buffer`'s `IndexMut`, of the style of the given colors and modifier
/// bits. The position must lie in the buffer.
#[verifier::external_body]
fn set_cell_style(
    buffer: &mut Buffer,
    x: u16,
    y: u16,
    fg: Option<ratatui::style::Color>,
    bg: Option<ratatui::style::Color>,
    add: u16,
    sub: u16,
)
    requires
        buffer_cells(*old(buffer)).dom().contains((x as int, y as int)),
    ensures
        buffer_cells(*final(buffer)) == buffer_cells(*old(buffer)).insert(
            (x as int, y as int),
            restyled(
                buffer_cells(*old(buffer))[(x as int, y as int)],
                style_of(fg, bg, add, sub),
            ),
        ),
{
    let add_modifier = Modifier::from_bits_retain(add);
    let sub_modifier = Modifier::from_bits_retain(sub);
    let style = ratatui::style::Style { fg, bg, add_modifier, sub_modifier, ..Default::default() };
    buffer[(x, y)].set_style(style);
}

/// Changes the style of one cell.
pub fn restyle_cell(buffer: &mut Buffer, x: u16, y: u16, style: TextStyle)
    requires
        buffer_cells(*old(buffer)).dom().contains((x as int, y as int)),
    ensures
        buffer_cells(*final(buffer)) == buffer_cells(*old(buffer)).insert(
            (x as int, y as int),
            restyled(buffer_cells(*old(buffer))[(x as int, y as int)], style),
        ),
{
    let fg = opt_terminal_color(style.fg);
    let bg = opt_terminal_color(style.bg);
    set_cell_style(buffer, x, y, fg, bg, style.add_modifier, style.sub_modifier);
}

/// Draws one span into the first row of an area.
pub fn draw_span(buffer: &mut Buffer, content: &str, style: TextStyle, area: Rect)
    requires
        area.right_edge() < u16::MAX,
        content@.len() <= MAX_TEXT,
    ensures
        buffer_cells(*final(buffer)) == span_painted(
            SpanView { content: content@, style },
            area,
            buffer_cells(*old(buffer)),
        ),
        differ_only_in(buffer_cells(*old(buffer)), buffer_cells(*final(buffer)), area),
{
    let fg = opt_terminal_color(style.fg);
    let bg = opt_terminal_color(style.bg);
    render_span(buffer, content, fg, bg, style.add_modifier, style.sub_modifier, area);
}

/// The `ratatui` line of a line.
fn terminal_line(line: &TextLine) -> (drawn: ratatui::text::Line<'static>)
    ensures
        line_of(drawn) == line@,
{
    let style = line.style;
    let mut drawn = new_line(
        opt_terminal_color(style.fg),
        opt_terminal_color(style.bg),
        style.add_modifier,
        style.sub_modifier,
        line.alignment,
    );
    let mut i: usize = 0;
    assert(line_of(drawn).spans =~= line@.spans.take(0));
    while i < line.spans.len()
        invariant
            i <= line.spans.len(),
            line_of(drawn).spans == line@.spans.take(i as int),
            line_of(drawn).style == line@.style,
            line_of(drawn).alignment == line@.alignment,
        decreases line.spans.len() - i,
    {
        let style = line.spans[i].style;
        push_span(
            &mut drawn,
            line.spans[i].content.as_str(),
            opt_terminal_color(style.fg),
            opt_terminal_color(style.bg),
            style.add_modifier,
            style.sub_modifier,
        );
        i += 1;
        assert(line@.spans.take(i as int) =~= line@.spans.take(i - 1).push(line@.spans[i - 1]));
    }
    assert(line@.spans.take(i as int) =~= line@.spans);
    drawn
}

/// Draws one line into the first row of an area, cut off at its right edge.
pub fn draw_line(buffer: &mut Buffer, line: &TextLine, area: Rect)
    requires
        area.fits(),
        countable(line@),
        covers(buffer_cells(*old(buffer)), area),
        area.width <= MAX_COLUMNS,
    ensures
        buffer_cells(*final(buffer)) == lines_painted(
            seq![line@],
            area,
            buffer_cells(*old(buffer)),
        ),
        differ_only_in(buffer_cells(*old(buffer)), buffer_cells(*final(buffer)), area),
{
    let mut lines: Vec<ratatui::text::Line<'static>> = Vec::new();
    lines.push(terminal_line(line));
    assert(lines_of(lines@) =~= seq![line@]);
    render_lines(buffer, lines, area);
}

/// The grid with some columns and rows of another one copied to a place in it.
pub open spec fn copied(
    before: Grid,
    to: (int, int),
    columns: int,
    rows: int,
    source: Grid,
    from: (int, int),
) -> Grid {
    before.union_prefer_right(
        Map::new(
            |p: (int, int)| to.0 <= p.0 < to.0 + columns && to.1 <= p.1 < to.1 + rows,
            |p: (int, int)| source[(p.0 - to.0 + from.0, p.1 - to.1 + from.1)],
        ),
    )
}

/// Copies some columns and rows of a buffer to a place in another one.
pub fn copy_cells(buffer: &mut Buffer, to: Rect, source: &Buffer, from_x: u16, from_y: u16)
    requires
        to.fits(),
        covers(buffer_cells(*old(buffer)), to),
        from_x + to.width <= u16::MAX,
        from_y + to.height <= u16::MAX,
        covers(
            buffer_cells(*source),
            Rect { x: from_x, y: from_y, width: to.width, height: to.height },
        ),
    ensures
        buffer_cells(*final(buffer)) == copied(
            buffer_cells(*old(buffer)),
            (to.x as int, to.y as int),
            to.width as int,
            to.height as int,
            buffer_cells(*source),
            (from_x as int, from_y as int),
        ),
        buffer_cells(*final(buffer)).dom() == buffer_cells(*old(buffer)).dom(),
{
    let ghost before = buffer_cells(*buffer);
    let ghost cells = buffer_cells(*source);
    let ghost from = Rect { x: from_x, y: from_y, width: to.width, height: to.height };
    let ghost corner = (to.x as int, to.y as int);
    let ghost origin = (from_x as int, from_y as int);
    let mut y: u16 = 0;
    assert(copied(before, corner, to.width as int, 0, cells, origin) =~= before);
    while y < to.height
        invariant
            y <= to.height,
            to.fits(),
            from_x + to.width <= u16::MAX,
            from_y + to.height <= u16::MAX,
            from == (Rect { x: from_x, y: from_y, width: to.width, height: to.height }),
            corner == (to.x as int, to.y as int),
            origin == (from_x as int, from_y as int),
            cells == buffer_cells(*source),
            covers(cells, from),
            covers(before, to),
            buffer_cells(*buffer) == copied(
                before,
                corner,
                to.width as int,
                y as int,
                cells,
                origin,
            ),
        decreases to.height - y,
    {
        let ghost row_before = buffer_cells(*buffer);
        let mut x: u16 = 0;
        while x < to.width
            invariant
                x <= to.width,
                y < to.height,
                to.fits(),
                from_x + to.width <= u16::MAX,
                from_y + to.height <= u16::MAX,
                from == (Rect { x: from_x, y: from_y, width: to.width, height: to.height }),
                cells == buffer_cells(*source),
                covers(cells, from),
                covers(before, to),
                row_before == copied(
                    before,
                    (to.x as int, to.y as int),
                    to.width as int,
                    y as int,
                    cells,
                    (from_x as int, from_y as int),
                ),
                buffer_cells(*buffer) == row_before.union_prefer_right(
                    Map::new(
                        |p: (int, int)| to.x <= p.0 < to.x + x && p.1 == to.y + y,
                        |p: (int, int)| cells[(p.0 - to.x + from_x, (from_y + y) as int)],
                    ),
                ),
            decreases to.width - x,
        {
            assert(to.holds(to.x + x, to.y + y));
            assert(from.holds(from_x + x, from_y + y));
            copy_cell(buffer, to.x + x, to.y + y, source, from_x + x, from_y + y);
            x += 1;
            assert(buffer_cells(*buffer) =~= row_before.union_prefer_right(
                Map::new(
                    |p: (int, int)| to.x <= p.0 < to.x + x && p.1 == to.y + y,
                    |p: (int, int)| cells[(p.0 - to.x + from_x, (from_y + y) as int)],
                ),
            ));
        }
        y += 1;
        assert(buffer_cells(*buffer) =~= copied(
            before,
            corner,
            to.width as int,
            y as int,
            cells,
            origin,
        ));
    }
    assert(buffer_cells(*buffer).dom() =~= before.dom()) by {
        assert forall|p: (int, int)|
            #![auto]
            buffer_cells(*buffer).dom().contains(p) implies before.dom().contains(p) by {
            if to.x <= p.0 < to.x + to.width && to.y <= p.1 < to.y + to.height {
                assert(to.holds(p.0, p.1));
            }
        }
    }
}

/// The cells of a strip that starts at the corner of an area and is three times as wide, moved to the
/// origin; blank where the strip leaves the grid.
pub open spec fn paragraph_ground(area: Rect, before: Grid) -> Grid {
    Map::new(
        |p: (int, int)| 0 <= p.0 < 3 * area.width && 0 <= p.1 < area.height,
        |p: (int, int)|
            if before.dom().contains((area.x + p.0, area.y + p.1)) {
                before[(area.x + p.0, area.y + p.1)]
            } else {
                plain_cell(' ')
            },
    )
}

/// The grid after a paragraph has been drawn into an area of it: lines in a style, wrapped at words
/// with leading spaces kept. A line that reaches beyond the area is cut off at the edge of the grid.
pub open spec fn paragraph_painted(
    lines: Seq<LineView>,
    style: TextStyle,
    area: Rect,
    before: Grid,
) -> Grid {
    let drawn = lines_wrapped(
        lines,
        style,
        area.width,
        area.height,
        paragraph_ground(area, before),
    );
    Map::new(
        |p: (int, int)| before.dom().contains(p),
        |p: (int, int)|
            if area.x <= p.0 < area.x + 3 * area.width && area.y <= p.1 < area.y + area.height {
                drawn[(p.0 - area.x, p.1 - area.y)]
            } else {
                before[p]
            },
    )
}

/// `Buffer::area`: the rectangle whose positions are those of the buffer's cells.
#[verifier::external_body]
fn buffer_area(buffer: &Buffer) -> (area: Rect)
    ensures
        forall|x: int, y: int|
            #[trigger] area.holds(x, y) <==> buffer_cells(*buffer).dom().contains((x, y)),
{
    let ratatui::layout::Rect { x, y, width, height } = *buffer.area();
    Rect { x, y, width, height }
}

/// The number of columns, from the left edge of an area that lies in the buffer on, up to three times
/// its width and to the edge of the buffer.
fn paragraph_reach(buffer: &Buffer, area: Rect) -> (reach: u16)
    requires
        area.fits(),
        area.width <= MAX_COLUMNS,
        covers(buffer_cells(*buffer), area),
    ensures
        area.x + reach <= u16::MAX,
        reach <= 3 * area.width,
        forall|x: int, y: int|
            area.x <= x < area.x + 3 * area.width && area.y <= y < area.y + area.height ==> (
            #[trigger] buffer_cells(*buffer).dom().contains((x, y)) <==> x < area.x + reach),
{
    let whole = buffer_area(buffer);
    let room: u16 = 3 * area.width;
    let edge = whole.right();
    let reach: u16 = if edge <= area.x {
        0
    } else if edge - area.x < room {
        edge - area.x
    } else {
        room
    };
    proof {
        let cells = buffer_cells(*buffer);
        assert forall|x: int, y: int|
            area.x <= x < area.x + 3 * area.width && area.y <= y < area.y + area.height implies (
        #[trigger] cells.dom().contains((x, y)) <==> x < area.x + reach) by {
            assert(area.holds(area.x as int, y));
            assert(whole.holds(area.x as int, y));
            assert(whole.holds(x, y) <==> cells.dom().contains((x, y)));
        }
    }
    reach
}

/// Draws a paragraph into an area: lines in a style, wrapped at words with leading spaces kept. A line
/// that reaches beyond the area is cut off at the edge of the buffer.
pub fn draw_paragraph(buffer: &mut Buffer, lines: &Vec<TextLine>, style: TextStyle, area: Rect)
    requires
        area.fits(),
        area.width <= MAX_COLUMNS,
        covers(buffer_cells(*old(buffer)), area),
    ensures
        buffer_cells(*final(buffer)) == paragraph_painted(
            crate::styled::line_views(lines@),
            style,
            area,
            buffer_cells(*old(buffer)),
        ),
        buffer_cells(*final(buffer)).dom() == buffer_cells(*old(buffer)).dom(),
{
    let ghost before = buffer_cells(*buffer);
    let ghost views = crate::styled::line_views(lines@);
    let mut drawn: Vec<ratatui::text::Line<'static>> = Vec::new();
    let mut i: usize = 0;
    while i < lines.len()
        invariant
            views == crate::styled::line_views(lines@),
            i <= lines.len(),
            drawn.len() == i,
            forall|j: int| 0 <= j < i ==> line_of(#[trigger] drawn@[j]) == views[j],
        decreases lines.len() - i,
    {
        drawn.push(terminal_line(&lines[i]));
        i += 1;
    }
    assert(lines_of(drawn@) =~= views);
    let room: u16 = 3 * area.width;
    let reach = paragraph_reach(buffer, area);
    let mut ground = blank_buffer(room, area.height);
    let ghost whole = Rect { x: 0, y: 0, width: room, height: area.height };
    let inner = Rect { x: 0, y: 0, width: reach, height: area.height };
    let strip = Rect { x: area.x, y: area.y, width: reach, height: area.height };
    assert(covers(buffer_cells(ground), inner)) by {
        assert forall|x: int, y: int| #[trigger] inner.holds(x, y) implies buffer_cells(
            ground,
        ).dom().contains((x, y)) by {}
    }
    assert(covers(before, strip)) by {
        assert forall|x: int, y: int| #[trigger] strip.holds(x, y) implies before.dom().contains(
            (x, y),
        ) by {}
    }
    copy_cells(&mut ground, inner, buffer, area.x, area.y);
    assert(buffer_cells(ground) =~= paragraph_ground(area, before)) by {
        assert forall|p: (int, int)| 0 <= p.0 < room && 0 <= p.1 < area.height implies (
        #[trigger] before.dom().contains((area.x + p.0, area.y + p.1)) <==> p.0 < reach) by {}
    }
    assert(covers(buffer_cells(ground), whole)) by {
        assert forall|x: int, y: int| #[trigger] whole.holds(x, y) implies buffer_cells(
            ground,
        ).dom().contains((x, y)) by {}
    }
    render_wrapped(
        &mut ground,
        drawn,
        opt_terminal_color(style.fg),
        opt_terminal_color(style.bg),
        style.add_modifier,
        style.sub_modifier,
        area.width,
        area.height,
    );
    assert(covers(buffer_cells(ground), inner)) by {
        assert forall|x: int, y: int| #[trigger] inner.holds(x, y) implies buffer_cells(
            ground,
        ).dom().contains((x, y)) by {
            assert(whole.holds(x, y));
        }
    }
    copy_cells(buffer, strip, &ground, 0, 0);
    assert(buffer_cells(*buffer) =~= paragraph_painted(views, style, area, before));
}

} // verus!
