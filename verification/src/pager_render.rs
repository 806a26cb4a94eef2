//! Drawing of the pager: the window of rows, the header and the bottom bar.

use ratatui::buffer::Buffer;
use vstd::prelude::*;

use crate::canvas::{self, Grid};
use crate::geometry::Rect;
use crate::pager::{self, PagerView};
use crate::renderable::Renderable;
use crate::styled::{SpanView, TextStyle, DIM};

verus! {

/// The rows that are drawn of a renderable of which the first rows are scrolled away.
pub open spec fn tall_rows<R: Renderable>(model: R::Model, area: Rect, offset: u16) -> u16 {
    crate::geometry::lesser(
        R::height_of(model, area.width) as int,
        area.height + offset,
    ) as u16
}

/// The rows that remain of it in the area.
pub open spec fn remaining_rows<R: Renderable>(model: R::Model, area: Rect, offset: u16) -> int {
    crate::geometry::lesser(
        area.height as int,
        crate::geometry::monus(tall_rows::<R>(model, area, offset) as int, offset as int),
    )
}

/// The grid with part of another one copied into an area: `columns` columns and `rows` rows, from
/// the first column and the row `offset` on.
pub open spec fn patched(
    before: Grid,
    area: Rect,
    columns: int,
    rows: int,
    source: Grid,
    offset: int,
) -> Grid {
    canvas::copied(before, (area.x as int, area.y as int), columns, rows, source, (0, offset))
}

/// The grid after a renderable of which the first rows are scrolled away has been drawn at the top of
/// an area: it is drawn on a blank grid of its own, and the rows that remain are copied.
pub open spec fn offset_painted<R: Renderable>(
    model: R::Model,
    area: Rect,
    offset: u16,
    before: Grid,
) -> Grid {
    let rows = tall_rows::<R>(model, area, offset);
    let tall = R::painted(
        model,
        Rect { x: 0, y: 0, width: area.width, height: rows },
        canvas::blank_grid(area.width, rows),
    );
    patched(
        before,
        area,
        area.width as int,
        remaining_rows::<R>(model, area, offset),
        tall,
        offset as int,
    )
}

/// A renderable after a drawing of the pager at a width: measured once if the pager was laid out anew,
/// and once more if its first rows are scrolled away, with the rows worked out where they are not
/// remembered; ready if it is visible; and computed, once, where it has become ready.
pub open spec fn redrawn<R: Renderable>(
    before: R,
    after: R,
    width: u16,
    anew: bool,
    visible: bool,
    cut: bool,
) -> bool {
    &&& after.measured() == before.measured() + if anew {
        1int
    } else {
        0
    } + if cut {
        1int
    } else {
        0
    }
    &&& before.remembers(width) || (R::is_cache() && (anew || cut)) ==> after.remembers(width)
    &&& before.remembers(width) ==> after.worked_out() == before.worked_out()
    &&& R::is_cache() && !before.remembers(width) ==> after.worked_out() == before.worked_out()
        + if anew || cut {
        1int
    } else {
        0
    }
    &&& visible ==> after.ready(width)
    &&& before.ready(width) ==> after.ready(width)
    &&& after.computed() == before.computed() + if after.ready(width) && !before.ready(width) {
        1int
    } else {
        0
    }
    &&& !anew && !visible ==> after == before
}

/// Draws a renderable of which the first rows are scrolled away. Returns the rows drawn.
pub fn render_offset_content<R: Renderable>(
    area: Rect,
    buffer: &mut Buffer,
    renderable: &mut R,
    scroll_offset: u16,
) -> (rows: u16)
    requires
        old(renderable).well_formed(),
        R::takes(old(renderable).model(), area.width),
        area.fits(),
        canvas::covers(canvas::buffer_cells(*old(buffer)), area),
    ensures
        rows == remaining_rows::<R>(old(renderable).model(), area, scroll_offset),
        canvas::buffer_cells(*final(buffer)) == offset_painted::<R>(
            old(renderable).model(),
            area,
            scroll_offset,
            canvas::buffer_cells(*old(buffer)),
        ),
        canvas::buffer_cells(*final(buffer)).dom() == canvas::buffer_cells(*old(buffer)).dom(),
        final(renderable).model() == old(renderable).model(),
        final(renderable).well_formed(),
        redrawn(*old(renderable), *final(renderable), area.width, false, true, true),
{
    let ghost before = canvas::buffer_cells(*buffer);
    let height = renderable.desired_height(area.width);
    let limit = area.height.saturating_add(scroll_offset);
    let tall_height = if height <= limit {
        height
    } else {
        limit
    };
    let mut tall_buffer = canvas::blank_buffer(area.width, tall_height);
    let tall_area = Rect { x: 0, y: 0, width: area.width, height: tall_height };
    renderable.render(tall_area, &mut tall_buffer);
    let ghost tall = canvas::buffer_cells(tall_buffer);
    let rest = tall_height.saturating_sub(scroll_offset);
    let copy_height = if area.height <= rest {
        area.height
    } else {
        rest
    };
    let target = Rect { x: area.x, y: area.y, width: area.width, height: copy_height };
    if copy_height == 0 {
        assert(patched(before, area, area.width as int, 0, tall, scroll_offset as int) =~= before);
        return 0;
    }
    assert(canvas::covers(before, target)) by {
        assert forall|x: int, y: int| #[trigger] target.holds(x, y) implies before.dom().contains(
            (x, y),
        ) by {
            assert(area.holds(x, y));
        }
    }
    canvas::copy_cells(buffer, target, &tall_buffer, 0, scroll_offset);
    copy_height
}

/// The row below the window that starts at row `top`.
pub open spec fn window_bottom(area: Rect, top: int) -> int {
    crate::geometry::lesser(top + area.height, usize::MAX as int)
}

/// Whether a renderable has a row in the window, or starts in it.
pub open spec fn chunk_visible<R: Renderable>(
    shown: Seq<R::Model>,
    area: Rect,
    top: int,
    index: nat,
) -> bool {
    &&& pager::start_row::<R>(shown, area.width, index + 1) > top
    &&& pager::start_row::<R>(shown, area.width, index) < window_bottom(area, top)
}

/// Whether a renderable has rows in the window, and rows above it.
pub open spec fn chunk_cut<R: Renderable>(
    shown: Seq<R::Model>,
    area: Rect,
    top: int,
    index: nat,
) -> bool {
    &&& chunk_visible::<R>(shown, area, top, index)
    &&& pager::start_row::<R>(shown, area.width, index) < top
}

/// The part of the area in which a renderable is drawn that starts in the window at row `start`.
pub open spec fn chunk_area(area: Rect, top: int, start: int, height: u16) -> Rect {
    Rect {
        x: area.x,
        y: (area.y + (start - top)) as u16,
        width: area.width,
        height: crate::geometry::lesser(height as int, area.height - (start - top)) as u16,
    }
}

/// The grid after one renderable has been drawn where the window shows it.
pub open spec fn chunk_painted<R: Renderable>(
    shown: Seq<R::Model>,
    area: Rect,
    top: int,
    index: nat,
    before: Grid,
) -> Grid {
    let start = pager::start_row::<R>(shown, area.width, index) as int;
    let model = shown[index as int];
    if !chunk_visible::<R>(shown, area, top, index) {
        before
    } else if start < top {
        offset_painted::<R>(
            model,
            area,
            crate::geometry::lesser(top - start, u16::MAX as int) as u16,
            before,
        )
    } else {
        R::painted(
            model,
            chunk_area(area, top, start, R::height_of(model, area.width)),
            before,
        )
    }
}

/// The row of the screen below one renderable, or the first row of the area where the window does
/// not show it.
pub open spec fn chunk_end<R: Renderable>(
    shown: Seq<R::Model>,
    area: Rect,
    top: int,
    index: nat,
) -> int {
    let start = pager::start_row::<R>(shown, area.width, index) as int;
    let model = shown[index as int];
    if !chunk_visible::<R>(shown, area, top, index) {
        area.y as int
    } else if start < top {
        area.y + remaining_rows::<R>(
            model,
            area,
            crate::geometry::lesser(top - start, u16::MAX as int) as u16,
        )
    } else {
        let drawn = chunk_area(area, top, start, R::height_of(model, area.width));
        drawn.y + drawn.height
    }
}

/// The grid after the first `count` renderables have been drawn where the window shows them.
pub open spec fn window_painted<R: Renderable>(
    shown: Seq<R::Model>,
    area: Rect,
    top: int,
    count: nat,
    before: Grid,
) -> Grid
    decreases count,
{
    if count == 0 {
        before
    } else {
        let index = (count - 1) as nat;
        chunk_painted::<R>(
            shown,
            area,
            top,
            index,
            window_painted::<R>(shown, area, top, index, before),
        )
    }
}

/// The row of the screen below the first `count` renderables.
pub open spec fn window_end<R: Renderable>(
    shown: Seq<R::Model>,
    area: Rect,
    top: int,
    count: nat,
) -> int
    decreases count,
{
    if count == 0 {
        area.y as int
    } else {
        let index = (count - 1) as nat;
        let before = window_end::<R>(shown, area, top, index);
        let end = chunk_end::<R>(shown, area, top, index);
        if end > before {
            end
        } else {
            before
        }
    }
}

/// The grid with the rows of an area from `row` on empty: a tilde in the first column.
pub open spec fn tilde_filled(before: Grid, area: Rect, row: int) -> Grid {
    before.union_prefer_right(
        Map::new(
            |p: (int, int)| area.x <= p.0 < area.right_edge() && row <= p.1 < area.bottom_edge(),
            |p: (int, int)|
                canvas::plain_cell(
                    if p.0 == area.x {
                        '~'
                    } else {
                        ' '
                    },
                ),
        ),
    )
}

/// The grid after the window has been drawn.
pub open spec fn content_painted<R: Renderable>(
    shown: Seq<R::Model>,
    area: Rect,
    top: int,
    before: Grid,
) -> Grid {
    tilde_filled(
        window_painted::<R>(shown, area, top, shown.len(), before),
        area,
        window_end::<R>(shown, area, top, shown.len()),
    )
}

/// Renderables that the window does not show change nothing.
proof fn lemma_window_skips<R: Renderable>(
    shown: Seq<R::Model>,
    area: Rect,
    top: int,
    from: nat,
    to: nat,
    before: Grid,
)
    requires
        from <= to,
        forall|i: nat|
            from <= i < to ==> !(#[trigger] chunk_visible::<R>(shown, area, top, i)),
    ensures
        window_painted::<R>(shown, area, top, to, before) == window_painted::<R>(
            shown,
            area,
            top,
            from,
            before,
        ),
        window_end::<R>(shown, area, top, to) == window_end::<R>(shown, area, top, from),
    decreases to - from,
{
    lemma_window_end_bounds::<R>(shown, area, top, from);
    if from < to {
        lemma_window_skips::<R>(shown, area, top, from, (to - 1) as nat, before);
        assert(!chunk_visible::<R>(shown, area, top, (to - 1) as nat));
    }
}

/// What is drawn ends inside the area.
proof fn lemma_window_end_bounds<R: Renderable>(
    shown: Seq<R::Model>,
    area: Rect,
    top: int,
    count: nat,
)
    ensures
        area.y <= window_end::<R>(shown, area, top, count),
        area.fits() && 0 <= top ==> window_end::<R>(shown, area, top, count) <= area.y + area.height,
    decreases count,
{
    if count > 0 {
        lemma_window_end_bounds::<R>(shown, area, top, (count - 1) as nat);
    }
}

impl<R: Renderable> PagerView<R> {
    /// The renderables are those of another pager after a drawing of the window into an area.
    pub open spec fn redrawn_from(self, before: Self, area: Rect, anew: bool) -> bool {
        &&& self.renderables.len() == before.renderables.len()
        &&& forall|i: int|
            0 <= i < self.renderables.len() ==> redrawn(
                before.renderables@[i],
                #[trigger] self.renderables@[i],
                area.width,
                anew,
                chunk_visible::<R>(before.shown(), area, self.scroll_offset as int, i as nat),
                chunk_cut::<R>(before.shown(), area, self.scroll_offset as int, i as nat),
            )
    }

    /// Draws the window into an area, and fills what is left of the area with tildes.
    pub fn render_content(&mut self, area: Rect, buffer: &mut Buffer)
        requires
            old(self).well_formed(),
            old(self).layout_width == Some(area.width),
            old(self).takes(area.width),
            area.fits(),
            canvas::covers(canvas::buffer_cells(*old(buffer)), area),
        ensures
            canvas::buffer_cells(*final(buffer)) == content_painted::<R>(
                old(self).shown(),
                area,
                old(self).scroll_offset as int,
                canvas::buffer_cells(*old(buffer)),
            ),
            canvas::buffer_cells(*final(buffer)).dom() == canvas::buffer_cells(*old(buffer)).dom(),
            final(self).well_formed(),
            final(self).layout_width == old(self).layout_width,
            final(self).same_view(*old(self)),
            final(self).redrawn_from(*old(self), area, false),
    {
        let ghost shown = self.shown();
        let ghost before = canvas::buffer_cells(*buffer);
        let viewport_top = self.scroll_offset;
        let viewport_bottom = viewport_top.saturating_add(area.height as usize);
        let mut drawn_bottom: u16 = area.y;
        proof {
            self.lemma_starts_sorted();
        }
        let first: usize = pager::partition_rows(
            &self.layout_starts,
            viewport_top,
            false,
        ).saturating_sub(1);
        let ghost top = viewport_top as int;
        let n: usize = self.renderables.len();
        proof {
            assert forall|i: nat| i < first implies !(#[trigger] chunk_visible::<R>(
                shown,
                area,
                top,
                i,
            )) by {
                assert(self.layout_starts@[first as int] < viewport_top);
                pager::lemma_rows_monotonic::<R>(shown, area.width, i + 1, first as nat);
            }
            lemma_window_skips::<R>(shown, area, top, 0, first as nat, before);
        }
        let mut index: usize = first;
        while index < n
            invariant_except_break
                window_painted::<R>(shown, area, top, index as nat, before)
                    == canvas::buffer_cells(*buffer),
                window_end::<R>(shown, area, top, index as nat) == drawn_bottom,
            invariant
                index <= n,
                n == self.renderables.len(),
                n == old(self).renderables.len(),
                forall|j: int|
                    0 <= j < index ==> redrawn(
                        old(self).renderables@[j],
                        #[trigger] self.renderables@[j],
                        area.width,
                        false,
                        chunk_visible::<R>(shown, area, top, j as nat),
                        chunk_cut::<R>(shown, area, top, j as nat),
                    ),
                forall|j: int|
                    index <= j < n ==> (#[trigger] self.renderables@[j]) == old(
                        self,
                    ).renderables@[j],
                shown == self.shown(),
                self.well_formed(),
                self.takes(area.width),
                self.layout_width == Some(area.width),
                self.scroll_offset == old(self).scroll_offset,
                self.same_frame(*old(self)),
                shown == old(self).shown(),
                area.fits(),
                top == viewport_top,
                viewport_bottom == window_bottom(area, top),
                canvas::covers(before, area),
                canvas::buffer_cells(*buffer).dom() == before.dom(),
            ensures
                window_painted::<R>(shown, area, top, n as nat, before) == canvas::buffer_cells(
                    *buffer,
                ),
                window_end::<R>(shown, area, top, n as nat) == drawn_bottom,
                forall|j: nat|
                    index <= j < n ==> !(#[trigger] chunk_visible::<R>(shown, area, top, j)),
            decreases n - index,
        {
            let start = self.layout_starts[index];
            let height = self.layout_heights[index];
            let bottom = start.saturating_add(height);
            assert(start == pager::start_row::<R>(shown, area.width, index as nat));
            assert(bottom == pager::start_row::<R>(shown, area.width, index as nat + 1));
            proof {
                lemma_window_end_bounds::<R>(shown, area, top, index as nat);
                lemma_window_end_bounds::<R>(shown, area, top, index as nat + 1);
            }
            if bottom <= viewport_top {
                index += 1;
                continue;
            }
            if start >= viewport_bottom {
                proof {
                    assert forall|i: nat| index <= i < n implies !(#[trigger] chunk_visible::<R>(
                        shown,
                        area,
                        top,
                        i,
                    )) by {
                        pager::lemma_rows_monotonic::<R>(shown, area.width, index as nat, i);
                    }
                    lemma_window_skips::<R>(shown, area, top, index as nat, n as nat, before);
                }
                break;
            }
            if start < viewport_top {
                let offset = (viewport_top - start) as u16;
                let drawn = render_offset_content(
                    area,
                    buffer,
                    &mut self.renderables[index],
                    offset,
                );
                let end: u16 = area.y + drawn;
                if end > drawn_bottom {
                    drawn_bottom = end;
                }
            } else {
                let window_row = (start - viewport_top) as u16;
                let room: u16 = area.height - window_row;
                let draw_height = if height <= room as usize {
                    height as u16
                } else {
                    room
                };
                let draw_area = Rect {
                    x: area.x,
                    y: area.y + window_row,
                    width: area.width,
                    height: draw_height,
                };
                assert(draw_area == chunk_area(area, top, start as int, height as u16));
                assert forall|x: int, y: int| #[trigger] draw_area.holds(x, y) implies before.dom().contains(
                    (x, y),
                ) by {
                    assert(area.holds(x, y));
                }
                self.renderables[index].render(draw_area, buffer);
                let end: u16 = draw_area.y + draw_area.height;
                if end > drawn_bottom {
                    drawn_bottom = end;
                }
            }
            assert(self.shown() =~= shown);
            index += 1;
        }
        assert(self.redrawn_from(*old(self), area, false));
        let ghost drawn = canvas::buffer_cells(*buffer);
        let bottom = area.bottom();
        let right = area.right();
        let mut y: u16 = drawn_bottom;
        proof {
            lemma_window_end_bounds::<R>(shown, area, top, n as nat);
        }
        assert(tilde_rows(drawn, area, drawn_bottom as int, y as int) =~= drawn);
        while y < bottom
            invariant
                drawn_bottom <= y <= bottom,
                area.y <= drawn_bottom,
                bottom == area.bottom_edge(),
                right == area.right_edge(),
                area.fits(),
                canvas::covers(drawn, area),
                canvas::buffer_cells(*buffer) == tilde_rows(
                    drawn,
                    area,
                    drawn_bottom as int,
                    y as int,
                ),
            decreases bottom - y,
        {
            if area.width > 0 {
                let ghost row_before = canvas::buffer_cells(*buffer);
                assert(area.holds(area.x as int, y as int));
                canvas::set_cell(buffer, area.x, y, '~');
                let mut x: u16 = area.x + 1;
                assert(canvas::buffer_cells(*buffer) =~= tilde_row(
                    row_before,
                    area,
                    y as int,
                    x as int,
                ));
                while x < right
                    invariant
                        area.x < x <= right,
                        area.y <= y < bottom,
                        bottom == area.bottom_edge(),
                        right == area.right_edge(),
                        canvas::covers(drawn, area),
                        row_before == tilde_rows(drawn, area, drawn_bottom as int, y as int),
                        canvas::buffer_cells(*buffer) == tilde_row(
                            row_before,
                            area,
                            y as int,
                            x as int,
                        ),
                    decreases right - x,
                {
                    assert(area.holds(x as int, y as int));
                    canvas::set_cell(buffer, x, y, ' ');
                    x += 1;
                    assert(canvas::buffer_cells(*buffer) =~= tilde_row(
                        row_before,
                        area,
                        y as int,
                        x as int,
                    ));
                }
            }
            y += 1;
            assert(canvas::buffer_cells(*buffer) =~= tilde_rows(
                drawn,
                area,
                drawn_bottom as int,
                y as int,
            ));
        }
        assert(canvas::buffer_cells(*buffer) =~= tilde_filled(drawn, area, drawn_bottom as int));
        assert(canvas::buffer_cells(*buffer).dom() =~= before.dom()) by {
            assert forall|p: (int, int)|
                #![auto]
                canvas::buffer_cells(*buffer).dom().contains(p) implies before.dom().contains(p) by {
                if area.x <= p.0 < area.right_edge() && area.y <= p.1 < area.bottom_edge() {
                    assert(area.holds(p.0, p.1));
                }
            }
        }
    }
}

/// The grid with some rows of an area empty.
spec fn tilde_rows(before: Grid, area: Rect, from: int, to: int) -> Grid {
    before.union_prefer_right(
        Map::new(
            |p: (int, int)| area.x <= p.0 < area.right_edge() && from <= p.1 < to,
            |p: (int, int)|
                canvas::plain_cell(
                    if p.0 == area.x {
                        '~'
                    } else {
                        ' '
                    },
                ),
        ),
    )
}

/// The grid with one row of an area empty up to a column.
spec fn tilde_row(before: Grid, area: Rect, row: int, to: int) -> Grid {
    before.union_prefer_right(
        Map::new(
            |p: (int, int)| area.x <= p.0 < to && p.1 == row,
            |p: (int, int)|
                canvas::plain_cell(
                    if p.0 == area.x {
                        '~'
                    } else {
                        ' '
                    },
                ),
        ),
    )
}

/// Whether the header and the bottom bar can be drawn into an area: there is a column right of it, and
/// the columns of the title and of the area can be counted.
pub open spec fn frame_fits(title: Seq<char>, area: Rect) -> bool {
    &&& area.right_edge() < u16::MAX
    &&& area.width <= canvas::MAX_COLUMNS
    &&& title.len() + 2 <= canvas::MAX_TEXT
}

/// A dim span.
pub open spec fn dim(content: Seq<char>) -> SpanView {
    SpanView { content, style: TextStyle::plain().adding(DIM) }
}

/// The grid after the header has been drawn: a row of slashes, and the title over its start.
pub open spec fn header_painted(title: Seq<char>, area: Rect, before: Grid) -> Grid {
    canvas::span_painted(
        dim("/ "@ + title),
        area,
        canvas::span_painted(
            dim(crate::strings::repeated("/ "@, (area.width / 2) as nat)),
            area,
            before,
        ),
    )
}

/// The scroll position and the last possible one, where there is anything to scroll.
pub open spec fn scroll_fraction(offset: usize, total: nat, height: u16) -> Option<(usize, usize)> {
    let max_scroll = crate::geometry::monus(total as int, height as int);
    if max_scroll == 0 {
        None
    } else {
        Some((crate::geometry::lesser(offset as int, max_scroll) as usize, max_scroll as usize))
    }
}

/// The text that tells how far the window is scrolled.
pub open spec fn percent_text(percent: u8) -> Seq<char> {
    " "@ + crate::strings::decimal(percent as nat) + "% "@
}

/// The row of the bottom bar.
pub open spec fn bar_area(full_area: Rect, content_area: Rect) -> Rect {
    Rect::clamped(full_area.x, content_area.bottom_edge() as u16, full_area.width, 1)
}

/// Whether the bottom bar has room for a percentage.
pub open spec fn bar_has_room(bar: Rect, percent: u8) -> bool {
    bar.x + bar.width >= percent_text(percent).len() + 1
}

/// The grid after the bottom bar has been drawn: a rule, and the percentage near its end.
pub open spec fn bar_painted(bar: Rect, percent: u8, before: Grid) -> Grid {
    let width = percent_text(percent).len();
    canvas::span_painted(
        dim(percent_text(percent)),
        Rect::clamped((bar.x + bar.width - width - 1) as u16, bar.y, width as u16, 1),
        canvas::span_painted(dim(crate::strings::repeated("─"@, bar.width as nat)), bar, before),
    )
}

/// A percentage takes at most three digits.
proof fn lemma_percent_text(percent: u8)
    ensures
        percent_text(percent).len() <= 6,
        percent_text(percent).len() == crate::strings::decimal(percent as nat).len() + 3,
{
    reveal_strlit(" ");
    reveal_strlit("% ");
    reveal_with_fuel(crate::strings::decimal, 4);
}

impl<R: Renderable> PagerView<R> {
    /// Draws the header: a row of slashes, and the title over its start.
    pub fn render_header(&self, area: Rect, buffer: &mut Buffer)
        requires
            frame_fits(self.title@, area),
        ensures
            canvas::buffer_cells(*final(buffer)) == header_painted(
                self.title@,
                area,
                canvas::buffer_cells(*old(buffer)),
            ),
            canvas::differ_only_in(
                canvas::buffer_cells(*old(buffer)),
                canvas::buffer_cells(*final(buffer)),
                area,
            ),
    {
        let mut rule = String::new();
        crate::strings::push_repeated(&mut rule, "/ ", (area.width / 2) as usize);
        assert(rule@ =~= crate::strings::repeated("/ "@, (area.width / 2) as nat));
        proof {
            reveal_strlit("/ ");
            crate::strings::lemma_repeated_len("/ "@, (area.width / 2) as nat);
        }
        let style = TextStyle::none().add(DIM);
        canvas::draw_span(buffer, rule.as_str(), style, area);
        let mut header = String::new();
        header.push_str("/ ");
        header.push_str(self.title.as_str());
        assert(header@ =~= "/ "@ + self.title@);
        canvas::draw_span(buffer, header.as_str(), style, area);
    }

    /// The scroll position and the last possible one, where there is anything to scroll.
    pub fn scroll_position(&self, content_area: Rect, total_len: usize) -> (position: Option<
        (usize, usize),
    >)
        ensures
            position == scroll_fraction(self.scroll_offset, total_len as nat, content_area.height),
    {
        let max_scroll = total_len.saturating_sub(content_area.height as usize);
        if max_scroll == 0 {
            None
        } else if self.scroll_offset <= max_scroll {
            Some((self.scroll_offset, max_scroll))
        } else {
            Some((max_scroll, max_scroll))
        }
    }

    /// Draws the bottom bar: a rule, and the percentage near its end.
    pub fn render_bottom_bar(
        &self,
        full_area: Rect,
        content_area: Rect,
        buffer: &mut Buffer,
        percent: u8,
    )
        requires
            bar_has_room(bar_area(full_area, content_area), percent),
            full_area.right_edge() < u16::MAX,
            full_area.width <= canvas::MAX_COLUMNS,
        ensures
            canvas::buffer_cells(*final(buffer)) == bar_painted(
                bar_area(full_area, content_area),
                percent,
                canvas::buffer_cells(*old(buffer)),
            ),
            canvas::buffer_cells(*final(buffer)).dom() == canvas::buffer_cells(*old(buffer)).dom(),
    {
        let bar = Rect::new(full_area.x, content_area.bottom(), full_area.width, 1);
        let mut rule = String::new();
        crate::strings::push_repeated(&mut rule, "─", bar.width as usize);
        assert(rule@ =~= crate::strings::repeated("─"@, bar.width as nat));
        proof {
            reveal_strlit("─");
            crate::strings::lemma_repeated_len("─"@, bar.width as nat);
        }
        let style = TextStyle::none().add(DIM);
        canvas::draw_span(buffer, rule.as_str(), style, bar);
        let mut text = String::new();
        text.push_str(" ");
        crate::strings::push_decimal(&mut text, percent as usize);
        text.push_str("% ");
        assert(text@ =~= percent_text(percent));
        proof {
            lemma_percent_text(percent);
        }
        let width: u16 = crate::strings::chars_of(text.as_str()).len() as u16;
        let x: u16 = bar.x + bar.width - width - 1;
        canvas::draw_span(buffer, text.as_str(), style, Rect::new(x, bar.y, width, 1));
    }

    /// The rows that the renderables take at a width.
    pub open spec fn rows_at(self, width: u16) -> nat {
        pager::start_row::<R>(self.shown(), width, self.renderables.len() as nat)
    }

    /// The scroll position that a drawing leaves: the chunk that is to be visible is, and no row
    /// below the last one is shown.
    pub open spec fn offset_when_rendered(self, area: Rect) -> usize {
        let content = pager::content_area_of(area);
        let offset = match self.pending_scroll_chunk {
            Some(index) => if content.height > 0 && index < self.renderables.len() {
                Self::chunk_offset(
                    self.scroll_offset,
                    pager::start_row::<R>(self.shown(), content.width, index as nat) as int,
                    pager::start_row::<R>(self.shown(), content.width, index as nat + 1) as int,
                    content.height,
                )
            } else {
                self.scroll_offset
            },
            None => self.scroll_offset,
        };
        pager::clamped_offset(offset, self.rows_at(content.width), content.height)
    }

    /// The scroll position and the last possible one at the next drawing.
    pub open spec fn fraction_when_rendered(self, area: Rect) -> Option<(usize, usize)> {
        let content = pager::content_area_of(area);
        scroll_fraction(
            self.offset_when_rendered(area),
            self.rows_at(content.width),
            content.height,
        )
    }

    /// The scroll position and the last possible one at the next drawing, for which the renderables
    /// are laid out already.
    pub fn upcoming_position(&mut self, area: Rect) -> (position: Option<(usize, usize)>)
        requires
            old(self).well_formed(),
            old(self).takes(area.width),
        ensures
            position == old(self).fraction_when_rendered(area),
            final(self).well_formed(),
            final(self).same_view(*old(self)),
            final(self).layout_width == Some(area.width),
            final(self).laid_out_from(*old(self), area.width),
    {
        let content = pager::content_area(area);
        self.ensure_layout(content.width);
        assert(self.shown().len() == self.renderables.len());
        assert(old(self).shown().len() == old(self).renderables.len());
        let total_len = self.content_height();
        let offset = match self.pending_scroll_chunk {
            Some(index) => if content.height > 0 && index < self.renderables.len() {
                let first = self.layout_starts[index];
                let last = first.saturating_add(self.layout_heights[index]);
                Self::offset_for_chunk(self.scroll_offset, first, last, content.height)
            } else {
                self.scroll_offset
            },
            None => self.scroll_offset,
        };
        let max_scroll = total_len.saturating_sub(content.height as usize);
        if max_scroll == 0 {
            None
        } else if offset <= max_scroll {
            Some((offset, max_scroll))
        } else {
            Some((max_scroll, max_scroll))
        }
    }

    /// The percentage that the bottom bar may show: all of it where there is nothing to scroll, and
    /// else what the given function makes of the scroll position.
    pub open spec fn may_show<P: Fn(usize, usize) -> u8>(
        fraction: Option<(usize, usize)>,
        percent_of: P,
        percent: u8,
    ) -> bool {
        match fraction {
            None => percent == 100,
            Some((offset, max_scroll)) => call_ensures(percent_of, (offset, max_scroll), percent),
        }
    }

    /// The grid after the pager has been drawn.
    pub open spec fn frame_painted(self, area: Rect, percent: u8, before: Grid) -> Grid {
        let content = pager::content_area_of(area);
        bar_painted(
            bar_area(area, content),
            percent,
            content_painted::<R>(
                self.shown(),
                content,
                self.offset_when_rendered(area) as int,
                header_painted(self.title@, area, canvas::cleared(before, area)),
            ),
        )
    }

    /// Draws the pager. How far it is scrolled is shown as the percentage that `percent_of` makes of
    /// the scroll position and the last possible one.
    pub fn render<P: Fn(usize, usize) -> u8>(
        &mut self,
        area: Rect,
        buffer: &mut Buffer,
        percent_of: &P,
    )
        requires
            old(self).well_formed(),
            old(self).takes(area.width),
            area.fits(),
            frame_fits(old(self).title@, area),
            canvas::covers(canvas::buffer_cells(*old(buffer)), area),
            old(self).fraction_when_rendered(area) matches Some((offset, max_scroll))
                ==> call_requires(*percent_of, (offset, max_scroll)),
            forall|percent: u8|
                Self::may_show(old(self).fraction_when_rendered(area), *percent_of, percent)
                    ==> #[trigger] bar_has_room(
                    bar_area(area, pager::content_area_of(area)),
                    percent,
                ),
        ensures
            final(self).well_formed(),
            final(self).shown() == old(self).shown(),
            final(self).title == old(self).title,
            final(self).keymap == old(self).keymap,
            final(self).scroll_offset == old(self).offset_when_rendered(area),
            final(self).last_content_area == Some(pager::content_area_of(area)),
            final(self).last_content_height == Some(
                pager::content_area_of(area).height as usize,
            ),
            final(self).last_rendered_height == Some(old(self).rows_at(area.width) as usize),
            final(self).pending_scroll_chunk is None,
            final(self).layout_width == Some(area.width),
            final(self).redrawn_from(
                *old(self),
                pager::content_area_of(area),
                old(self).layout_width != Some(area.width),
            ),
            exists|percent: u8|
                {
                    &&& Self::may_show(
                        old(self).fraction_when_rendered(area),
                        *percent_of,
                        percent,
                    )
                    &&& canvas::buffer_cells(*final(buffer)) == #[trigger] old(self).frame_painted(
                        area,
                        percent,
                        canvas::buffer_cells(*old(buffer)),
                    )
                },
            canvas::buffer_cells(*final(buffer)).dom() == canvas::buffer_cells(*old(buffer)).dom(),
    {
        let ghost shown = self.shown();
        let ghost before = canvas::buffer_cells(*buffer);
        canvas::clear_area(buffer, area);
        assert(canvas::buffer_cells(*buffer).dom() =~= before.dom());
        self.render_header(area, buffer);
        let content_area = pager::content_area(area);
        self.last_content_area = Some(content_area);
        self.last_content_height = Some(content_area.height as usize);
        self.ensure_layout(content_area.width);
        assert(self.shown().len() == shown.len());
        let content_height = self.content_height();
        self.last_rendered_height = Some(content_height);
        let pending = self.pending_scroll_chunk;
        self.pending_scroll_chunk = None;
        if let Some(index) = pending {
            proof {
                self.lemma_takes_kept(*old(self), content_area.width);
            }
            self.ensure_chunk_visible(index, content_area);
        }
        let max_scroll = content_height.saturating_sub(content_area.height as usize);
        if self.scroll_offset > max_scroll {
            self.scroll_offset = max_scroll;
        }
        assert(self.scroll_offset == old(self).offset_when_rendered(area));
        assert forall|x: int, y: int| #[trigger] content_area.holds(x, y) implies before.dom().contains(
            (x, y),
        ) by {
            assert(area.holds(x, y));
        }
        proof {
            self.lemma_takes_kept(*old(self), content_area.width);
        }
        let ghost laid_out = *self;
        self.render_content(content_area, buffer);
        proof {
            self.lemma_redrawn(*old(self), laid_out, content_area);
        }
        let percent: u8 = match self.scroll_position(content_area, content_height) {
            None => 100,
            Some((offset, max_scroll)) => percent_of(offset, max_scroll),
        };
        assert(Self::may_show(old(self).fraction_when_rendered(area), *percent_of, percent));
        self.render_bottom_bar(area, content_area, buffer, percent);
        assert(canvas::buffer_cells(*buffer) == old(self).frame_painted(area, percent, before));
    }

    /// A drawing of the window after a layout.
    proof fn lemma_redrawn(self, before: Self, laid_out: Self, area: Rect)
        requires
            laid_out.laid_out_from(before, area.width),
            laid_out.shown() == before.shown(),
            self.redrawn_from(laid_out, area, false),
        ensures
            self.redrawn_from(before, area, before.layout_width != Some(area.width)),
    {
        assert(laid_out.renderables.len() == before.renderables.len());
        assert forall|i: int| 0 <= i < self.renderables.len() implies redrawn(
            before.renderables@[i],
            #[trigger] self.renderables@[i],
            area.width,
            before.layout_width != Some(area.width),
            chunk_visible::<R>(before.shown(), area, self.scroll_offset as int, i as nat),
            chunk_cut::<R>(before.shown(), area, self.scroll_offset as int, i as nat),
        ) by {
            assert(laid_out.renderables@[i] == laid_out.renderables@[i]);
        }
    }

    /// The same renderables can be laid out at the same widths.
    pub proof fn lemma_takes_kept(self, other: Self, width: u16)
        requires
            self.shown() == other.shown(),
            other.takes(width),
        ensures
            self.takes(width),
    {
        assert forall|i: int| 0 <= i < self.renderables.len() implies R::takes(
            (#[trigger] self.renderables@[i]).model(),
            width,
        ) by {
            assert(self.shown().len() == self.renderables.len());
            assert(other.shown().len() == other.renderables.len());
            assert(self.shown()[i] == self.renderables@[i].model());
            assert(other.shown()[i] == other.renderables@[i].model());
        }
    }

    /// Draws the window alone, over the whole area.
    pub fn render_bare(&mut self, area: Rect, buffer: &mut Buffer)
        requires
            old(self).well_formed(),
            old(self).takes(area.width),
            area.fits(),
            canvas::covers(canvas::buffer_cells(*old(buffer)), area),
        ensures
            final(self).well_formed(),
            final(self).shown() == old(self).shown(),
            final(self).title == old(self).title,
            final(self).keymap == old(self).keymap,
            final(self).scroll_offset == pager::clamped_offset(
                old(self).scroll_offset,
                old(self).rows_at(area.width),
                area.height,
            ),
            final(self).last_content_area == Some(area),
            final(self).last_content_height == Some(area.height as usize),
            final(self).last_rendered_height == Some(old(self).rows_at(area.width) as usize),
            final(self).pending_scroll_chunk == old(self).pending_scroll_chunk,
            final(self).layout_width == Some(area.width),
            final(self).redrawn_from(*old(self), area, old(self).layout_width != Some(area.width)),
            canvas::buffer_cells(*final(buffer)) == content_painted::<R>(
                old(self).shown(),
                area,
                final(self).scroll_offset as int,
                canvas::cleared(canvas::buffer_cells(*old(buffer)), area),
            ),
            canvas::buffer_cells(*final(buffer)).dom() == canvas::buffer_cells(*old(buffer)).dom(),
    {
        let ghost shown = self.shown();
        let ghost before = canvas::buffer_cells(*buffer);
        canvas::clear_area(buffer, area);
        assert(canvas::buffer_cells(*buffer).dom() =~= before.dom());
        self.last_content_area = Some(area);
        self.last_content_height = Some(area.height as usize);
        self.ensure_layout(area.width);
        assert(self.shown().len() == shown.len());
        let content_height = self.content_height();
        self.last_rendered_height = Some(content_height);
        let max_scroll = content_height.saturating_sub(area.height as usize);
        if self.scroll_offset > max_scroll {
            self.scroll_offset = max_scroll;
        }
        proof {
            self.lemma_takes_kept(*old(self), area.width);
        }
        let ghost laid_out = *self;
        self.render_content(area, buffer);
        proof {
            self.lemma_redrawn(*old(self), laid_out, area);
        }
    }
}


impl<R: Renderable> PagerView<R> {
    /// After a drawing, the window is at the bottom if and only if the last row is in it.
    pub proof fn law_bottom_after_drawing(before: Self, after: Self, area: Rect)
        requires
            before.well_formed(),
            after.shown() == before.shown(),
            after.scroll_offset == before.offset_when_rendered(area),
            after.last_content_height == Some(pager::content_area_of(area).height as usize),
            after.last_rendered_height == Some(before.rows_at(area.width) as usize),
        ensures
            after.at_bottom() <==> after.scroll_offset == usize::MAX || after.renderables.len() == 0
                || after.scroll_offset + pager::content_area_of(area).height >= before.rows_at(
                area.width,
            ),
    {
    }

    /// A window that is pinned to the bottom shows the last row after a drawing, and is still at the
    /// bottom.
    pub proof fn law_pinned_shows_bottom(before: Self, after: Self, area: Rect)
        requires
            before.well_formed(),
            before.scroll_offset == usize::MAX,
            before.pending_scroll_chunk is None,
            after.shown() == before.shown(),
            after.scroll_offset == before.offset_when_rendered(area),
            after.last_content_height == Some(pager::content_area_of(area).height as usize),
            after.last_rendered_height == Some(before.rows_at(area.width) as usize),
        ensures
            after.at_bottom(),
            after.scroll_offset + pager::content_area_of(area).height >= before.rows_at(area.width),
    {
    }

    /// Drawing again at once changes neither the scroll position nor the rows, and draws the same
    /// window.
    pub proof fn law_drawing_is_stable(before: Self, after: Self, area: Rect)
        requires
            before.well_formed(),
            after.shown() == before.shown(),
            after.scroll_offset == before.offset_when_rendered(area),
            after.pending_scroll_chunk is None,
        ensures
            after.offset_when_rendered(area) == after.scroll_offset,
            after.rows_at(area.width) == before.rows_at(area.width),
    {
        assert(after.shown().len() == after.renderables.len());
        assert(before.shown().len() == before.renderables.len());
    }

    /// Scrolling changes the window, not the rows: a drawing at the width of the last one measures
    /// nothing, but for the one renderable that the top of the window cuts.
    pub proof fn law_scrolling_keeps_layout(before: Self, after: Self, area: Rect, index: int)
        requires
            before.layout_width == Some(area.width),
            after.redrawn_from(before, area, before.layout_width != Some(area.width)),
            0 <= index < before.renderables.len(),
        ensures
            after.renderables@[index].measured() == before.renderables@[index].measured()
                || chunk_cut::<R>(before.shown(), area, after.scroll_offset as int, index as nat),
            forall|other: int|
                0 <= other < before.renderables.len() && chunk_cut::<R>(
                    before.shown(),
                    area,
                    after.scroll_offset as int,
                    index as nat,
                ) && #[trigger] chunk_cut::<R>(
                    before.shown(),
                    area,
                    after.scroll_offset as int,
                    other as nat,
                ) ==> other == index,
    {
        assert(after.renderables@[index] == after.renderables@[index]);
        assert forall|other: int|
            0 <= other < before.renderables.len() && chunk_cut::<R>(
                before.shown(),
                area,
                after.scroll_offset as int,
                index as nat,
            ) && #[trigger] chunk_cut::<R>(
                before.shown(),
                area,
                after.scroll_offset as int,
                other as nat,
            ) implies other == index by {
            if other < index {
                pager::lemma_rows_monotonic::<R>(
                    before.shown(),
                    area.width,
                    other as nat + 1,
                    index as nat,
                );
            }
            if index < other {
                pager::lemma_rows_monotonic::<R>(
                    before.shown(),
                    area.width,
                    index as nat + 1,
                    other as nat,
                );
            }
        }
    }

    /// Drawing the same window again computes nothing that is shown.
    pub proof fn law_redrawing_computes_nothing(
        before: Self,
        first: Self,
        second: Self,
        area: Rect,
        index: int,
    )
        requires
            first.redrawn_from(before, area, before.layout_width != Some(area.width)),
            first.shown() == before.shown(),
            first.layout_width == Some(area.width),
            second.redrawn_from(first, area, first.layout_width != Some(area.width)),
            second.scroll_offset == first.scroll_offset,
            0 <= index < before.renderables.len(),
        ensures
            second.renderables@[index].computed() == first.renderables@[index].computed(),
    {
        assert(first.renderables@[index] == first.renderables@[index]);
        assert(second.renderables@[index] == second.renderables@[index]);
    }

    /// Drawing again at the width of the last drawing works out no rows again, where the renderables
    /// can remember them: not even those of the one that the top of the window cuts.
    pub proof fn law_redrawing_works_out_nothing(
        before: Self,
        after: Self,
        area: Rect,
        index: int,
    )
        requires
            R::is_cache(),
            before.well_formed(),
            before.layout_width == Some(area.width),
            after.redrawn_from(before, area, before.layout_width != Some(area.width)),
            0 <= index < before.renderables.len(),
        ensures
            after.renderables@[index].worked_out() == before.renderables@[index].worked_out(),
    {
        assert(before.renderables@[index].remembers(area.width));
        assert(after.renderables@[index] == after.renderables@[index]);
    }

    /// A chunk that the next drawing is asked to show is wholly in the window after it, if it is no
    /// taller than the window.
    pub proof fn law_pending_chunk_is_shown(before: Self, index: usize, area: Rect)
        requires
            before.well_formed(),
            before.pending_scroll_chunk == Some(index),
            index < before.renderables.len(),
            pager::content_area_of(area).height > 0,
            pager::start_row::<R>(before.shown(), area.width, index as nat + 1)
                - pager::start_row::<R>(before.shown(), area.width, index as nat)
                <= pager::content_area_of(area).height,
        ensures
            before.offset_when_rendered(area) <= pager::start_row::<R>(
                before.shown(),
                area.width,
                index as nat,
            ),
            pager::start_row::<R>(before.shown(), area.width, index as nat + 1)
                <= before.offset_when_rendered(area) + pager::content_area_of(area).height,
    {
        let first = pager::start_row::<R>(before.shown(), area.width, index as nat);
        let last = pager::start_row::<R>(before.shown(), area.width, index as nat + 1);
        pager::lemma_rows_monotonic::<R>(
            before.shown(),
            area.width,
            index as nat,
            index as nat + 1,
        );
        pager::lemma_rows_monotonic::<R>(
            before.shown(),
            area.width,
            index as nat + 1,
            before.renderables.len() as nat,
        );
        Self::law_chunk_becomes_visible(
            before.scroll_offset,
            first as int,
            last as int,
            before.rows_at(area.width),
            pager::content_area_of(area).height,
        );
    }
}

} // verus!
