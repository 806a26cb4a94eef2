//! What the pager shows, where it scrolls to, and what lies under a position of the screen.

use vstd::prelude::*;

use crate::canvas::{self, Grid};
use crate::geometry::{self, Rect};
use crate::keys::PressedKeys;
use crate::pager::{self, PagerView};
use crate::pager_render;
use crate::renderable::Renderable;

verus! {

/// The smaller of two numbers, and what is left of one number after another.
pub proof fn law_arithmetic(a: int, b: int)
    ensures
        geometry::lesser(a, b) <= a,
        geometry::lesser(a, b) <= b,
        geometry::lesser(a, b) == a || geometry::lesser(a, b) == b,
        geometry::monus(a, b) >= 0,
        a >= b ==> geometry::monus(a, b) + b == a,
        a < b ==> geometry::monus(a, b) == 0,
{
}

/// A rectangle holds the cells from its corner on, as many columns and rows as it has, as far as `u16`
/// can count them; a rectangle that is made has the corner and, as far as it fits, the size asked for.
pub proof fn law_rectangles(area: Rect, x: u16, y: u16, width: u16, height: u16)
    ensures
        area.fits() <==> area.x + area.width <= 65535 && area.y + area.height <= 65535,
        area.fits() ==> forall|column: int, row: int|
            #![trigger area.holds(column, row)]
            area.holds(column, row) <==> area.x <= column < area.x + area.width && area.y <= row
                < area.y + area.height,
        area.x + area.width <= 65535 ==> area.right_edge() == area.x + area.width,
        area.x + area.width > 65535 ==> area.right_edge() == 65535,
        area.y + area.height <= 65535 ==> area.bottom_edge() == area.y + area.height,
        area.y + area.height > 65535 ==> area.bottom_edge() == 65535,
        ({
            let made = Rect::clamped(x, y, width, height);
            &&& made.x == x && made.y == y
            &&& made.fits()
            &&& x + width <= 65535 ==> made.width == width
            &&& y + height <= 65535 ==> made.height == height
            &&& x + width > 65535 ==> x + made.width == 65535
            &&& y + height > 65535 ==> y + made.height == 65535
        }),
{
}

/// The frame of a pager: a header row, the window below it, and the bottom bar below that, which is the
/// last row; all of them as wide as the whole.
pub proof fn law_frame_rows(area: Rect)
    requires
        area.fits(),
        area.height >= 2,
    ensures
        ({
            let content = pager::content_area_of(area);
            let bar = pager_render::bar_area(area, content);
            &&& content.x == area.x && content.width == area.width
            &&& content.y == area.y + 1
            &&& content.height + 2 == area.height
            &&& bar.x == area.x && bar.width == area.width && bar.height == 1
            &&& bar.y == content.y + content.height
            &&& bar.y + 1 == area.y + area.height
        }),
{
}

/// An area too low for a header and a bar has no window.
pub proof fn law_low_frame_has_no_window(area: Rect)
    requires
        area.height < 2,
    ensures
        pager::content_area_of(area).height == 0,
{
}

/// The rows of a laid out pager: the first renderable starts at the first row, and each next one where
/// the one before ends, as tall as it is at the width.
pub proof fn law_rows_follow_each_other<R: Renderable>(view: PagerView<R>, width: u16, index: int)
    requires
        view.well_formed(),
        view.layout_width == Some(width),
        0 <= index < view.renderables.len(),
    ensures
        view.layout_starts.len() == view.renderables.len(),
        view.layout_heights.len() == view.renderables.len(),
        view.layout_starts@[0] == 0,
        view.layout_heights@[index] == R::height_of(view.renderables@[index].model(), width),
        index + 1 < view.renderables.len() && view.layout_starts@[index]
            + view.layout_heights@[index] <= usize::MAX ==> view.layout_starts@[index + 1]
            == view.layout_starts@[index] + view.layout_heights@[index],
        index + 1 < view.renderables.len() && view.layout_starts@[index]
            + view.layout_heights@[index] > usize::MAX ==> view.layout_starts@[index + 1]
            == usize::MAX,
        view.layout_starts@.last() + view.layout_heights@.last() <= usize::MAX
            ==> view.total_rows() == view.layout_starts@.last() + view.layout_heights@.last(),
{
    let shown = view.shown();
    assert(shown[index] == view.renderables@[index].model());
    assert(view.layout_starts@[0] == pager::start_row::<R>(shown, width, 0));
    assert(view.layout_starts@[index] == pager::start_row::<R>(shown, width, index as nat));
    let last = view.renderables.len() - 1;
    assert(view.layout_starts@[last] == pager::start_row::<R>(shown, width, last as nat));
    assert(view.layout_heights@[last] == R::height_of(shown[last], width));
    if index + 1 < view.renderables.len() {
        assert(view.layout_starts@[index + 1] == pager::start_row::<R>(
            shown,
            width,
            (index + 1) as nat,
        ));
    }
}

/// What lies under a position of the last drawn area is the renderable whose rows hold the row shown
/// there, and the row within it.
pub proof fn law_position_is_found<R: Renderable>(
    view: PagerView<R>,
    area: Rect,
    column: u16,
    row: u16,
    index: int,
)
    requires
        view.well_formed(),
        view.last_content_area == Some(area),
        area.x <= column < area.x + area.width,
        area.y <= row < area.y + area.height,
        column < 65535,
        row < 65535,
        0 <= index < view.layout_starts.len(),
        view.layout_starts@[index] <= view.scroll_offset + (row - area.y),
        view.scroll_offset + (row - area.y) < view.layout_starts@[index]
            + view.layout_heights@[index],
        view.layout_starts@[index] + view.layout_heights@[index] <= usize::MAX,
    ensures
        view.shown_position(column, row) == Some(
            (
                index as usize,
                (view.scroll_offset + (row - area.y) - view.layout_starts@[index]) as usize,
            ),
        ),
{
    let logical = view.logical_row(area, row);
    assert(logical == view.scroll_offset + (row - area.y));
    assert(area.holds(column as int, row as int));
    assert(view.row_in(index, logical));
    let chosen = choose|i: int| view.row_in(i, logical);
    view.law_row_belongs_to_one(chosen, index, logical);
}

/// Nothing lies under a position outside the last drawn area, or below the last row, or before the
/// first drawing.
pub proof fn law_nothing_elsewhere<R: Renderable>(view: PagerView<R>, column: u16, row: u16)
    requires
        view.well_formed(),
        match view.last_content_area {
            None => true,
            Some(area) => {
                ||| column < area.x
                ||| column >= area.x + area.width
                ||| row < area.y
                ||| row >= area.y + area.height
                ||| view.scroll_offset + (row - area.y) >= view.total_rows()
            },
        },
    ensures
        view.shown_position(column, row) is None,
{
    if let Some(area) = view.last_content_area {
        let logical = view.logical_row(area, row);
        if area.holds(column as int, row as int) && exists|i: int| view.row_in(i, logical) {
            let index = choose|i: int| view.row_in(i, logical);
            let width = view.layout_width->0;
            pager::lemma_rows_monotonic::<R>(
                view.shown(),
                width,
                (index + 1) as nat,
                view.renderables.len() as nat,
            );
            assert(view.layout_starts@[index] == pager::start_row::<R>(
                view.shown(),
                width,
                index as nat,
            ));
            assert(view.layout_heights@[index] == R::height_of(view.shown()[index], width));
        }
    }
}

/// No key does anything but the commands that it presses.
pub proof fn law_other_keys_do_nothing(
    offset: usize,
    last_content_height: Option<usize>,
    pressed: PressedKeys,
    viewport: Rect,
)
    ensures
        pager::offset_after_key(offset, last_content_height, pressed, viewport) is None <==> {
            &&& !pressed.scroll_up && !pressed.scroll_down
            &&& !pressed.page_up && !pressed.page_down
            &&& !pressed.half_page_up && !pressed.half_page_down
            &&& !pressed.jump_top && !pressed.jump_bottom
        },
{
}

/// A key moves the window: one row up or down, a page, half a page rounded up, or to the top or the
/// bottom; never above the first row.
pub proof fn law_keys_scroll(
    offset: usize,
    last_content_height: Option<usize>,
    pressed: PressedKeys,
    viewport: Rect,
)
    ensures
        ({
            let after = pager::offset_after_key(offset, last_content_height, pressed, viewport);
            let page = match last_content_height {
                Some(rows) => rows as int,
                None => if viewport.height >= 2 {
                    viewport.height - 2
                } else {
                    0
                },
            };
            let window = if viewport.height >= 2 {
                viewport.height - 2
            } else {
                0
            };
            let up_by = |rows: int| {
                if offset >= rows {
                    offset - rows
                } else {
                    0
                }
            };
            let down_by = |rows: int| {
                if offset + rows <= usize::MAX {
                    offset + rows
                } else {
                    usize::MAX as int
                }
            };
            let first = pressed.scroll_up;
            let second = first || pressed.scroll_down;
            let third = second || pressed.page_up;
            let fourth = third || pressed.page_down;
            let fifth = fourth || pressed.half_page_down;
            let sixth = fifth || pressed.half_page_up;
            let seventh = sixth || pressed.jump_top;
            &&& first ==> after == Some(up_by(1) as usize)
            &&& !first && pressed.scroll_down ==> after == Some(down_by(1) as usize)
            &&& !second && pressed.page_up ==> after == Some(up_by(page) as usize)
            &&& !third && pressed.page_down ==> after == Some(down_by(page) as usize)
            &&& !fourth && pressed.half_page_down ==> after == Some(
                down_by((window + 1) / 2) as usize,
            )
            &&& !fifth && pressed.half_page_up ==> after == Some(up_by((window + 1) / 2) as usize)
            &&& !sixth && pressed.jump_top ==> after == Some(0usize)
            &&& !seventh && pressed.jump_bottom ==> after == Some(usize::MAX)
        }),
{
}

/// Two half pages are a page, or a row more where a page has an odd number of rows.
pub proof fn law_two_half_pages(viewport: Rect)
    ensures
        ({
            let half = pager::half_page_rows(viewport);
            let page = pager::page_rows(None, viewport);
            page <= 2 * half <= page + 1
        }),
{
}

/// A window is kept from going past the last row, and else stays where it is.
pub proof fn law_window_stays_in_the_rows(offset: usize, total: nat, height: u16)
    requires
        total <= usize::MAX,
    ensures
        ({
            let kept = pager::clamped_offset(offset, total, height);
            &&& offset + height <= total ==> kept == offset
            &&& offset + height > total && total >= height ==> kept + height == total
            &&& total < height ==> kept == 0
        }),
{
}

/// The scroll position is a fraction of the last possible one where there is anything to scroll, and
/// none else.
pub proof fn law_scroll_fraction(offset: usize, total: nat, height: u16)
    requires
        total <= usize::MAX,
    ensures
        match pager_render::scroll_fraction(offset, total, height) {
            None => total <= height,
            Some((at, end)) => {
                &&& total > height
                &&& end + height == total
                &&& at <= end
                &&& offset <= end ==> at == offset
                &&& offset > end ==> at == end
            },
        },
{
}

/// Whether the window shows the last row is known after a drawing only, unless it is pinned there.
pub proof fn law_bottom<R: Renderable>(view: PagerView<R>)
    ensures
        view.scroll_offset == usize::MAX ==> view.at_bottom(),
        view.scroll_offset != usize::MAX && view.last_content_height is None ==> !view.at_bottom(),
        view.last_content_height is Some && view.renderables.len() == 0 ==> view.at_bottom(),
        view.scroll_offset != usize::MAX && view.renderables.len() > 0 ==> {
            match (view.last_content_height, view.last_rendered_height) {
                (Some(height), Some(rows)) => view.at_bottom() <==> view.scroll_offset + height
                    >= rows,
                _ => !view.at_bottom(),
            }
        },
{
}

/// A chunk whose first row is above the window becomes the first one in it.
pub proof fn law_chunk_above_comes_to_the_top<R: Renderable>(
    offset: usize,
    first: int,
    last: int,
    height: u16,
)
    requires
        0 <= first <= last <= usize::MAX,
        height > 0,
    ensures
        ({
            let after = PagerView::<R>::chunk_offset(offset, first, last, height);
            &&& first < offset ==> after == first
            &&& first >= offset && last < offset + height ==> after == offset
            &&& first >= offset && last >= offset + height && last - first != height ==> after
                + height == last + 1
            &&& first >= offset && last >= offset + height && last - first == height ==> after
                == first
        }),
{
}

/// Clearing makes every cell of an area blank, and touches no other.
pub proof fn law_cleared(grid: Grid, area: Rect, x: int, y: int)
    requires
        grid.dom().contains((x, y)),
    ensures
        canvas::cleared(grid, area).dom() == grid.dom(),
        area.holds(x, y) ==> canvas::cleared(grid, area)[(x, y)] == (canvas::CellView {
            symbol: seq![' '],
            fg: crate::styled::TextColor::Reset,
            bg: crate::styled::TextColor::Reset,
            modifier: 0,
        }),
        !area.holds(x, y) ==> canvas::cleared(grid, area)[(x, y)] == grid[(x, y)],
{
    assert(canvas::cleared(grid, area).dom() =~= grid.dom());
}

/// Copying moves each cell of the source by the distance of the two places, and touches no other.
pub proof fn law_copied(
    before: Grid,
    to: (int, int),
    columns: int,
    rows: int,
    source: Grid,
    from: (int, int),
    x: int,
    y: int,
)
    requires
        before.dom().contains((x, y)),
    ensures
        ({
            let after = canvas::copied(before, to, columns, rows, source, from);
            if to.0 <= x < to.0 + columns && to.1 <= y < to.1 + rows {
                after[(x, y)] == source[(from.0 + (x - to.0), from.1 + (y - to.1))]
            } else {
                after[(x, y)] == before[(x, y)]
            }
        }),
{
}

/// The rows of a renderable that is cut by the top of the window: those below the cut, moved up to the
/// first row of the area, as far as the area goes.
pub proof fn law_cut_renderable_is_moved_up<R: Renderable>(
    model: R::Model,
    area: Rect,
    offset: u16,
    before: Grid,
    x: int,
    y: int,
)
    requires
        area.fits(),
        before.dom().contains((x, y)),
    ensures
        ({
            let height = R::height_of(model, area.width);
            let rows = if height <= area.height + offset {
                height as int
            } else {
                area.height + offset
            };
            let drawn = R::painted(
                model,
                Rect { x: 0, y: 0, width: area.width, height: rows as u16 },
                canvas::blank_grid(area.width, rows as u16),
            );
            let after = pager_render::offset_painted::<R>(model, area, offset, before);
            rows <= 65535 ==> if area.x <= x < area.x + area.width && area.y <= y < area.y
                + area.height && y - area.y + offset < height {
                after[(x, y)] == drawn[(x - area.x, y - area.y + offset)]
            } else {
                after[(x, y)] == before[(x, y)]
            }
        }),
{
}

/// A renderable is drawn where the window shows it: from the row of the area at which it starts, as far
/// as it goes or the area does; and not at all where no row of it is in the window.
pub proof fn law_renderables_are_drawn_in_place<R: Renderable>(
    shown: Seq<R::Model>,
    area: Rect,
    top: int,
    index: nat,
    before: Grid,
)
    requires
        index < shown.len(),
        area.fits(),
        0 <= top,
        top + area.height <= usize::MAX,
        pager::rows_before::<R>(shown, area.width, index + 1) <= usize::MAX,
    ensures
        ({
            let start = pager::rows_before::<R>(shown, area.width, index) as int;
            let height = R::height_of(shown[index as int], area.width) as int;
            let after = pager_render::chunk_painted::<R>(shown, area, top, index, before);
            &&& start + height <= top || start >= top + area.height ==> after == before
            &&& start >= top && start < top + area.height && start + height > top ==> after
                == R::painted(
                shown[index as int],
                Rect {
                    x: area.x,
                    y: (area.y + (start - top)) as u16,
                    width: area.width,
                    height: if start + height <= top + area.height {
                        height as u16
                    } else {
                        (top + area.height - start) as u16
                    },
                },
                before,
            )
            &&& start < top && start + height > top && area.height > 0 ==> after
                == pager_render::offset_painted::<R>(
                shown[index as int],
                area,
                (top - start) as u16,
                before,
            )
        }),
{
}

/// The rows of all renderables before one add up.
pub proof fn law_rows_add_up<R: Renderable>(shown: Seq<R::Model>, width: u16, count: nat)
    requires
        count <= shown.len(),
    ensures
        pager::rows_before::<R>(shown, width, count) == Seq::new(
            count,
            |i: int| R::height_of(shown[i], width) as int,
        ).fold_left(0int, |sum: int, height: int| sum + height),
    decreases count,
{
    let heights = Seq::new(count, |i: int| R::height_of(shown[i], width) as int);
    let add = |sum: int, height: int| sum + height;
    if count > 0 {
        law_rows_add_up::<R>(shown, width, (count - 1) as nat);
        assert(heights.drop_last() =~= Seq::new(
            (count - 1) as nat,
            |i: int| R::height_of(shown[i], width) as int,
        ));
    }
}

/// The window is drawn renderable by renderable, in their order.
pub proof fn law_window_is_drawn_in_order<R: Renderable>(
    shown: Seq<R::Model>,
    area: Rect,
    top: int,
    count: nat,
    before: Grid,
)
    ensures
        pager_render::window_painted::<R>(shown, area, top, count, before) == Seq::new(
            count,
            |i: int| i as nat,
        ).fold_left(
            before,
            |grid: Grid, i: nat| pager_render::chunk_painted::<R>(shown, area, top, i, grid),
        ),
    decreases count,
{
    let indices = Seq::new(count, |i: int| i as nat);
    if count > 0 {
        law_window_is_drawn_in_order::<R>(shown, area, top, (count - 1) as nat, before);
        assert(indices.drop_last() =~= Seq::new((count - 1) as nat, |i: int| i as nat));
    }
}

/// What is drawn ends below the last row that is in the window.
pub proof fn law_window_ends_below_the_last_row<R: Renderable>(
    shown: Seq<R::Model>,
    area: Rect,
    top: int,
    count: nat,
)
    requires
        count <= shown.len(),
        area.fits(),
        area.height > 0,
        0 <= top,
        top + area.height <= usize::MAX,
        pager::rows_before::<R>(shown, area.width, count) <= usize::MAX,
    ensures
        ({
            let total = pager::rows_before::<R>(shown, area.width, count) as int;
            let end = pager_render::window_end::<R>(shown, area, top, count);
            &&& total <= top ==> end == area.y
            &&& top <= total <= top + area.height ==> end == area.y + (total - top)
            &&& total > top + area.height ==> end == area.y + area.height
        }),
    decreases count,
{
    if count > 0 {
        let index = (count - 1) as nat;
        law_window_ends_below_the_last_row::<R>(shown, area, top, index);
    }
}

/// The rows of the area below what is drawn are empty: a tilde, and blanks behind it; no other cell is
/// touched.
pub proof fn law_empty_rows_show_tildes<R: Renderable>(
    shown: Seq<R::Model>,
    area: Rect,
    top: int,
    before: Grid,
    x: int,
    y: int,
)
    requires
        area.fits(),
        pager_render::window_painted::<R>(shown, area, top, shown.len(), before).dom().contains(
            (x, y),
        ),
    ensures
        ({
            let drawn = pager_render::window_painted::<R>(shown, area, top, shown.len(), before);
            let end = pager_render::window_end::<R>(shown, area, top, shown.len());
            let after = pager_render::content_painted::<R>(shown, area, top, before);
            if area.x <= x < area.x + area.width && end <= y < area.y + area.height {
                &&& after[(x, y)].symbol == if x == area.x {
                    seq!['~']
                } else {
                    seq![' ']
                }
                &&& after[(x, y)].modifier == 0
                &&& after[(x, y)].fg == crate::styled::TextColor::Reset
                &&& after[(x, y)].bg == crate::styled::TextColor::Reset
            } else {
                after[(x, y)] == drawn[(x, y)]
            }
        }),
{
}

/// The header: the slashes fill the row two columns at a time, and the title stands over its start.
pub proof fn law_header(title: Seq<char>, area: Rect, before: Grid)
    ensures
        ({
            let rule = Seq::new(
                (2 * (area.width as int / 2)) as nat,
                |i: int|
                    if i % 2 == 0 {
                        '/'
                    } else {
                        ' '
                    },
            );
            pager_render::header_painted(title, area, before) == canvas::span_painted(
                pager_render::dim(seq!['/', ' '] + title),
                area,
                canvas::span_painted(pager_render::dim(rule), area, before),
            )
        }),
{
    reveal_strlit("/ ");
    assert("/ "@ =~= seq!['/', ' ']);
    let count = (area.width / 2) as nat;
    crate::string_laws::law_repeated("/ "@, count);
    let rule = Seq::new(
        (2 * (area.width as int / 2)) as nat,
        |i: int|
            if i % 2 == 0 {
                '/'
            } else {
                ' '
            },
    );
    assert(crate::strings::repeated("/ "@, count) =~= rule);
}

/// The bottom bar: a rule over the whole width, and over its end the percentage between blanks, with one
/// column of the rule left behind it.
pub proof fn law_bottom_bar(bar: Rect, percent: u8, before: Grid)
    requires
        bar.fits(),
        pager_render::bar_has_room(bar, percent),
    ensures
        ({
            let digits = crate::strings::decimal(percent as nat);
            let text = seq![' '] + digits + seq!['%', ' '];
            let shown_at = Rect {
                x: (bar.x + bar.width - 1 - text.len()) as u16,
                y: bar.y,
                width: text.len() as u16,
                height: if bar.y < 65535 {
                    1
                } else {
                    0
                },
            };
            &&& shown_at.x + shown_at.width + 1 == bar.x + bar.width
            &&& pager_render::bar_painted(bar, percent, before) == canvas::span_painted(
                pager_render::dim(text),
                shown_at,
                canvas::span_painted(
                    pager_render::dim(Seq::new(bar.width as nat, |i: int| '─')),
                    bar,
                    before,
                ),
            )
        }),
{
    reveal_strlit(" ");
    reveal_strlit("% ");
    reveal_strlit("─");
    let digits = crate::strings::decimal(percent as nat);
    reveal_with_fuel(crate::strings::decimal, 4);
    assert(pager_render::percent_text(percent) =~= seq![' '] + digits + seq!['%', ' ']);
    crate::string_laws::law_repeated("─"@, bar.width as nat);
    assert(crate::strings::repeated("─"@, bar.width as nat) =~= Seq::new(
        bar.width as nat,
        |i: int| '─',
    ));
}

/// The frame is drawn over a cleared area: the header, then the window below it, then the bar.
pub proof fn law_frame_is_drawn_from_the_top<R: Renderable>(
    view: PagerView<R>,
    area: Rect,
    percent: u8,
    before: Grid,
)
    ensures
        ({
            let cleared = canvas::cleared(before, area);
            let headed = pager_render::header_painted(view.title@, area, cleared);
            let content = pager::content_area_of(area);
            let filled = pager_render::content_painted::<R>(
                pager::models(view.renderables@),
                content,
                view.offset_when_rendered(area) as int,
                headed,
            );
            view.frame_painted(area, percent, before) == pager_render::bar_painted(
                pager_render::bar_area(area, content),
                percent,
                filled,
            )
        }),
{
}

/// A drawing keeps the window where it is, as far as the rows go, unless a chunk is to be shown.
pub proof fn law_drawing_keeps_the_window<R: Renderable>(view: PagerView<R>, area: Rect)
    requires
        view.pending_scroll_chunk is None,
    ensures
        ({
            let window = pager::content_area_of(area).height;
            let total = pager::rows_before::<R>(
                pager::models(view.renderables@),
                area.width,
                view.renderables.len() as nat,
            );
            let after = view.offset_when_rendered(area);
            total <= usize::MAX ==> {
                &&& view.scroll_offset + window <= total ==> after == view.scroll_offset
                &&& view.scroll_offset + window > total && total >= window ==> after + window
                    == total
                &&& total < window ==> after == 0
            }
        }),
{
}


/// A pager whose frame is the same has the same title and keys, and remembers the same of its last
/// drawing; one whose view is the same also shows the same from the same row on.
pub proof fn law_same_frame<R: Renderable>(a: PagerView<R>, b: PagerView<R>)
    ensures
        a.same_frame(b) ==> {
            &&& a.title == b.title && a.keymap == b.keymap
            &&& a.last_content_height == b.last_content_height
            &&& a.last_rendered_height == b.last_rendered_height
            &&& a.last_content_area == b.last_content_area
            &&& a.pending_scroll_chunk == b.pending_scroll_chunk
        },
        a.same_view(b) ==> a.same_frame(b) && a.scroll_offset == b.scroll_offset
            && pager::models(a.renderables@) == pager::models(b.renderables@),
{
}

/// A chunk that is to be shown is scrolled to first, and then the window is kept in the rows; one that
/// is not there, or a window without rows, changes nothing.
pub proof fn law_pending_chunk_comes_first<R: Renderable>(
    view: PagerView<R>,
    area: Rect,
    index: usize,
)
    requires
        view.pending_scroll_chunk == Some(index),
    ensures
        ({
            let content = pager::content_area_of(area);
            let shown = pager::models(view.renderables@);
            let scrolled = if content.height > 0 && index < view.renderables.len() {
                PagerView::<R>::chunk_offset(
                    view.scroll_offset,
                    pager::start_row::<R>(shown, area.width, index as nat) as int,
                    pager::start_row::<R>(shown, area.width, index as nat + 1) as int,
                    content.height,
                )
            } else {
                view.scroll_offset
            };
            let settled = PagerView {
                scroll_offset: scrolled,
                pending_scroll_chunk: None,
                ..view
            };
            view.offset_when_rendered(area) == settled.offset_when_rendered(area)
        }),
{
}

/// The percentage is all of it where there is nothing to scroll, and else what the scroll position
/// makes it.
pub proof fn law_percentage<R: Renderable, P: Fn(usize, usize) -> u8>(
    view: PagerView<R>,
    area: Rect,
    percent_of: P,
    percent: u8,
)
    ensures
        PagerView::<R>::may_show(None, percent_of, percent) <==> percent == 100,
        forall|offset: usize, end: usize|
            PagerView::<R>::may_show(Some((offset, end)), percent_of, percent)
                <==> #[trigger] call_ensures(percent_of, (offset, end), percent),
        view.fraction_when_rendered(area) == pager_render::scroll_fraction(
            view.offset_when_rendered(area),
            pager::start_row::<R>(
                pager::models(view.renderables@),
                area.width,
                view.renderables.len() as nat,
            ),
            pager::content_area_of(area).height,
        ),
{
}

/// A renderable starts as many rows down as the ones before it take, as far as a row can be counted.
pub proof fn law_start_row<R: Renderable>(shown: Seq<R::Model>, width: u16, index: nat)
    ensures
        pager::rows_before::<R>(shown, width, index) <= usize::MAX ==> pager::start_row::<R>(
            shown,
            width,
            index,
        ) == pager::rows_before::<R>(shown, width, index),
        pager::rows_before::<R>(shown, width, index) > usize::MAX ==> pager::start_row::<R>(
            shown,
            width,
            index,
        ) == usize::MAX,
{
}

/// What a drawing leaves alone is the same, and a blank grid is blank.
pub proof fn law_grids(before: Grid, after: Grid, area: Rect, x: int, y: int, width: u16, height: u16)
    ensures
        canvas::differ_only_in(before, after, area) ==> after.dom() == before.dom() && (
        before.dom().contains((x, y)) && !area.holds(x, y) ==> after[(x, y)] == before[(x, y)]),
        canvas::covers(before, area) && area.holds(x, y) ==> before.dom().contains((x, y)),
        canvas::blank_grid(width, height).dom().contains((x, y)) <==> 0 <= x < width && 0 <= y
            < height,
        0 <= x < width && 0 <= y < height ==> canvas::blank_grid(width, height)[(x, y)].symbol
            == seq![' '],
{
    if canvas::differ_only_in(before, after, area) && before.dom().contains((x, y)) && !area.holds(
        x,
        y,
    ) {
        let p = (x, y);
        assert(before.dom().contains(p) && !area.holds(p.0, p.1));
    }
}

} // verus!
