//! What the transcript shows and what a click, the wheel and the pointer do to it.

use std::sync::Arc;

use vstd::prelude::*;

use crate::canvas::{self, Grid};
use crate::cells::{
    CellKind, CellModel, CellRenderable, HistoryCell, HyperlinkLinesRenderable,
    InlineExpansionRegion,
};
use crate::geometry::Rect;
use crate::hyperlinks::HyperlinkLineView;
use crate::keys::{self, KeyBinding, KeyHintView, PagerKeymap, PressedKeys};
use crate::overlay::StaticOverlay;
use crate::pager;
use crate::renderable::Renderable;
use crate::styled::{SpanView, TextColor, TextStyle};
use crate::transcript::{
    self, ActiveCellTranscriptKey, BodyModel, EntryModel, LiveTailKey, Showing, TranscriptOverlay,
    TranscriptRenderable,
};
use crate::transcript_screen::{self, MouseKind, OverlayAction, OverlayEvent};

verus! {

/// A region covers a row of its cell and a column of the screen.
pub open spec fn covers_place(
    region: InlineExpansionRegion,
    area: Rect,
    content_row: int,
    column: int,
) -> bool {
    &&& region.row == content_row
    &&& area.x + region.start <= column
    &&& column < area.x + region.end
}

/// A region is the first one that covers a place.
pub open spec fn is_first_covering(
    regions: Seq<InlineExpansionRegion>,
    which: int,
    region: InlineExpansionRegion,
    area: Rect,
    content_row: int,
    column: int,
) -> bool {
    &&& 0 <= which < regions.len()
    &&& region == regions[which]
    &&& covers_place(region, area, content_row, column)
    &&& forall|k: int|
        0 <= k < which ==> !covers_place(#[trigger] regions[k], area, content_row, column)
}

/// The row of the layout at which the content of a cell begins: the first row of its entry, or the one
/// below where the cell follows another and starts something new.
pub open spec fn content_start<C: HistoryCell>(overlay: TranscriptOverlay<C>, index: int) -> int {
    overlay.view.layout_starts@[index] + if index > 0 && !overlay.cells@[index].continues_stream() {
        1int
    } else {
        0
    }
}

/// Where a region is found on the screen.
proof fn lemma_region_place(region: InlineExpansionRegion, area: Rect, content_row: int, column: u16)
    requires
        area.fits(),
        area.x <= column < area.x + area.width,
    ensures
        transcript_screen::region_hit(region, area, content_row, column) <==> covers_place(
            region,
            area,
            content_row,
            column as int,
        ),
{
}

/// The first region that covers a place is found.
proof fn lemma_first_region(
    regions: Seq<InlineExpansionRegion>,
    area: Rect,
    content_row: int,
    column: u16,
    from: nat,
    found: int,
)
    requires
        area.fits(),
        area.x <= column < area.x + area.width,
        from <= found < regions.len(),
        covers_place(regions[found], area, content_row, column as int),
        forall|k: int|
            from <= k < found ==> !covers_place(
                #[trigger] regions[k],
                area,
                content_row,
                column as int,
            ),
    ensures
        transcript_screen::first_hit(regions, area, content_row, column, from) == Some(
            regions[found],
        ),
    decreases found - from,
{
    lemma_region_place(regions[from as int], area, content_row, column);
    if from < found {
        lemma_first_region(regions, area, content_row, column, from + 1, found);
    }
}

/// No region covers a place at which none is found, and one that is found is the first that does.
proof fn lemma_found_region(
    regions: Seq<InlineExpansionRegion>,
    area: Rect,
    content_row: int,
    column: u16,
    from: nat,
) -> (found: int)
    requires
        area.fits(),
        area.x <= column < area.x + area.width,
        from <= regions.len(),
    ensures
        match transcript_screen::first_hit(regions, area, content_row, column, from) {
            Some(region) => {
                &&& from <= found < regions.len()
                &&& region == regions[found]
                &&& covers_place(region, area, content_row, column as int)
                &&& forall|k: int|
                    from <= k < found ==> !covers_place(
                        #[trigger] regions[k],
                        area,
                        content_row,
                        column as int,
                    )
            },
            None => forall|k: int|
                from <= k < regions.len() ==> !covers_place(
                    #[trigger] regions[k],
                    area,
                    content_row,
                    column as int,
                ),
        },
    decreases regions.len() - from,
{
    if from >= regions.len() {
        0
    } else {
        lemma_region_place(regions[from as int], area, content_row, column);
        if transcript_screen::region_hit(regions[from as int], area, content_row, column) {
            from as int
        } else {
            lemma_found_region(regions, area, content_row, column, from + 1)
        }
    }
}

impl<C: HistoryCell> TranscriptOverlay<C> {
    /// Every region of a committed cell that is shown can be hit: where the row of the screen shows a
    /// row of the cell and a region of that row covers the column, the first such region is found.
    pub proof fn law_shown_regions_are_hit(
        self,
        area: Rect,
        column: u16,
        row: u16,
        index: int,
        content_row: int,
        which: int,
    )
        requires
            self.well_formed(),
            self.view.last_content_area == Some(area),
            area.x <= column < area.x + area.width,
            area.y <= row < area.y + area.height,
            0 <= index < self.cells.len(),
            index < self.view.layout_starts.len(),
            self.cells@[index].expands(self.presentation),
            0 <= content_row,
            content_start(self, index) + content_row == self.view.scroll_offset + (row - area.y),
            self.view.scroll_offset + (row - area.y) < self.view.layout_starts@[index]
                + self.view.layout_heights@[index] <= usize::MAX,
            ({
                let regions = self.cells@[index].regions_at(
                    area.width,
                    self.expanded_cells@.contains(index as usize),
                );
                &&& 0 <= which < regions.len()
                &&& covers_place(regions[which], area, content_row, column as int)
                &&& forall|k: int|
                    0 <= k < which ==> !covers_place(
                        #[trigger] regions[k],
                        area,
                        content_row,
                        column as int,
                    )
            }),
        ensures
            self.hit(column, row) == Some(
                (
                    index as usize,
                    self.cells@[index].regions_at(
                        area.width,
                        self.expanded_cells@.contains(index as usize),
                    )[which],
                ),
            ),
    {
        crate::pager_laws::law_position_is_found(self.view, area, column, row, index);
        let regions = self.cells@[index].regions_at(
            area.width,
            self.expanded_cells@.contains(index as usize),
        );
        lemma_first_region(regions, area, content_row, column, 0, which);
    }

    /// What is hit is a region of a committed cell that can be expanded, the first that covers the
    /// place; nothing is hit in the blank row above a cell, in the live tail, or off the cells.
    pub proof fn law_hits_are_regions(self, column: u16, row: u16)
        requires
            self.well_formed(),
        ensures
            self.hit(column, row) matches Some((index, region)) ==> {
                &&& self.view.last_content_area matches Some(area)
                &&& index < self.cells.len()
                &&& self.cells@[index as int].expands(self.presentation)
                &&& content_start(self, index as int) <= self.view.logical_row(area, row)
                &&& covers_place(
                    region,
                    area,
                    self.view.logical_row(area, row) - content_start(self, index as int),
                    column as int,
                )
                &&& exists|which: int|
                    #[trigger] is_first_covering(
                        self.cells@[index as int].regions_at(
                            area.width,
                            self.expanded_cells@.contains(index),
                        ),
                        which,
                        region,
                        area,
                        self.view.logical_row(area, row) - content_start(self, index as int),
                        column as int,
                    )
            },
    {
        if self.hit(column, row) is Some {
            let (index, inner_row) = self.view.shown_position(column, row)->0;
            let area = self.view.last_content_area->0;
            let logical_row = self.view.logical_row(area, row);
            let chosen = choose|i: int| self.view.row_in(i, logical_row);
            assert(self.view.row_in(chosen, logical_row));
            assert(index == chosen);
            let regions = self.cells@[index as int].regions_at(
                area.width,
                self.expanded_cells@.contains(index),
            );
            let found = lemma_found_region(
                regions,
                area,
                logical_row - content_start(self, index as int),
                column,
                0,
            );
            let (_, region) = self.hit(column, row)->0;
            assert(is_first_covering(
                regions,
                found,
                region,
                area,
                logical_row - content_start(self, index as int),
                column as int,
            ));
        }
    }

    /// A click on a region expands its cell where it is collapsed and collapses it where it is expanded,
    /// changes no other cell, keeps the window where it is, and asks for a frame; a click elsewhere does
    /// nothing.
    pub proof fn law_click_flips_the_cell(
        before: Self,
        after: Self,
        column: u16,
        row: u16,
        action: OverlayAction,
    )
        requires
            before.handled(OverlayEvent::Mouse(MouseKind::LeftDown, column, row), after, action),
        ensures
            match before.hit(column, row) {
                Some((index, _)) => {
                    &&& action == OverlayAction::ScheduleFrame
                    &&& after.expanded_cells@.contains(index)
                        != before.expanded_cells@.contains(index)
                    &&& forall|other: usize|
                        other != index ==> (#[trigger] after.expanded_cells@.contains(other)
                            == before.expanded_cells@.contains(other))
                    &&& after.hovered_cell is None && after.hovered_region is None
                    &&& after.cells == before.cells
                    &&& after.tail() == before.tail()
                    &&& after.highlight_cell == before.highlight_cell
                    &&& after.view.scroll_offset == before.view.scroll_offset
                    &&& after.is_done == before.is_done
                },
                None => after == before && action == OverlayAction::Nothing,
            },
    {
    }

    /// Moving the pointer hovers the region under it, or none, and changes nothing else; a frame is
    /// asked for exactly where what is hovered has changed.
    pub proof fn law_pointer_hovers_what_it_hits(
        before: Self,
        after: Self,
        column: u16,
        row: u16,
        action: OverlayAction,
    )
        requires
            before.handled(OverlayEvent::Mouse(MouseKind::Moved, column, row), after, action),
        ensures
            before.hit(column, row) matches Some((index, region)) ==> after.hovered_cell == Some(
                index,
            ) && after.hovered_region == Some(region),
            before.hit(column, row) is None ==> after.hovered_cell is None
                && after.hovered_region is None,
            after.view == before.view,
            after.cells == before.cells,
            after.expanded_cells == before.expanded_cells,
            after.highlight_cell == before.highlight_cell,
            action == OverlayAction::Nothing <==> after == before,
            action == OverlayAction::Nothing || action == OverlayAction::ScheduleFrame,
    {
    }

    /// The wheel scrolls by three rows, and not above the first.
    pub proof fn law_wheel_scrolls_three_rows(
        before: Self,
        after: Self,
        column: u16,
        row: u16,
        action: OverlayAction,
    )
        ensures
            before.handled(OverlayEvent::Mouse(MouseKind::ScrollUp, column, row), after, action)
                ==> {
                &&& action == OverlayAction::ScheduleFrameSoon
                &&& before.view.scroll_offset >= 3 ==> after.view.scroll_offset + 3
                    == before.view.scroll_offset
                &&& before.view.scroll_offset < 3 ==> after.view.scroll_offset == 0
                &&& after.cells == before.cells && after.is_done == before.is_done
            },
            before.handled(OverlayEvent::Mouse(MouseKind::ScrollDown, column, row), after, action)
                ==> {
                &&& action == OverlayAction::ScheduleFrameSoon
                &&& before.view.scroll_offset + 3 <= usize::MAX ==> after.view.scroll_offset
                    == before.view.scroll_offset + 3
                &&& before.view.scroll_offset + 3 > usize::MAX ==> after.view.scroll_offset
                    == usize::MAX
                &&& after.cells == before.cells && after.is_done == before.is_done
            },
    {
    }

    /// A key that closes closes, whatever else it presses; any other key scrolls as the pager does, or
    /// does nothing; a drawing is asked for when one is due.
    pub proof fn law_events(
        before: Self,
        after: Self,
        event: OverlayEvent,
        action: OverlayAction,
    )
        requires
            before.handled(event, after, action),
        ensures
            event matches OverlayEvent::Key(pressed, viewport) ==> {
                let scrolled = pager::offset_after_key(
                    before.view.scroll_offset,
                    before.view.last_content_height,
                    pressed,
                    viewport,
                );
                let closes = pressed.close || pressed.close_transcript;
                &&& after.is_done == (before.is_done || closes)
                &&& closes || scrolled is None ==> after.view == before.view && action
                    == OverlayAction::Nothing
                &&& !closes ==> (scrolled matches Some(offset) ==> after.view.scroll_offset
                    == offset && action == OverlayAction::ScheduleFrameSoon)
                &&& after.view.renderables == before.view.renderables
                &&& after.cells == before.cells
                &&& after.expanded_cells == before.expanded_cells
            },
            event == OverlayEvent::Draw || event == OverlayEvent::Resize ==> after == before
                && action == OverlayAction::Draw,
            event == OverlayEvent::Other ==> after == before && action == OverlayAction::Nothing,
            event matches OverlayEvent::Mouse(MouseKind::Other, _, _) ==> after == before && action
                == OverlayAction::Nothing,
    {
    }

    /// The entry of a committed cell shows that cell, in the presentation of the overlay, expanded if
    /// and only if it is among the expanded ones and can be.
    pub proof fn law_entries_show_the_cells(self, index: int)
        requires
            self.well_formed(),
            0 <= index < self.cells.len(),
        ensures
            self.view.renderables.len() >= self.cells.len(),
            ({
                let entry = self.view.shown()[index];
                let cell = *self.cells@[index];
                &&& entry.top == if index > 0 && !cell.continues_stream() {
                    1int
                } else {
                    0
                }
                &&& entry.body matches BodyModel::Cell(model)
                &&& model.cell == cell
                &&& model.presentation == self.presentation
                &&& model.expanded == (self.expanded_cells@.contains(index as usize)
                    && cell.expands(self.presentation))
                &&& cell.kind_of() != CellKind::User ==> model.style == TextStyle::plain()
                &&& cell.kind_of() == CellKind::User && self.highlight_cell != Some(
                    index as usize,
                ) ==> model.style == self.user_message_style
                &&& cell.kind_of() == CellKind::User && self.highlight_cell == Some(
                    index as usize,
                ) ==> model.style == self.user_message_style.adding(crate::styled::REVERSED)
            }),
    {
        assert(self.entries().len() == self.cells.len());
        assert(self.view.shown().len() == self.view.renderables.len());
        assert(self.view.shown()[index] == self.entries()[index]);
    }

    /// A new live tail shows its lines, behind a blank row where it follows a cell and starts something
    /// new; there is none without lines or without a cell in flight.
    pub proof fn law_new_tail(self, key: Option<LiveTailKey>, lines: Seq<HyperlinkLineView>)
        ensures
            self.tail_for(key, lines) is Some <==> key is Some && lines.len() > 0,
            self.tail_for(key, lines) matches Some(tail) ==> {
                &&& tail.body == BodyModel::<C>::Tail(lines)
                &&& tail.top == if self.cells.len() > 0 && !key->0.is_stream_continuation {
                    1int
                } else {
                    0
                }
            },
    {
    }

    /// Inserting a cell keeps the live tail, with a blank row more where the cell is the first one and
    /// the tail starts something new.
    pub proof fn law_tail_after_insert(self)
        requires
            self.well_formed(),
        ensures
            self.tail_after_insert() is Some <==> self.tail() is Some,
            self.tail() matches Some(tail) ==> {
                let after = self.tail_after_insert()->0;
                &&& after.body == tail.body
                &&& self.cells.len() > 0 || self.live_tail_key->0.is_stream_continuation
                    ==> after.top == tail.top
                &&& self.cells.len() == 0 && !self.live_tail_key->0.is_stream_continuation
                    && tail.top < 65535 ==> after.top == tail.top + 1
            },
    {
    }

    /// After a change of what is shown the window is at the bottom if it was, and else stays.
    pub proof fn law_window_follows_the_bottom(self)
        ensures
            self.view.at_bottom() ==> self.followed_offset() == usize::MAX,
            !self.view.at_bottom() ==> self.followed_offset() == self.view.scroll_offset,
    {
    }

    /// The hovered region is highlighted where it is shown: in the row of the area that shows the
    /// region's row, over its columns as far as the area goes; and not where that row is not in the
    /// window.
    pub proof fn law_hovered_region_is_highlighted(
        self,
        area: Rect,
        index: int,
        region: InlineExpansionRegion,
    )
        requires
            self.well_formed(),
            self.view.last_content_area == Some(area),
            0 <= index < self.cells.len(),
            index < self.view.layout_starts.len(),
            self.hovered_cell == Some(index as usize),
            self.hovered_region == Some(region),
            content_start(self, index) + region.row <= usize::MAX,
            area.x + region.start <= 65535,
        ensures
            ({
                let row = content_start(self, index) + region.row;
                let shown = self.view.scroll_offset <= row < self.view.scroll_offset + area.height;
                &&& self.hover_highlight() is Some <==> shown
                &&& self.hover_highlight() matches Some(h) ==> {
                    &&& h.row - area.y == row - self.view.scroll_offset
                    &&& h.from == area.x + region.start
                    &&& region.end <= area.width ==> h.to == area.x + region.end
                    &&& region.end > area.width ==> h.to == area.x + area.width
                    &&& h.style.add_modifier == crate::styled::BOLD
                    &&& h.style.bg is None
                    &&& if self.cells@[index].kind_of() == CellKind::Exec && region.row > 0 {
                        h.style.fg == Some(TextColor::Gray) && h.style.sub_modifier
                            == crate::styled::DIM
                    } else {
                        h.style.fg is None && h.style.sub_modifier == 0
                    }
                }
            }),
    {
        assert(0u16 | 1u16 == 1u16) by (bit_vector);
        assert(0u16 & !1u16 == 0u16) by (bit_vector);
        assert(1u16 & !2u16 == 1u16) by (bit_vector);
        assert(0u16 | 2u16 == 2u16) by (bit_vector);
    }

    /// Nothing is highlighted where nothing is hovered, or before the first drawing.
    pub proof fn law_nothing_hovered_nothing_highlighted(self)
        ensures
            self.hovered_cell is None || self.hovered_region is None
                || self.view.last_content_area is None ==> self.hover_highlight() is None,
    {
    }
}

/// A highlight changes the style of its columns in its row, and no other cell, and no symbol.
pub proof fn law_highlight_restyles_its_place(
    before: Grid,
    highlight: transcript_screen::Highlight,
    x: int,
    y: int,
)
    requires
        before.dom().contains((x, y)),
    ensures
        ({
            let after = transcript_screen::highlighted(before, Some(highlight));
            &&& after.dom() == before.dom()
            &&& after[(x, y)].symbol == before[(x, y)].symbol
            &&& y != highlight.row || x < highlight.from || x >= highlight.to ==> after[(x, y)]
                == before[(x, y)]
            &&& y == highlight.row && highlight.from <= x < highlight.to ==> {
                &&& after[(x, y)].fg == match highlight.style.fg {
                    Some(color) => color,
                    None => before[(x, y)].fg,
                }
                &&& after[(x, y)].bg == match highlight.style.bg {
                    Some(color) => color,
                    None => before[(x, y)].bg,
                }
                &&& after[(x, y)].modifier == (before[(x, y)].modifier
                    | highlight.style.add_modifier) & !highlight.style.sub_modifier
            }
        }),
        transcript_screen::highlighted(before, None) == before,
{
    let after = transcript_screen::highlighted(before, Some(highlight));
    assert(after.dom() =~= before.dom());
}

/// A modifier that is added is among those to add and not among those to take away, and the other way
/// round; the others, and the colors, stay as they are.
pub proof fn law_modifiers(style: TextStyle, modifier: u16, other: u16, color: TextColor)
    ensures
        style.adding(modifier).add_modifier & modifier == modifier,
        style.adding(modifier).sub_modifier & modifier == 0,
        style.removing(modifier).sub_modifier & modifier == modifier,
        style.removing(modifier).add_modifier & modifier == 0,
        other & modifier == 0 ==> {
            &&& style.adding(modifier).add_modifier & other == style.add_modifier & other
            &&& style.adding(modifier).sub_modifier & other == style.sub_modifier & other
            &&& style.removing(modifier).add_modifier & other == style.add_modifier & other
            &&& style.removing(modifier).sub_modifier & other == style.sub_modifier & other
        },
        style.adding(modifier).fg == style.fg && style.adding(modifier).bg == style.bg,
        style.removing(modifier).fg == style.fg && style.removing(modifier).bg == style.bg,
        style.colored(color).fg == Some(color) && style.colored(color).bg == style.bg,
        style.colored(color).add_modifier == style.add_modifier,
        style.colored(color).sub_modifier == style.sub_modifier,
        TextStyle::plain().fg is None && TextStyle::plain().bg is None,
        TextStyle::plain().add_modifier == 0 && TextStyle::plain().sub_modifier == 0,
{
    let add = style.add_modifier;
    let sub = style.sub_modifier;
    assert((add | modifier) & modifier == modifier) by (bit_vector);
    assert((sub & !modifier) & modifier == 0) by (bit_vector);
    assert((sub | modifier) & modifier == modifier) by (bit_vector);
    assert((add & !modifier) & modifier == 0) by (bit_vector);
    if other & modifier == 0 {
        assert((add | modifier) & other == add & other) by (bit_vector)
            requires
                other & modifier == 0,
        ;
        assert((sub & !modifier) & other == sub & other) by (bit_vector)
            requires
                other & modifier == 0,
        ;
        assert((add & !modifier) & other == add & other) by (bit_vector)
            requires
                other & modifier == 0,
        ;
        assert((sub | modifier) & other == sub & other) by (bit_vector)
            requires
                other & modifier == 0,
        ;
    }
}

/// An overlay has the pager above and three rows for the hints below it.
pub proof fn law_overlay_rows(area: Rect)
    requires
        area.fits(),
        area.height >= 3,
    ensures
        ({
            let pager = transcript_screen::pager_area(area);
            let hints = transcript_screen::hints_area(area);
            &&& pager.x == area.x && pager.width == area.width && pager.y == area.y
            &&& hints.x == area.x && hints.width == area.width && hints.height == 3
            &&& hints.y == pager.y + pager.height
            &&& hints.y + 3 == area.y + area.height
            &&& keys::hint_row(hints, 0).y == hints.y
            &&& keys::hint_row(hints, 1).y == hints.y + 1
            &&& keys::hint_row(hints, 0).width == area.width
            &&& keys::hint_row(hints, 1).width == area.width
            &&& keys::hint_row(hints, 0).x == area.x
            &&& keys::hint_row(hints, 1).x == area.x
        }),
{
}

/// An entry takes the rows of its body and the blank rows above it, and its body is drawn below those.
pub proof fn law_blank_rows_are_above_the_body<C: HistoryCell>(
    entry: EntryModel<C>,
    area: Rect,
    before: Grid,
)
    requires
        area.fits(),
    ensures
        ({
            let bare = EntryModel { top: 0u16, body: entry.body };
            let rows = TranscriptRenderable::<C>::height_of(bare, area.width);
            &&& rows + entry.top <= 65535 ==> TranscriptRenderable::<C>::height_of(
                entry,
                area.width,
            ) == rows + entry.top
            &&& entry.top <= area.height ==> TranscriptRenderable::<C>::painted(entry, area, before)
                == TranscriptRenderable::<C>::painted(
                bare,
                Rect {
                    x: area.x,
                    y: (area.y + entry.top) as u16,
                    width: area.width,
                    height: (area.height - entry.top) as u16,
                },
                before,
            )
            &&& match entry.body {
                BodyModel::Cell(cell) => {
                    &&& rows == CellRenderable::<C>::height_of(cell, area.width)
                    &&& TranscriptRenderable::<C>::painted(bare, area, before) == CellRenderable::<
                        C,
                    >::painted(cell, area, before)
                },
                BodyModel::Tail(lines) => {
                    &&& rows == HyperlinkLinesRenderable::<C>::height_of(lines, area.width)
                    &&& TranscriptRenderable::<C>::painted(bare, area, before)
                        == HyperlinkLinesRenderable::<C>::painted(lines, area, before)
                },
            }
        }),
{
}

/// A cell shows its own lines, and those of its expanded form where it is expanded and has one; it takes
/// the rows it says it does, and where it is expanded those of the wrapped lines; its hyperlinks are
/// marked over what is drawn.
pub proof fn law_cells_show_their_lines<C: HistoryCell>(
    model: CellModel<C>,
    area: Rect,
    before: Grid,
)
    ensures
        ({
            let lines = model.shown_lines(area.width);
            let own = model.cell.lines_at(model.presentation, area.width);
            let expanded = model.cell.expanded_lines_at(model.presentation, area.width);
            &&& !model.expanded ==> lines == own
            &&& model.expanded && expanded is None ==> lines == own
            &&& model.expanded && expanded is Some ==> Some(lines) == expanded
            &&& !model.expanded ==> CellRenderable::<C>::height_of(model, area.width)
                == model.cell.height_at(model.presentation, area.width)
            &&& model.expanded ==> {
                let rows = canvas::wrapped_rows(
                    canvas::span_texts(crate::hyperlinks::visible(lines)),
                    area.width,
                );
                CellRenderable::<C>::height_of(model, area.width) == if rows <= 65535 {
                    rows as int
                } else {
                    0
                }
            }
            &&& CellRenderable::<C>::painted(model, area, before) == C::links_marked(
                lines,
                area,
                0,
                canvas::paragraph_painted(
                    lines.map_values(|line: HyperlinkLineView| line.line),
                    model.style,
                    area,
                    before,
                ),
            )
        }),
{
    let lines = model.shown_lines(area.width);
    assert(crate::hyperlinks::visible(lines) =~= lines.map_values(
        |line: HyperlinkLineView| line.line,
    ));
}

/// A live tail takes the rows of its wrapped lines, and is drawn in no particular style.
pub proof fn law_tails_show_their_lines<C: HistoryCell>(
    lines: Seq<HyperlinkLineView>,
    area: Rect,
    before: Grid,
)
    ensures
        ({
            let shown = lines.map_values(|line: HyperlinkLineView| line.line);
            let rows = canvas::wrapped_rows(canvas::span_texts(shown), area.width);
            &&& HyperlinkLinesRenderable::<C>::height_of(lines, area.width) == if rows <= 65535 {
                rows as int
            } else {
                0
            }
            &&& HyperlinkLinesRenderable::<C>::painted(lines, area, before) == C::links_marked(
                lines,
                area,
                0,
                canvas::paragraph_painted(shown, TextStyle::plain(), area, before),
            )
        }),
{
    let shown = lines.map_values(|line: HyperlinkLineView| line.line);
    assert(crate::hyperlinks::visible(lines) =~= shown);
}

/// The key of a live tail tells everything apart that the tail depends on.
pub proof fn law_tail_keys_tell_apart(
    width: u16,
    key: ActiveCellTranscriptKey,
    other_width: u16,
    other: ActiveCellTranscriptKey,
)
    ensures
        transcript::tail_key(width, key) == transcript::tail_key(other_width, other) <==> width
            == other_width && key == other,
        transcript::tail_key(width, key).is_stream_continuation == key.is_stream_continuation,
{
}

/// A range is cut to the cells that there are, at both ends.
pub proof fn law_range_is_cut(start: usize, end: usize, count: int)
    requires
        0 <= count,
    ensures
        ({
            let (from, to) = transcript::clamped_range(start, end, count);
            &&& 0 <= from <= to <= count
            &&& start <= end && end <= count ==> from == start && to == end
            &&& start <= count && count < end ==> from == start && to == count
            &&& start > end || start > count ==> from == to
            &&& forall|i: int|
                0 <= i < count ==> (#[trigger] from_to(from, to, i) <==> start <= i < end)
        }),
{
}

/// A position lies in a range.
pub open spec fn from_to(from: int, to: int, i: int) -> bool {
    from <= i < to
}

/// A highlight that stands on no cell is gone after a consolidation, and none stays none.
pub proof fn law_lost_highlight(highlight: Option<usize>, start: int, end: int, count: int)
    requires
        0 <= start < end <= count,
        highlight matches Some(index) ==> index >= count,
    ensures
        transcript::consolidated_highlight(highlight, start, end, count) is None,
{
}

/// The expanded cells after a click are the ones before with the clicked one in or out.
pub proof fn law_toggled(expanded: Set<usize>, index: usize, other: usize)
    ensures
        transcript::toggled(expanded, index).contains(other) <==> (expanded.contains(other)
            != (other == index)),
{
}

/// How the cells are shown is what the overlay says.
pub proof fn law_showing<C: HistoryCell>(overlay: TranscriptOverlay<C>)
    ensures
        overlay.showing().highlight == overlay.highlight_cell,
        overlay.showing().expanded == overlay.expanded_cells@,
        overlay.showing().presentation == overlay.presentation,
        overlay.showing().user_message_style == overlay.user_message_style,
{
}

/// A page of fixed content is closed by the keys that close it, scrolled by the pager's keys, and left
/// alone by everything else.
pub proof fn law_page_events<R: Renderable>(
    before: StaticOverlay<R>,
    after: StaticOverlay<R>,
    event: OverlayEvent,
    action: OverlayAction,
)
    requires
        before.handled(event, after, action),
    ensures
        event matches OverlayEvent::Key(pressed, viewport) ==> {
            let scrolled = pager::offset_after_key(
                before.view.scroll_offset,
                before.view.last_content_height,
                pressed,
                viewport,
            );
            &&& after.is_done == (before.is_done || pressed.close)
            &&& pressed.close || scrolled is None ==> after.view == before.view && action
                == OverlayAction::Nothing
            &&& !pressed.close ==> (scrolled matches Some(offset) ==> after.view.scroll_offset
                == offset && action == OverlayAction::ScheduleFrameSoon)
            &&& after.view.renderables == before.view.renderables
        },
        event == OverlayEvent::Draw || event == OverlayEvent::Resize ==> after == before && action
            == OverlayAction::Draw,
        event is Mouse || event is Other ==> after == before && action == OverlayAction::Nothing,
{
}

/// The keys of a hint stand in their order, with a slash between each two.
pub proof fn law_keys_of_a_hint(names: Seq<SpanView>, i: int)
    requires
        0 <= i < names.len(),
    ensures
        keys::key_spans(names).len() == 2 * names.len() - 1,
        keys::key_spans(names)[2 * i] == names[i],
        i + 1 < names.len() ==> keys::key_spans(names)[2 * i + 1] == (SpanView {
            content: seq!['/'],
            style: TextStyle::plain(),
        }),
    decreases names.len(),
{
    reveal_strlit("/");
    assert("/"@ =~= seq!['/']);
    if names.len() > 1 {
        let before = names.drop_last();
        if i < before.len() {
            law_keys_of_a_hint(before, i);
        } else {
            law_keys_of_a_hint(before, i - 1);
        }
    }
}

/// A line of hints begins with a blank; each hint is its keys, a blank and what they are for, with three
/// blanks before every hint but the first.
pub proof fn law_hints_of_a_line(hints: Seq<KeyHintView>, next: KeyHintView)
    ensures
        ({
            let plain = |content: Seq<char>| SpanView { content, style: TextStyle::plain() };
            let before = keys::hint_spans(hints);
            let gap: Seq<SpanView> = if hints.len() > 0 {
                seq![plain(seq![' ', ' ', ' '])]
            } else {
                Seq::empty()
            };
            &&& keys::hint_spans(Seq::empty()) == seq![plain(seq![' '])]
            &&& keys::hint_spans(hints.push(next)) == before + gap + keys::key_spans(next.keys) + seq![
                plain(seq![' ']),
                plain(next.description),
            ]
            &&& keys::hint_line(hints).spans == before
            &&& keys::hint_line(hints).style == TextStyle::plain().adding(crate::styled::DIM)
        }),
{
    reveal_strlit(" ");
    reveal_strlit("   ");
    assert(" "@ =~= seq![' ']);
    assert("   "@ =~= seq![' ', ' ', ' ']);
    let all = hints.push(next);
    assert(all.drop_last() =~= hints);
    let plain = |content: Seq<char>| SpanView { content, style: TextStyle::plain() };
    let before = keys::hint_spans(hints);
    let gap: Seq<SpanView> = if hints.len() > 0 {
        seq![plain(seq![' ', ' ', ' '])]
    } else {
        Seq::empty()
    };
    assert(keys::hint_spans(all) =~= before + gap + keys::key_spans(next.keys) + seq![
        plain(seq![' ']),
        plain(next.description),
    ]);
    assert(keys::hint_spans(Seq::empty()) =~= seq![plain(seq![' '])]);
}

/// A hint names the first key of a command, if it has one.
pub proof fn law_hints_name_the_first_key(bindings: Seq<KeyBinding>)
    ensures
        bindings.len() == 0 ==> keys::first_label(bindings).len() == 0,
        bindings.len() > 0 ==> keys::first_label(bindings) == seq![bindings[0].label@],
{
}

/// The hints of the pager name its keys, those of the transcript also the keys that edit messages, and
/// more of them while a message is highlighted.
pub proof fn law_hints(keymap: PagerKeymap)
    ensures
        ({
            let first = |bindings: Seq<KeyBinding>| keys::first_label(bindings);
            let moving = keys::moving_hints(keymap);
            &&& moving.len() == 3
            &&& moving[0].keys == first(keymap.scroll_up@) + first(keymap.scroll_down@)
            &&& moving[1].keys == first(keymap.page_up@) + first(keymap.page_down@)
            &&& moving[2].keys == first(keymap.jump_top@) + first(keymap.jump_bottom@)
            &&& keys::close_hint(keymap).keys == first(keymap.close@)
            &&& keys::transcript_hints(keymap, false).len() == 2
            &&& keys::transcript_hints(keymap, true).len() == 4
            &&& forall|highlighted: bool|
                (#[trigger] keys::transcript_hints(keymap, highlighted))[0] == keys::close_hint(
                    keymap,
                )
            &&& keys::transcript_hints(keymap, false)[1].keys == seq![keymap.edit.esc.label@]
            &&& keys::transcript_hints(keymap, true)[1].keys == seq![
                keymap.edit.esc.label@,
                keymap.edit.left.label@,
            ]
            &&& keys::transcript_hints(keymap, true)[1].description == keys::transcript_hints(
                keymap,
                false,
            )[1].description
            &&& keys::transcript_hints(keymap, true)[2].keys == seq![keymap.edit.right.label@]
            &&& keys::transcript_hints(keymap, true)[3].keys == seq![keymap.edit.enter.label@]
        }),
{
}


/// A new transcript is pinned to the bottom, with nothing highlighted, hovered, expanded or in flight; a
/// new page shows its first row.
pub proof fn law_new_overlays<C: HistoryCell, R: Renderable>(
    overlay: TranscriptOverlay<C>,
    page: StaticOverlay<R>,
    title: String,
    keymap: PagerKeymap,
    user_message_style: TextStyle,
    i: usize,
)
    ensures
        overlay.is_new(keymap, user_message_style) ==> {
            &&& overlay.view.at_bottom()
            &&& overlay.highlight_cell is None
            &&& overlay.hovered_cell is None && overlay.hovered_region is None
            &&& !overlay.expanded_cells@.contains(i)
            &&& overlay.tail() is None && overlay.live_tail_key is None
            &&& !overlay.is_done
            &&& overlay.view.keymap == keymap
            &&& overlay.user_message_style == user_message_style
            &&& overlay.view.pending_scroll_chunk is None
            &&& overlay.view.last_content_area is None && overlay.view.layout_width is None
            &&& overlay.view.title@ == "T R A N S C R I P T"@
        },
        page.is_new(title, keymap) ==> {
            &&& page.view.scroll_offset == 0 && !page.is_done
            &&& page.view.title == title && page.view.keymap == keymap
            &&& page.view.pending_scroll_chunk is None
            &&& page.view.last_content_area is None && page.view.layout_width is None
            &&& page.view.last_content_height is None && page.view.last_rendered_height is None
        },
{
}

/// What an operation keeps of an overlay.
pub proof fn law_kept<C: HistoryCell>(a: TranscriptOverlay<C>, b: TranscriptOverlay<C>)
    ensures
        a.same_setup(b) ==> a.view.same_frame(b.view) && a.presentation == b.presentation
            && a.user_message_style == b.user_message_style && a.is_done == b.is_done,
        a.same_hover(b) ==> a.hovered_cell == b.hovered_cell && a.hovered_region
            == b.hovered_region,
        a.same_transcript(b) ==> {
            &&& a.same_hover(b)
            &&& a.view.shown() == b.view.shown()
            &&& a.view.title == b.view.title && a.view.keymap == b.view.keymap
            &&& a.cells == b.cells && a.highlight_cell == b.highlight_cell
            &&& a.expanded_cells == b.expanded_cells && a.presentation == b.presentation
            &&& a.live_tail_key == b.live_tail_key && a.is_done == b.is_done
            &&& a.user_message_style == b.user_message_style
        },
        a.view.renderables.len() <= a.cells.len() ==> a.tail() is None,
        a.view.renderables.len() > a.cells.len() ==> a.tail() == Some(
            a.view.renderables@[a.cells.len() as int].model(),
        ),
{
    assert(a.view.shown().len() == a.view.renderables.len());
    if a.view.renderables.len() > a.cells.len() {
        assert(a.view.shown()[a.cells.len() as int]
            == a.view.renderables@[a.cells.len() as int].model());
    }
}

/// One more blank row above an entry is one more blank row.
pub proof fn law_inset<C: HistoryCell>(entry: EntryModel<C>)
    ensures
        transcript::inset_entry(entry).body == entry.body,
        entry.top < 65535 ==> transcript::inset_entry(entry).top == entry.top + 1,
{
}

/// What is said of keys and hints is what they hold.
pub proof fn law_hints_as_held(
    hint: keys::KeyHint,
    hints: Seq<keys::KeyHint>,
    bindings: Seq<KeyBinding>,
    i: int,
)
    ensures
        hint@.description == hint.description@,
        hint@.keys == keys::labels(hint.keys@),
        keys::labels(bindings).len() == bindings.len(),
        0 <= i < bindings.len() ==> keys::labels(bindings)[i] == bindings[i].label@,
        keys::hint_views(hints).len() == hints.len(),
        0 <= i < hints.len() ==> keys::hint_views(hints)[i] == hints[i]@,
{
}

/// The hints are drawn in two rows, one below the other.
pub proof fn law_hints_are_drawn_in_two_rows(
    first: Seq<KeyHintView>,
    second: Seq<KeyHintView>,
    area: Rect,
    before: Grid,
)
    requires
        area.x + area.width <= 65535,
        area.y < 65534,
    ensures
        keys::hints_painted(first, second, area, before) == canvas::lines_painted(
            seq![keys::hint_line(second)],
            Rect { x: area.x, y: (area.y + 1) as u16, width: area.width, height: 1 },
            canvas::lines_painted(
                seq![keys::hint_line(first)],
                Rect { x: area.x, y: area.y, width: area.width, height: 1 },
                before,
            ),
        ),
{
}

} // verus!
