//! The transcript overlay on the screen: drawing, hovering, clicking and keys.

use ratatui::buffer::Buffer;
use vstd::prelude::*;

use crate::canvas::{self, Grid};
use crate::cells::{CellKind, HistoryCell, InlineExpansionRegion, TranscriptPresentation};
use crate::geometry::Rect;
use crate::keys::{self, PressedKeys};
use crate::pager;
use crate::renderable::Renderable;
use crate::styled::{TextColor, TextStyle, BOLD, DIM};
use crate::transcript::{TranscriptBody, TranscriptOverlay};

verus! {

broadcast use vstd::std_specs::hash::group_hash_axioms;

/// A column of an area, as far as a column number can count.
pub open spec fn column_in(area: Rect, column: usize) -> int {
    crate::geometry::lesser(
        area.x + crate::geometry::lesser(column as int, u16::MAX as int),
        u16::MAX as int,
    )
}

/// The first column of the screen that a region takes.
pub open spec fn region_start(area: Rect, region: InlineExpansionRegion) -> int {
    column_in(area, region.start)
}

/// The column of the screen right of a region.
pub open spec fn region_end(area: Rect, region: InlineExpansionRegion) -> int {
    crate::geometry::lesser(column_in(area, region.end), area.right_edge())
}

/// A column of an area, as far as a column number can count.
fn column_of(area: Rect, column: usize) -> (x: u16)
    ensures
        x == column_in(area, column),
{
    let column = if column <= u16::MAX as usize {
        column as u16
    } else {
        u16::MAX
    };
    area.x.saturating_add(column)
}

/// The column right of a region.
fn end_of(area: Rect, region: &InlineExpansionRegion) -> (x: u16)
    ensures
        x == region_end(area, *region),
{
    let end = column_of(area, region.end);
    let right = area.right();
    if end <= right {
        end
    } else {
        right
    }
}

/// Whether a region is at a row of its cell and a column of the screen.
pub open spec fn region_hit(
    region: InlineExpansionRegion,
    area: Rect,
    content_row: int,
    column: u16,
) -> bool {
    &&& content_row == region.row
    &&& region_start(area, region) <= column < region_end(area, region)
}

/// The first of the regions from `from` on that is at a row and a column.
pub open spec fn first_hit(
    regions: Seq<InlineExpansionRegion>,
    area: Rect,
    content_row: int,
    column: u16,
    from: nat,
) -> Option<InlineExpansionRegion>
    decreases regions.len() - from,
{
    if from >= regions.len() {
        None
    } else if region_hit(regions[from as int], area, content_row, column) {
        Some(regions[from as int])
    } else {
        first_hit(regions, area, content_row, column, from + 1)
    }
}

/// The style of a hovered region: bold, and for the output of a command gray instead of dim.
pub open spec fn hover_style(kind: CellKind, region: InlineExpansionRegion) -> TextStyle {
    if kind == CellKind::Exec && region.row > 0 {
        TextStyle::plain().adding(BOLD).colored(TextColor::Gray).removing(DIM)
    } else {
        TextStyle::plain().adding(BOLD)
    }
}

/// The grid with the style of some columns of a row changed.
pub open spec fn row_restyled(
    before: Grid,
    row: int,
    from: int,
    to: int,
    style: TextStyle,
) -> Grid {
    Map::new(
        |p: (int, int)| before.dom().contains(p),
        |p: (int, int)|
            if p.1 == row && from <= p.0 < to {
                canvas::restyled(before[p], style)
            } else {
                before[p]
            },
    )
}

/// Some columns of a row of the screen, and a style for them.
pub struct Highlight {
    pub row: int,
    pub from: int,
    pub to: int,
    pub style: TextStyle,
}

/// The grid with a highlight, if there is one.
pub open spec fn highlighted(before: Grid, highlight: Option<Highlight>) -> Grid {
    match highlight {
        Some(h) => row_restyled(before, h.row, h.from, h.to, h.style),
        None => before,
    }
}

impl<C: HistoryCell> TranscriptOverlay<C> {
    /// The blank rows above a cell.
    pub open spec fn blank_rows(self, index: int) -> int {
        if index > 0 && !self.cells@[index].continues_stream() {
            1
        } else {
            0
        }
    }

    /// Where the hovered region is on the screen, and the style it gets there.
    pub open spec fn hover_highlight(self) -> Option<Highlight> {
        match (self.hovered_cell, self.hovered_region, self.view.last_content_area) {
            (Some(index), Some(region), Some(area)) => {
                let row = crate::geometry::lesser(
                    self.view.layout_starts@[index as int] + self.blank_rows(index as int)
                        + region.row,
                    usize::MAX as int,
                );
                if index < self.cells.len() && index < self.view.layout_starts.len()
                    && self.view.scroll_offset <= row < self.view.scroll_offset + area.height {
                    Some(
                        Highlight {
                            row: area.y + (row - self.view.scroll_offset),
                            from: region_start(area, region),
                            to: region_end(area, region),
                            style: hover_style(self.cells@[index as int].kind_of(), region),
                        },
                    )
                } else {
                    None
                }
            },
            _ => None,
        }
    }

    /// Shows which region is hovered.
    pub fn render_hovered_region(&self, buffer: &mut Buffer)
        requires
            self.well_formed(),
            self.view.last_content_area matches Some(area) ==> canvas::covers(
                canvas::buffer_cells(*old(buffer)),
                area,
            ),
        ensures
            canvas::buffer_cells(*final(buffer)) == highlighted(
                canvas::buffer_cells(*old(buffer)),
                self.hover_highlight(),
            ),
    {
        let ghost before = canvas::buffer_cells(*buffer);
        let (index, region) = match (self.hovered_cell, self.hovered_region) {
            (Some(index), Some(region)) => (index, region),
            _ => {
                return;
            },
        };
        if index >= self.cells.len() {
            return;
        }
        let area = match self.view.last_content_area {
            Some(area) => area,
            None => {
                return;
            },
        };
        if index >= self.view.layout_starts.len() {
            return;
        }
        let cell = &self.cells[index];
        let start = self.view.layout_starts[index];
        let content_start = if index > 0 && !cell.is_stream_continuation() {
            start.saturating_add(1)
        } else {
            start
        };
        let region_row = content_start.saturating_add(region.row);
        if region_row < self.view.scroll_offset {
            return;
        }
        let viewport_row: usize = region_row - self.view.scroll_offset;
        if viewport_row >= area.height as usize {
            return;
        }
        let text_start = column_of(area, region.start);
        let text_end = end_of(area, &region);
        let y: u16 = area.y + viewport_row as u16;
        let mut style = TextStyle::none().add(BOLD);
        if cell.kind() == CellKind::Exec && region.row > 0 {
            style = style.color(TextColor::Gray).remove(DIM);
        }
        let mut x: u16 = text_start;
        assert(row_restyled(before, y as int, text_start as int, x as int, style) =~= before);
        while x < text_end
            invariant
                area.x <= text_start <= x,
                x == text_start || x <= text_end,
                text_end <= area.right_edge(),
                area.y <= y < area.bottom_edge(),
                canvas::covers(before, area),
                canvas::buffer_cells(*buffer) == row_restyled(
                    before,
                    y as int,
                    text_start as int,
                    x as int,
                    style,
                ),
            decreases text_end - x,
        {
            assert(area.holds(x as int, y as int));
            canvas::restyle_cell(buffer, x, y, style);
            x += 1;
            assert(canvas::buffer_cells(*buffer) =~= row_restyled(
                before,
                y as int,
                text_start as int,
                x as int,
                style,
            ));
        }
        assert(row_restyled(before, y as int, text_start as int, x as int, style)
            =~= row_restyled(before, y as int, text_start as int, text_end as int, style));
    }

    /// The cell and the region of it at a position of the screen where a click expands or collapses
    /// the cell.
    pub open spec fn hit(self, column: u16, row: u16) -> Option<(usize, InlineExpansionRegion)> {
        match self.view.shown_position(column, row) {
            Some((index, inner_row)) => if index < self.cells.len()
                && self.cells@[index as int].expands(self.presentation)
                && inner_row >= self.blank_rows(index as int) {
                let area = self.view.last_content_area->0;
                match first_hit(
                    self.cells@[index as int].regions_at(
                        area.width,
                        self.expanded_cells@.contains(index),
                    ),
                    area,
                    inner_row - self.blank_rows(index as int),
                    column,
                    0,
                ) {
                    Some(region) => Some((index, region)),
                    None => None,
                }
            } else {
                None
            },
            None => None,
        }
    }

    /// The cell and the region of it at a position of the screen where a click expands or collapses
    /// the cell.
    pub fn interactive_region_at(&self, column: u16, row: u16) -> (found: Option<
        (usize, InlineExpansionRegion),
    >)
        requires
            self.well_formed(),
        ensures
            found == self.hit(column, row),
    {
        let (index, inner_row) = match self.view.renderable_position_at(column, row) {
            Some(position) => position,
            None => {
                return None;
            },
        };
        if index >= self.cells.len() {
            return None;
        }
        let cell = &self.cells[index];
        let interactive = match self.presentation {
            TranscriptPresentation::Detailed => cell.has_inline_transcript_expansion(),
            TranscriptPresentation::Display => cell.has_inline_expansion(),
        };
        if !interactive {
            return None;
        }
        let area = match self.view.last_content_area {
            Some(area) => area,
            None => {
                return None;
            },
        };
        let blank_rows: usize = if index > 0 && !cell.is_stream_continuation() {
            1
        } else {
            0
        };
        if inner_row < blank_rows {
            return None;
        }
        let content_row: usize = inner_row - blank_rows;
        let expanded = self.expanded_cells.contains(&index);
        let regions = cell.inline_expansion_regions(area.width, expanded);
        let mut i: usize = 0;
        #[verifier::loop_isolation(false)]
        while i < regions.len()
            invariant
                i <= regions.len(),
                first_hit(regions@, area, content_row as int, column, 0) == first_hit(
                    regions@,
                    area,
                    content_row as int,
                    column,
                    i as nat,
                ),
            decreases regions.len() - i,
        {
            let region = regions[i];
            let start = column_of(area, region.start);
            let end = end_of(area, &region);
            if content_row == region.row && column >= start && column < end {
                return Some((index, region));
            }
            i += 1;
        }
        None
    }
}

/// What a mouse event is about.
#[derive(Clone, Copy, Debug, PartialEq, Eq, Structural)]
pub enum MouseKind {
    ScrollUp,
    ScrollDown,
    Moved,
    LeftDown,
    Other,
}

/// Something that happened while an overlay is open.
#[derive(Clone, Copy, Debug, PartialEq, Eq, Structural)]
pub enum OverlayEvent {
    /// A key event, as the commands it presses, and the area of the terminal.
    Key(PressedKeys, Rect),
    /// A mouse event at a column and a row.
    Mouse(MouseKind, u16, u16),
    /// The overlay has to be drawn.
    Draw,
    /// The terminal has another size.
    Resize,
    Other,
}

/// What is to be done after an event.
#[derive(Clone, Copy, Debug, PartialEq, Eq, Structural)]
pub enum OverlayAction {
    Nothing,
    /// A frame is due.
    ScheduleFrame,
    /// A frame is due after the usual interval between frames.
    ScheduleFrameSoon,
    /// The overlay is to be drawn into the whole frame.
    Draw,
}

/// The rows by which a mouse wheel scrolls.
pub const WHEEL_ROWS: usize = 3;

/// The area above the hints.
pub open spec fn pager_area(area: Rect) -> Rect {
    Rect::clamped(
        area.x,
        area.y,
        area.width,
        crate::geometry::monus(area.height as int, 3) as u16,
    )
}

/// The area of the hints.
pub open spec fn hints_area(area: Rect) -> Rect {
    Rect::clamped(
        area.x,
        (area.y + crate::geometry::monus(area.height as int, 3)) as u16,
        area.width,
        3,
    )
}

impl<C: HistoryCell> TranscriptOverlay<C> {
    /// Draws the hints into the rows of an area.
    pub fn render_hints(&self, area: Rect, buffer: &mut Buffer)
        requires
            canvas::covers(canvas::buffer_cells(*old(buffer)), keys::hint_row(area, 0)),
            canvas::covers(canvas::buffer_cells(*old(buffer)), keys::hint_row(area, 1)),
            area.width <= canvas::MAX_COLUMNS,
            self.view.keymap.fits(),
        ensures
            canvas::buffer_cells(*final(buffer)) == keys::hints_painted(
                keys::moving_hints(self.view.keymap),
                keys::transcript_hints(self.view.keymap, self.highlight_cell is Some),
                area,
                canvas::buffer_cells(*old(buffer)),
            ),
            canvas::buffer_cells(*final(buffer)).dom() == canvas::buffer_cells(*old(buffer)).dom(),
    {
        let first = keys::hints_for_moving(&self.view.keymap);
        let second = keys::hints_for_transcript(
            &self.view.keymap,
            self.highlight_cell.is_some(),
        );
        keys::render_hint_rows(area, buffer, &first, &second);
    }

    /// Nothing but the state of the pager is other than before, and the pager shows the same.
    pub open spec fn same_transcript(self, other: Self) -> bool {
        &&& self.view.shown() == other.view.shown()
        &&& self.view.title == other.view.title
        &&& self.view.keymap == other.view.keymap
        &&& self.cells == other.cells
        &&& self.highlight_cell == other.highlight_cell
        &&& self.same_hover(other)
        &&& self.expanded_cells == other.expanded_cells
        &&& self.presentation == other.presentation
        &&& self.live_tail_key == other.live_tail_key
        &&& self.is_done == other.is_done
        &&& self.user_message_style == other.user_message_style
    }

    /// Draws the overlay: the pager, the hovered region over it, and the hints below.
    pub fn render<P: Fn(usize, usize) -> u8>(
        &mut self,
        area: Rect,
        buffer: &mut Buffer,
        percent_of: &P,
    )
        requires
            old(self).well_formed(),
            old(self).view.keymap.fits(),
            area.fits(),
            area.right_edge() < u16::MAX,
            area.width <= canvas::MAX_COLUMNS,
            canvas::covers(canvas::buffer_cells(*old(buffer)), area),
            canvas::covers(
                canvas::buffer_cells(*old(buffer)),
                keys::hint_row(hints_area(area), 0),
            ),
            canvas::covers(
                canvas::buffer_cells(*old(buffer)),
                keys::hint_row(hints_area(area), 1),
            ),
            old(self).view.fraction_when_rendered(pager_area(area)) matches Some(
                (offset, max_scroll),
            ) ==> call_requires(*percent_of, (offset, max_scroll)),
            forall|percent: u8|
                crate::pager::PagerView::<crate::transcript::TranscriptRenderable<C>>::may_show(
                    old(self).view.fraction_when_rendered(pager_area(area)),
                    *percent_of,
                    percent,
                ) ==> #[trigger] crate::pager_render::bar_has_room(
                    crate::pager_render::bar_area(
                        pager_area(area),
                        pager::content_area_of(pager_area(area)),
                    ),
                    percent,
                ),
        ensures
            final(self).well_formed(),
            final(self).same_transcript(*old(self)),
            final(self).view.scroll_offset == old(self).view.offset_when_rendered(
                pager_area(area),
            ),
            final(self).view.last_content_area == Some(
                pager::content_area_of(pager_area(area)),
            ),
            final(self).view.last_content_height == Some(
                pager::content_area_of(pager_area(area)).height as usize,
            ),
            final(self).view.last_rendered_height == Some(
                old(self).view.rows_at(area.width) as usize,
            ),
            final(self).view.pending_scroll_chunk is None,
            final(self).view.layout_width == Some(area.width),
            final(self).view.redrawn_from(
                old(self).view,
                pager::content_area_of(pager_area(area)),
                old(self).view.layout_width != Some(area.width),
            ),
            canvas::buffer_cells(*final(buffer)).dom() == canvas::buffer_cells(*old(buffer)).dom(),
            exists|percent: u8|
                {
                    &&& crate::pager::PagerView::<
                        crate::transcript::TranscriptRenderable<C>,
                    >::may_show(
                        old(self).view.fraction_when_rendered(pager_area(area)),
                        *percent_of,
                        percent,
                    )
                    &&& canvas::buffer_cells(*final(buffer)) == keys::hints_painted(
                        keys::moving_hints(old(self).view.keymap),
                        keys::transcript_hints(
                            old(self).view.keymap,
                            old(self).highlight_cell is Some,
                        ),
                        hints_area(area),
                        highlighted(
                            #[trigger] old(self).view.frame_painted(
                                pager_area(area),
                                percent,
                                canvas::buffer_cells(*old(buffer)),
                            ),
                            final(self).hover_highlight(),
                        ),
                    )
                },
    {
        let ghost before = canvas::buffer_cells(*buffer);
        let top_h = area.height.saturating_sub(3);
        let top = Rect::new(area.x, area.y, area.width, top_h);
        let bottom = Rect::new(area.x, area.y + top_h, area.width, 3);
        proof {
            self.lemma_takes(top.width);
            assert forall|x: int, y: int| #[trigger] top.holds(x, y) implies before.dom().contains(
                (x, y),
            ) by {
                assert(area.holds(x, y));
            }
        }
        assert(self.view.shown().len() == self.view.renderables.len());
        self.view.render(top, buffer, percent_of);
        assert(self.view.shown().len() == self.view.renderables.len());
        let ghost content = pager::content_area_of(top);
        assert forall|x: int, y: int| #[trigger] content.holds(x, y) implies before.dom().contains(
            (x, y),
        ) by {
            assert(area.holds(x, y));
        }
        let ghost drawn = canvas::buffer_cells(*buffer);
        self.render_hovered_region(buffer);
        assert(canvas::buffer_cells(*buffer).dom() =~= drawn.dom());
        self.render_hints(bottom, buffer);
    }

    /// Draws the window alone over the whole area, and the hovered region over it.
    pub fn render_scrollback(&mut self, area: Rect, buffer: &mut Buffer)
        requires
            old(self).well_formed(),
            area.fits(),
            area.width <= canvas::MAX_COLUMNS,
            canvas::covers(canvas::buffer_cells(*old(buffer)), area),
        ensures
            final(self).well_formed(),
            final(self).same_transcript(*old(self)),
            final(self).view.scroll_offset == pager::clamped_offset(
                old(self).view.scroll_offset,
                old(self).view.rows_at(area.width),
                area.height,
            ),
            final(self).view.last_content_area == Some(area),
            final(self).view.last_content_height == Some(area.height as usize),
            final(self).view.last_rendered_height == Some(
                old(self).view.rows_at(area.width) as usize,
            ),
            final(self).view.pending_scroll_chunk == old(self).view.pending_scroll_chunk,
            final(self).view.layout_width == Some(area.width),
            final(self).view.redrawn_from(
                old(self).view,
                area,
                old(self).view.layout_width != Some(area.width),
            ),
            canvas::buffer_cells(*final(buffer)).dom() == canvas::buffer_cells(*old(buffer)).dom(),
            canvas::buffer_cells(*final(buffer)) == highlighted(
                crate::pager_render::content_painted::<crate::transcript::TranscriptRenderable<C>>(
                    old(self).view.shown(),
                    area,
                    final(self).view.scroll_offset as int,
                    canvas::cleared(canvas::buffer_cells(*old(buffer)), area),
                ),
                final(self).hover_highlight(),
            ),
    {
        proof {
            self.lemma_takes(area.width);
        }
        assert(self.view.shown().len() == self.view.renderables.len());
        self.view.render_bare(area, buffer);
        assert(self.view.shown().len() == self.view.renderables.len());
        self.render_hovered_region(buffer);
    }

    /// The hovered cell and region at a position.
    pub open spec fn hover_at(self, column: u16, row: u16) -> (
        Option<usize>,
        Option<InlineExpansionRegion>,
    ) {
        match self.hit(column, row) {
            Some((index, region)) => (Some(index), Some(region)),
            None => (None, None),
        }
    }

    /// What an event changes, and what is left to do about it.
    pub open spec fn handled(self, event: OverlayEvent, after: Self, action: OverlayAction) -> bool {
        match event {
            OverlayEvent::Key(pressed, viewport_area) => {
                if pressed.close || pressed.close_transcript {
                    &&& action == OverlayAction::Nothing
                    &&& after == (TranscriptOverlay { is_done: true, ..self })
                } else {
                    match pager::offset_after_key(
                        self.view.scroll_offset,
                        self.view.last_content_height,
                        pressed,
                        viewport_area,
                    ) {
                        Some(offset) => {
                            &&& action == OverlayAction::ScheduleFrameSoon
                            &&& after.moved_to(self, offset)
                        },
                        None => {
                            &&& action == OverlayAction::Nothing
                            &&& after == self
                        },
                    }
                }
            },
            OverlayEvent::Mouse(MouseKind::ScrollUp, _, _) => {
                &&& action == OverlayAction::ScheduleFrameSoon
                &&& after.moved_to(
                    self,
                    pager::moved_up(self.view.scroll_offset, WHEEL_ROWS as int),
                )
            },
            OverlayEvent::Mouse(MouseKind::ScrollDown, _, _) => {
                &&& action == OverlayAction::ScheduleFrameSoon
                &&& after.moved_to(
                    self,
                    pager::moved_down(self.view.scroll_offset, WHEEL_ROWS as int),
                )
            },
            OverlayEvent::Mouse(MouseKind::Moved, column, row) => {
                let (cell, region) = self.hover_at(column, row);
                &&& after == (TranscriptOverlay {
                    hovered_cell: cell,
                    hovered_region: region,
                    ..self
                })
                &&& action == if self.hovered_cell == cell && self.hovered_region
                    == region {
                    OverlayAction::Nothing
                } else {
                    OverlayAction::ScheduleFrame
                }
            },
            OverlayEvent::Mouse(MouseKind::LeftDown, column, row) => {
                match self.hit(column, row) {
                    Some((index, _)) => {
                        &&& action == OverlayAction::ScheduleFrame
                        &&& after.expanded_cells@ == crate::transcript::toggled(
                            self.expanded_cells@,
                            index,
                        )
                        &&& after.hovered_cell is None
                        &&& after.hovered_region is None
                        &&& after.cells == self.cells
                        &&& after.tail() == self.tail()
                        &&& after.highlight_cell == self.highlight_cell
                        &&& after.live_tail_key == self.live_tail_key
                        &&& after.view.scroll_offset == self.view.scroll_offset
                        &&& after.view.layout_width == match self.view.last_content_area {
                            Some(area) => Some(area.width),
                            None => None,
                        }
                        &&& after.same_setup(self)
                    },
                    None => {
                        &&& action == OverlayAction::Nothing
                        &&& after == self
                    },
                }
            },
            OverlayEvent::Mouse(MouseKind::Other, _, _) | OverlayEvent::Other => {
                &&& action == OverlayAction::Nothing
                &&& after == self
            },
            OverlayEvent::Draw | OverlayEvent::Resize => {
                &&& action == OverlayAction::Draw
                &&& after == self
            },
        }
    }

    /// Handles an event. What is left to do about it is returned.
    pub fn handle_event(&mut self, event: OverlayEvent) -> (action: OverlayAction)
        requires
            old(self).well_formed(),
        ensures
            final(self).well_formed(),
            old(self).handled(event, *final(self), action),
    {
        match event {
            OverlayEvent::Key(pressed, viewport_area) => {
                if pressed.close || pressed.close_transcript {
                    self.is_done = true;
                    OverlayAction::Nothing
                } else if self.view.handle_key_event(pressed, viewport_area) {
                    OverlayAction::ScheduleFrameSoon
                } else {
                    OverlayAction::Nothing
                }
            },
            OverlayEvent::Mouse(kind, column, row) => match kind {
                MouseKind::ScrollUp => {
                    self.view.scroll_lines_up(WHEEL_ROWS);
                    OverlayAction::ScheduleFrameSoon
                },
                MouseKind::ScrollDown => {
                    self.view.scroll_lines_down(WHEEL_ROWS);
                    OverlayAction::ScheduleFrameSoon
                },
                MouseKind::Moved => {
                    let (cell, region) = match self.interactive_region_at(column, row) {
                        Some((index, region)) => (Some(index), Some(region)),
                        None => (None, None),
                    };
                    if self.hovered_cell != cell || self.hovered_region != region {
                        self.hovered_cell = cell;
                        self.hovered_region = region;
                        OverlayAction::ScheduleFrame
                    } else {
                        OverlayAction::Nothing
                    }
                },
                MouseKind::LeftDown => {
                    match self.interactive_region_at(column, row) {
                        Some((index, _)) => {
                            self.toggle_expanded(index);
                            OverlayAction::ScheduleFrame
                        },
                        None => OverlayAction::Nothing,
                    }
                },
                MouseKind::Other => OverlayAction::Nothing,
            },
            OverlayEvent::Draw => OverlayAction::Draw,
            OverlayEvent::Resize => OverlayAction::Draw,
            OverlayEvent::Other => OverlayAction::Nothing,
        }
    }

    /// The overlay is as before, but for the scroll position.
    pub open spec fn moved_to(self, other: Self, offset: usize) -> bool {
        self == (TranscriptOverlay {
            view: crate::pager::PagerView { scroll_offset: offset, ..other.view },
            ..other
        })
    }
}


/// A region that is found at a place is there.
proof fn lemma_first_hit(
    regions: Seq<InlineExpansionRegion>,
    area: Rect,
    content_row: int,
    column: u16,
    from: nat,
)
    ensures
        first_hit(regions, area, content_row, column, from) matches Some(region) ==> region_hit(
            region,
            area,
            content_row,
            column,
        ),
    decreases regions.len() - from,
{
    if from < regions.len() && !region_hit(regions[from as int], area, content_row, column) {
        lemma_first_hit(regions, area, content_row, column, from + 1);
    }
}

impl<C: HistoryCell> TranscriptOverlay<C> {
    /// The pointer and what is highlighted under it agree: after it has moved to a region, the
    /// highlight is drawn over the very place it points at.
    pub proof fn law_hover_is_under_pointer(before: Self, after: Self, column: u16, row: u16)
        requires
            before.well_formed(),
            before.hit(column, row) is Some,
            before.handled(
                OverlayEvent::Mouse(MouseKind::Moved, column, row),
                after,
                OverlayAction::ScheduleFrame,
            ) || before.handled(
                OverlayEvent::Mouse(MouseKind::Moved, column, row),
                after,
                OverlayAction::Nothing,
            ),
        ensures
            after.hover_highlight() matches Some(h) && h.row == row && h.from <= column < h.to,
    {
        let (index, inner_row) = before.view.shown_position(column, row)->0;
        let area = before.view.last_content_area->0;
        let logical_row = before.view.logical_row(area, row);
        let chosen = choose|i: int| before.view.row_in(i, logical_row);
        assert(before.view.row_in(chosen, logical_row));
        assert(index == chosen);
        lemma_first_hit(
            before.cells@[index as int].regions_at(
                area.width,
                before.expanded_cells@.contains(index),
            ),
            area,
            inner_row - before.blank_rows(index as int),
            column,
            0,
        );
    }

    /// The pointer hits only what is drawn: a cell is found at a place only if the row shown there is
    /// one of that cell's own, below the blank row above it.
    pub proof fn law_hit_is_on_the_cell(self, column: u16, row: u16)
        requires
            self.well_formed(),
        ensures
            self.hit(column, row) matches Some((index, region)) ==> {
                &&& self.view.last_content_area matches Some(area)
                &&& area.holds(column as int, row as int)
                &&& index < self.cells.len()
                &&& self.view.layout_starts@[index as int] + self.blank_rows(index as int)
                    + region.row == self.view.logical_row(area, row)
                &&& self.view.row_in(index as int, self.view.logical_row(area, row))
            },
    {
        if self.hit(column, row) is Some {
            let (index, inner_row) = self.view.shown_position(column, row)->0;
            let area = self.view.last_content_area->0;
            let logical_row = self.view.logical_row(area, row);
            let chosen = choose|i: int| self.view.row_in(i, logical_row);
            assert(self.view.row_in(chosen, logical_row));
            assert(index == chosen);
            lemma_first_hit(
                self.cells@[index as int].regions_at(
                    area.width,
                    self.expanded_cells@.contains(index),
                ),
                area,
                inner_row - self.blank_rows(index as int),
                column,
                0,
            );
        }
    }

    /// Closing is final and changes nothing else: once a key has closed the overlay, it is done.
    pub proof fn law_close_is_quiet(
        before: Self,
        after: Self,
        pressed: PressedKeys,
        viewport: Rect,
        action: OverlayAction,
    )
        requires
            pressed.close || pressed.close_transcript,
            before.handled(OverlayEvent::Key(pressed, viewport), after, action),
        ensures
            after.is_done,
            action == OverlayAction::Nothing,
            after.view == before.view,
            after.cells == before.cells,
    {
    }

    /// A window that shows the last row goes on doing so when a cell is added: after the next drawing
    /// it is at the bottom of the longer transcript.
    pub proof fn law_insert_follows_bottom(before: Self, inserted: Self, drawn: Self, area: Rect)
        requires
            inserted.well_formed(),
            before.view.at_bottom(),
            before.view.pending_scroll_chunk is None,
            inserted.view.scroll_offset == before.followed_offset(),
            inserted.same_setup(before),
            drawn.view.shown() == inserted.view.shown(),
            drawn.view.scroll_offset == inserted.view.offset_when_rendered(area),
            drawn.view.last_content_height == Some(pager::content_area_of(area).height as usize),
            drawn.view.last_rendered_height == Some(inserted.view.rows_at(area.width) as usize),
        ensures
            drawn.view.at_bottom(),
    {
        crate::pager::PagerView::<
            crate::transcript::TranscriptRenderable<C>,
        >::law_pinned_shows_bottom(inserted.view, drawn.view, area);
    }
}


impl<C: HistoryCell> TranscriptOverlay<C> {
    /// Drawing the scrollback again at once computes the lines of no cell.
    pub proof fn law_redrawing_computes_no_lines(
        before: Self,
        first: Self,
        second: Self,
        area: Rect,
        index: int,
    )
        requires
            first.same_transcript(before),
            first.view.scroll_offset == pager::clamped_offset(
                before.view.scroll_offset,
                before.view.rows_at(area.width),
                area.height,
            ),
            first.view.layout_width == Some(area.width),
            first.view.redrawn_from(
                before.view,
                area,
                before.view.layout_width != Some(area.width),
            ),
            second.view.scroll_offset == pager::clamped_offset(
                first.view.scroll_offset,
                first.view.rows_at(area.width),
                area.height,
            ),
            second.view.redrawn_from(
                first.view,
                area,
                first.view.layout_width != Some(area.width),
            ),
            0 <= index < before.view.renderables.len(),
        ensures
            second.view.renderables@[index].computed() == first.view.renderables@[index].computed(),
    {
        assert(first.view.shown().len() == first.view.renderables.len());
        assert(before.view.shown().len() == before.view.renderables.len());
        crate::pager::PagerView::law_redrawing_computes_nothing(
            before.view,
            first.view,
            second.view,
            area,
            index,
        );
    }

    /// The first drawing of a visible cell whose lines are not at hand computes them once.
    pub proof fn law_first_drawing_computes_once(before: Self, first: Self, area: Rect, index: int)
        requires
            first.view.redrawn_from(
                before.view,
                area,
                before.view.layout_width != Some(area.width),
            ),
            0 <= index < before.view.renderables.len(),
            !before.view.renderables@[index].ready(area.width),
            crate::pager_render::chunk_visible::<crate::transcript::TranscriptRenderable<C>>(
                before.view.shown(),
                area,
                first.view.scroll_offset as int,
                index as nat,
            ),
        ensures
            first.view.renderables@[index].computed() == before.view.renderables@[index].computed()
                + 1,
    {
        assert(first.view.renderables@[index] == first.view.renderables@[index]);
    }
}


impl<C: HistoryCell> TranscriptOverlay<C> {
    /// Two drawings of the scrollback of a new overlay compute the lines of a visible cell exactly
    /// once: the first drawing does, the second uses them again.
    pub proof fn law_new_overlay_computes_once(
        before: Self,
        first: Self,
        second: Self,
        keymap: crate::keys::PagerKeymap,
        user_message_style: TextStyle,
        area: Rect,
        index: int,
    )
        requires
            before.is_new(keymap, user_message_style),
            first.same_transcript(before),
            first.view.scroll_offset == pager::clamped_offset(
                before.view.scroll_offset,
                before.view.rows_at(area.width),
                area.height,
            ),
            first.view.layout_width == Some(area.width),
            first.view.redrawn_from(
                before.view,
                area,
                before.view.layout_width != Some(area.width),
            ),
            second.view.scroll_offset == pager::clamped_offset(
                first.view.scroll_offset,
                first.view.rows_at(area.width),
                area.height,
            ),
            second.view.redrawn_from(
                first.view,
                area,
                first.view.layout_width != Some(area.width),
            ),
            0 <= index < before.view.renderables.len(),
            crate::pager_render::chunk_visible::<crate::transcript::TranscriptRenderable<C>>(
                before.view.shown(),
                area,
                first.view.scroll_offset as int,
                index as nat,
            ),
        ensures
            before.view.renderables@[index].computed() == 0,
            first.view.renderables@[index].computed() == 1,
            second.view.renderables@[index].computed() == 1,
    {
        assert(before.view.renderables@[index].is_fresh());
        assert(!before.view.renderables@[index].ready(area.width));
        Self::law_first_drawing_computes_once(before, first, area, index);
        Self::law_redrawing_computes_no_lines(before, first, second, area, index);
    }

    /// Drawing the scrollback again at its width asks no cell for its height again.
    pub proof fn law_redrawing_measures_no_cell(
        first: Self,
        second: Self,
        area: Rect,
        index: int,
    )
        requires
            first.well_formed(),
            first.view.layout_width == Some(area.width),
            second.same_transcript(first),
            second.view.redrawn_from(
                first.view,
                area,
                first.view.layout_width != Some(area.width),
            ),
            0 <= index < first.view.renderables.len(),
        ensures
            match (first.view.renderables@[index].body, second.view.renderables@[index].body) {
                (TranscriptBody::Cell(before), TranscriptBody::Cell(after)) => {
                    after.renderable.measured() == before.renderable.measured()
                },
                (TranscriptBody::Tail(before), TranscriptBody::Tail(after)) => {
                    after.renderable.measured() == before.renderable.measured()
                },
                _ => false,
            },
    {
        assert(first.view.shown().len() == first.view.renderables.len());
        assert(second.view.shown().len() == second.view.renderables.len());
        assert(first.view.shown()[index] == first.view.renderables@[index].model());
        assert(second.view.shown()[index] == second.view.renderables@[index].model());
        crate::pager::PagerView::law_redrawing_works_out_nothing(
            first.view,
            second.view,
            area,
            index,
        );
    }
}

} // verus!
