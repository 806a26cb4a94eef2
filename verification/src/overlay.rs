//! The overlays that take over the screen: the transcript, and pages of fixed content.

use std::sync::Arc;

use ratatui::buffer::Buffer;
use vstd::prelude::*;

use crate::canvas;
use crate::cells::{HistoryCell, ParagraphRenderable, TranscriptPresentation};
use crate::geometry::Rect;
use crate::keys::{self, PagerKeymap};
use crate::pager::{self, PagerView};
use crate::renderable::{CachedRenderable, Renderable};
use crate::styled::{TextLine, TextStyle};
use crate::transcript::TranscriptOverlay;
use crate::transcript_screen::{self, OverlayAction, OverlayEvent};

verus! {

/// A pager over fixed content.
pub struct StaticOverlay<R> {
    pub view: PagerView<R>,
    pub is_done: bool,
}

/// A page of wrapped text.
pub type TextPage = CachedRenderable<ParagraphRenderable>;

impl<R: Renderable> StaticOverlay<R> {
    /// The pager's caches agree with what it shows.
    pub open spec fn well_formed(self) -> bool {
        self.view.well_formed()
    }

    /// Nothing has happened to the overlay yet: it shows its first row.
    pub open spec fn is_new(self, title: String, keymap: PagerKeymap) -> bool {
        &&& self.view.title == title
        &&& self.view.keymap == keymap
        &&& self.view.scroll_offset == 0
        &&& self.view.last_content_height is None
        &&& self.view.last_rendered_height is None
        &&& self.view.pending_scroll_chunk is None
        &&& self.view.layout_width is None
        &&& self.view.last_content_area is None
        &&& !self.is_done
    }

    /// An overlay that shows renderables one below the other.
    pub fn with_renderables(renderables: Vec<R>, title: String, keymap: PagerKeymap) -> (overlay:
        Self)
        requires
            forall|i: int|
                0 <= i < renderables.len() ==> (#[trigger] renderables@[i]).well_formed(),
        ensures
            overlay.well_formed(),
            overlay.view.renderables == renderables,
            overlay.is_new(title, keymap),
    {
        StaticOverlay { view: PagerView::new(renderables, title, 0, keymap), is_done: false }
    }

    /// Draws the hints into the rows of an area.
    pub fn render_hints(&self, area: Rect, buffer: &mut Buffer)
        requires
            canvas::covers(canvas::buffer_cells(*old(buffer)), keys::hint_row(area, 0)),
            canvas::covers(canvas::buffer_cells(*old(buffer)), keys::hint_row(area, 1)),
            area.width <= canvas::MAX_COLUMNS,
            self.view.keymap.fits(),
        ensures
            canvas::buffer_cells(*final(buffer)) == keys::hints_painted(
                keys::moving_hints(self.view.keymap),
                seq![keys::close_hint(self.view.keymap)],
                area,
                canvas::buffer_cells(*old(buffer)),
            ),
            canvas::buffer_cells(*final(buffer)).dom() == canvas::buffer_cells(*old(buffer)).dom(),
    {
        let first = keys::hints_for_moving(&self.view.keymap);
        let second = keys::hints_for_closing(&self.view.keymap);
        keys::render_hint_rows(area, buffer, &first, &second);
    }

    /// Draws the overlay: the pager, and the hints below it.
    pub fn render<P: Fn(usize, usize) -> u8>(
        &mut self,
        area: Rect,
        buffer: &mut Buffer,
        percent_of: &P,
    )
        requires
            old(self).well_formed(),
            old(self).view.takes(area.width),
            old(self).view.keymap.fits(),
            area.fits(),
            crate::pager_render::frame_fits(old(self).view.title@, area),
            canvas::covers(canvas::buffer_cells(*old(buffer)), area),
            canvas::covers(
                canvas::buffer_cells(*old(buffer)),
                keys::hint_row(transcript_screen::hints_area(area), 0),
            ),
            canvas::covers(
                canvas::buffer_cells(*old(buffer)),
                keys::hint_row(transcript_screen::hints_area(area), 1),
            ),
            old(self).view.fraction_when_rendered(
                transcript_screen::pager_area(area),
            ) matches Some((offset, max_scroll)) ==> call_requires(
                *percent_of,
                (offset, max_scroll),
            ),
            forall|percent: u8|
                PagerView::<R>::may_show(
                    old(self).view.fraction_when_rendered(transcript_screen::pager_area(area)),
                    *percent_of,
                    percent,
                ) ==> #[trigger] crate::pager_render::bar_has_room(
                    crate::pager_render::bar_area(
                        transcript_screen::pager_area(area),
                        pager::content_area_of(transcript_screen::pager_area(area)),
                    ),
                    percent,
                ),
        ensures
            final(self).well_formed(),
            final(self).is_done == old(self).is_done,
            final(self).view.shown() == old(self).view.shown(),
            final(self).view.title == old(self).view.title,
            final(self).view.keymap == old(self).view.keymap,
            final(self).view.scroll_offset == old(self).view.offset_when_rendered(
                transcript_screen::pager_area(area),
            ),
            final(self).view.last_content_area == Some(
                pager::content_area_of(transcript_screen::pager_area(area)),
            ),
            final(self).view.last_content_height == Some(
                pager::content_area_of(transcript_screen::pager_area(area)).height as usize,
            ),
            final(self).view.last_rendered_height == Some(
                old(self).view.rows_at(area.width) as usize,
            ),
            final(self).view.pending_scroll_chunk is None,
            final(self).view.layout_width == Some(area.width),
            final(self).view.redrawn_from(
                old(self).view,
                pager::content_area_of(transcript_screen::pager_area(area)),
                old(self).view.layout_width != Some(area.width),
            ),
            canvas::buffer_cells(*final(buffer)).dom() == canvas::buffer_cells(*old(buffer)).dom(),
            exists|percent: u8|
                {
                    &&& PagerView::<R>::may_show(
                        old(self).view.fraction_when_rendered(transcript_screen::pager_area(area)),
                        *percent_of,
                        percent,
                    )
                    &&& canvas::buffer_cells(*final(buffer)) == keys::hints_painted(
                        keys::moving_hints(old(self).view.keymap),
                        seq![keys::close_hint(old(self).view.keymap)],
                        transcript_screen::hints_area(area),
                        #[trigger] old(self).view.frame_painted(
                            transcript_screen::pager_area(area),
                            percent,
                            canvas::buffer_cells(*old(buffer)),
                        ),
                    )
                },
    {
        let ghost before = canvas::buffer_cells(*buffer);
        let top_h = area.height.saturating_sub(3);
        let top = Rect::new(area.x, area.y, area.width, top_h);
        let bottom = Rect::new(area.x, area.y + top_h, area.width, 3);
        assert forall|x: int, y: int| #[trigger] top.holds(x, y) implies before.dom().contains(
            (x, y),
        ) by {
            assert(area.holds(x, y));
        }
        self.view.render(top, buffer, percent_of);
        self.render_hints(bottom, buffer);
    }

    /// What an event changes, and what is left to do about it.
    pub open spec fn handled(self, event: OverlayEvent, after: Self, action: OverlayAction) -> bool {
        match event {
            OverlayEvent::Key(pressed, viewport_area) => {
                if pressed.close {
                    &&& action == OverlayAction::Nothing
                    &&& after == (StaticOverlay { is_done: true, ..self })
                } else {
                    match pager::offset_after_key(
                        self.view.scroll_offset,
                        self.view.last_content_height,
                        pressed,
                        viewport_area,
                    ) {
                        Some(offset) => {
                            &&& action == OverlayAction::ScheduleFrameSoon
                            &&& after == (StaticOverlay {
                                view: PagerView { scroll_offset: offset, ..self.view },
                                ..self
                            })
                        },
                        None => {
                            &&& action == OverlayAction::Nothing
                            &&& after == self
                        },
                    }
                }
            },
            OverlayEvent::Mouse(_, _, _) | OverlayEvent::Other => {
                &&& action == OverlayAction::Nothing
                &&& after == self
            },
            OverlayEvent::Draw | OverlayEvent::Resize => {
                &&& action == OverlayAction::Draw
                &&& after == self
            },
        }
    }

    /// Handles an event. What is left to do about it is returned.
    pub fn handle_event(&mut self, event: OverlayEvent) -> (action: OverlayAction)
        requires
            old(self).well_formed(),
        ensures
            final(self).well_formed(),
            old(self).handled(event, *final(self), action),
    {
        match event {
            OverlayEvent::Key(pressed, viewport_area) => {
                if pressed.close {
                    self.is_done = true;
                    OverlayAction::Nothing
                } else if self.view.handle_key_event(pressed, viewport_area) {
                    OverlayAction::ScheduleFrameSoon
                } else {
                    OverlayAction::Nothing
                }
            },
            OverlayEvent::Draw => OverlayAction::Draw,
            OverlayEvent::Resize => OverlayAction::Draw,
            OverlayEvent::Mouse(_, _, _) => OverlayAction::Nothing,
            OverlayEvent::Other => OverlayAction::Nothing,
        }
    }

    /// Whether the overlay is to be closed.
    pub fn is_done(&self) -> (r: bool)
        ensures
            r == self.is_done,
    {
        self.is_done
    }
}

impl StaticOverlay<TextPage> {
    /// An overlay that shows lines as one wrapped paragraph.
    pub fn with_title(lines: Vec<TextLine>, title: String, keymap: PagerKeymap) -> (overlay: Self)
        ensures
            overlay.well_formed(),
            overlay.view.shown() == seq![crate::styled::line_views(lines@)],
            overlay.is_new(title, keymap),
    {
        let ghost views = crate::styled::line_views(lines@);
        let mut renderables: Vec<TextPage> = Vec::new();
        renderables.push(CachedRenderable::new(ParagraphRenderable::new(lines)));
        assert(pager::models(renderables@) =~= seq![views]);
        Self::with_renderables(renderables, title, keymap)
    }
}

/// An overlay that takes over the screen.
pub enum Overlay<C, R> {
    Transcript(TranscriptOverlay<C>),
    Static(StaticOverlay<R>),
}

impl<C: HistoryCell, R: Renderable> Overlay<C, R> {
    /// The overlay's caches agree with what it shows.
    pub open spec fn well_formed(self) -> bool {
        match self {
            Overlay::Transcript(overlay) => overlay.well_formed(),
            Overlay::Static(overlay) => overlay.well_formed(),
        }
    }

    /// The transcript with all its details.
    pub fn new_transcript(
        cells: Vec<Arc<C>>,
        keymap: PagerKeymap,
        user_message_style: TextStyle,
    ) -> (overlay: Self)
        ensures
            overlay.well_formed(),
            overlay matches Overlay::Transcript(transcript) && transcript.cells == cells
                && transcript.presentation == TranscriptPresentation::Detailed
                && transcript.is_new(keymap, user_message_style),
    {
        Overlay::Transcript(TranscriptOverlay::new(cells, keymap, user_message_style))
    }

    /// The transcript as the conversation shows it, for scrolling with the mouse.
    pub fn new_mouse_scrollback(
        cells: Vec<Arc<C>>,
        keymap: PagerKeymap,
        user_message_style: TextStyle,
    ) -> (overlay: Self)
        ensures
            overlay.well_formed(),
            overlay matches Overlay::Transcript(transcript) && transcript.cells == cells
                && transcript.presentation == TranscriptPresentation::Display
                && transcript.is_new(keymap, user_message_style),
    {
        Overlay::Transcript(
            TranscriptOverlay::new_with_presentation(
                cells,
                keymap,
                TranscriptPresentation::Display,
                user_message_style,
            ),
        )
    }

    /// Renderables one below the other.
    pub fn new_static_with_renderables(
        renderables: Vec<R>,
        title: String,
        keymap: PagerKeymap,
    ) -> (overlay: Self)
        requires
            forall|i: int|
                0 <= i < renderables.len() ==> (#[trigger] renderables@[i]).well_formed(),
        ensures
            overlay.well_formed(),
            overlay matches Overlay::Static(page) && page.view.renderables == renderables
                && page.is_new(title, keymap),
    {
        Overlay::Static(StaticOverlay::with_renderables(renderables, title, keymap))
    }

    /// Hands an event to the overlay. What is left to do about it is returned.
    pub fn handle_event(&mut self, event: OverlayEvent) -> (action: OverlayAction)
        requires
            old(self).well_formed(),
        ensures
            final(self).well_formed(),
            match *old(self) {
                Overlay::Transcript(before) => {
                    &&& *final(self) matches Overlay::Transcript(after)
                    &&& before.handled(event, after, action)
                },
                Overlay::Static(before) => {
                    &&& *final(self) matches Overlay::Static(after)
                    &&& before.handled(event, after, action)
                },
            },
    {
        match self {
            Overlay::Transcript(overlay) => overlay.handle_event(event),
            Overlay::Static(overlay) => overlay.handle_event(event),
        }
    }

    /// Whether the overlay is to be closed.
    pub fn is_done(&self) -> (r: bool)
        ensures
            r == match *self {
                Overlay::Transcript(overlay) => overlay.is_done,
                Overlay::Static(overlay) => overlay.is_done,
            },
    {
        match self {
            Overlay::Transcript(overlay) => overlay.is_done(),
            Overlay::Static(overlay) => overlay.is_done(),
        }
    }

    /// Whether the overlay is a transcript whose last row is shown.
    pub fn is_scrolled_to_bottom(&self) -> (r: bool)
        ensures
            r == match *self {
                Overlay::Transcript(overlay) => overlay.view.at_bottom(),
                Overlay::Static(_) => false,
            },
    {
        match self {
            Overlay::Transcript(overlay) => overlay.is_scrolled_to_bottom(),
            Overlay::Static(_) => false,
        }
    }
}

impl<C: HistoryCell> Overlay<C, TextPage> {
    /// Lines as one wrapped paragraph.
    pub fn new_static_with_lines(
        lines: Vec<TextLine>,
        title: String,
        keymap: PagerKeymap,
    ) -> (overlay: Self)
        ensures
            overlay.well_formed(),
            overlay matches Overlay::Static(page) && page.view.shown() == seq![
                crate::styled::line_views(lines@),
            ] && page.is_new(title, keymap),
    {
        Overlay::Static(StaticOverlay::with_title(lines, title, keymap))
    }
}

} // verus!
