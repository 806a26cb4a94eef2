//! The transcript overlay: all committed cells, and a live tail for the one in flight.

use std::collections::HashSet;
use std::sync::Arc;

use ratatui::buffer::Buffer;
use vstd::prelude::*;

use crate::canvas::{self, Grid};
use crate::cells::{
    CellKind, CellModel, CellRenderable, HistoryCell, HyperlinkLinesRenderable,
    InlineExpansionRegion, TranscriptPresentation,
};
use crate::geometry::Rect;
use crate::hyperlinks::{self, HyperlinkLine, HyperlinkLineView};
use crate::keys::PagerKeymap;
use crate::pager::PagerView;
use crate::renderable::{CachedRenderable, Renderable};
use crate::styled::{TextStyle, REVERSED};

verus! {

broadcast use vstd::std_specs::hash::group_hash_axioms;

/// What an entry of the transcript shows below its blank rows.
pub enum TranscriptBody<C> {
    /// A committed cell.
    Cell(CachedRenderable<CellRenderable<C>>),
    /// The lines of the cell in flight.
    Tail(CachedRenderable<HyperlinkLinesRenderable<C>>),
}

/// An entry of the transcript, with some blank rows above it.
pub struct TranscriptRenderable<C> {
    pub top: u16,
    pub body: TranscriptBody<C>,
}

/// What a body shows.
pub enum BodyModel<C> {
    Cell(CellModel<C>),
    Tail(Seq<HyperlinkLineView>),
}

/// What an entry shows.
pub struct EntryModel<C> {
    pub top: u16,
    pub body: BodyModel<C>,
}

/// An area without its first `top` rows.
pub open spec fn inset_area(area: Rect, top: u16) -> Rect {
    Rect {
        x: area.x,
        y: crate::geometry::lesser(area.y + top, u16::MAX as int) as u16,
        width: area.width,
        height: crate::geometry::monus(area.height as int, top as int) as u16,
    }
}

/// The entry with one more blank row above it.
pub open spec fn inset_entry<C>(entry: EntryModel<C>) -> EntryModel<C> {
    EntryModel {
        top: crate::geometry::lesser(entry.top + 1, u16::MAX as int) as u16,
        body: entry.body,
    }
}

impl<C: HistoryCell> TranscriptRenderable<C> {
    /// Adds a blank row above.
    pub fn inset(self) -> (r: Self)
        ensures
            r.model() == inset_entry(self.model()),
            r.body == self.body,
            self.well_formed() ==> r.well_formed(),
    {
        TranscriptRenderable { top: self.top.saturating_add(1), body: self.body }
    }

    /// Nothing of the entry has been computed, measured or remembered yet.
    pub open spec fn is_fresh(self) -> bool {
        &&& forall|width: u16| !(#[trigger] self.ready(width))
        &&& forall|width: u16| !(#[trigger] self.remembers(width))
        &&& self.computed() == 0
        &&& self.measured() == 0
        &&& self.worked_out() == 0
    }
}

impl<C: HistoryCell> Renderable for TranscriptRenderable<C> {
    type Model = EntryModel<C>;

    open spec fn model(&self) -> EntryModel<C> {
        EntryModel {
            top: self.top,
            body: match self.body {
                TranscriptBody::Cell(cell) => BodyModel::Cell(cell.model()),
                TranscriptBody::Tail(tail) => BodyModel::Tail(tail.model()),
            },
        }
    }

    open spec fn well_formed(&self) -> bool {
        match self.body {
            TranscriptBody::Cell(cell) => cell.well_formed(),
            TranscriptBody::Tail(tail) => tail.well_formed(),
        }
    }

    open spec fn takes(model: EntryModel<C>, width: u16) -> bool {
        match model.body {
            BodyModel::Cell(cell) => CellRenderable::<C>::takes(cell, width),
            BodyModel::Tail(tail) => HyperlinkLinesRenderable::<C>::takes(tail, width),
        }
    }

    open spec fn height_of(model: EntryModel<C>, width: u16) -> u16 {
        let height = match model.body {
            BodyModel::Cell(cell) => CellRenderable::<C>::height_of(cell, width),
            BodyModel::Tail(tail) => HyperlinkLinesRenderable::<C>::height_of(tail, width),
        };
        crate::geometry::lesser(height + model.top, u16::MAX as int) as u16
    }

    open spec fn painted(model: EntryModel<C>, area: Rect, before: Grid) -> Grid {
        let inner = inset_area(area, model.top);
        match model.body {
            BodyModel::Cell(cell) => CellRenderable::<C>::painted(cell, inner, before),
            BodyModel::Tail(tail) => HyperlinkLinesRenderable::<C>::painted(tail, inner, before),
        }
    }

    open spec fn measured(&self) -> nat {
        match self.body {
            TranscriptBody::Cell(cell) => cell.measured(),
            TranscriptBody::Tail(tail) => tail.measured(),
        }
    }

    open spec fn is_cache() -> bool {
        true
    }

    open spec fn remembers(&self, width: u16) -> bool {
        match self.body {
            TranscriptBody::Cell(cell) => cell.remembers(width),
            TranscriptBody::Tail(tail) => tail.remembers(width),
        }
    }

    open spec fn worked_out(&self) -> nat {
        match self.body {
            TranscriptBody::Cell(cell) => cell.worked_out(),
            TranscriptBody::Tail(tail) => tail.worked_out(),
        }
    }

    open spec fn computed(&self) -> nat {
        match self.body {
            TranscriptBody::Cell(cell) => cell.computed(),
            TranscriptBody::Tail(tail) => tail.computed(),
        }
    }

    open spec fn ready(&self, width: u16) -> bool {
        match self.body {
            TranscriptBody::Cell(cell) => cell.ready(width),
            TranscriptBody::Tail(tail) => tail.ready(width),
        }
    }

    fn desired_height(&mut self, width: u16) -> (height: u16) {
        let height = match &mut self.body {
            TranscriptBody::Cell(cell) => cell.desired_height(width),
            TranscriptBody::Tail(tail) => tail.desired_height(width),
        };
        height.saturating_add(self.top)
    }

    fn render(&mut self, area: Rect, buffer: &mut Buffer) {
        let inner = Rect {
            x: area.x,
            y: area.y.saturating_add(self.top),
            width: area.width,
            height: area.height.saturating_sub(self.top),
        };
        assert forall|x: int, y: int| #[trigger] inner.holds(x, y) implies canvas::buffer_cells(
            *old(buffer),
        ).dom().contains((x, y)) by {
            assert(area.holds(x, y));
        }
        match &mut self.body {
            TranscriptBody::Cell(cell) => cell.render(inner, buffer),
            TranscriptBody::Tail(tail) => tail.render(inner, buffer),
        }
    }
}

/// `Arc`'s `Clone`: another pointer to the same value.
#[verifier::external_body]
fn share<T>(value: &Arc<T>) -> (shared: Arc<T>)
    ensures
        *shared == **value,
{
    value.clone()
}

/// What changes when the cell in flight does.
#[derive(Clone, Copy, Debug, PartialEq, Eq, Structural)]
pub struct ActiveCellTranscriptKey {
    /// Counts the changes of the cell in place.
    pub revision: u64,
    /// Whether the cell goes on where the one before it left off.
    pub is_stream_continuation: bool,
    /// Counts the frames of an animation.
    pub animation_tick: Option<u64>,
}

/// What the live tail was computed for. Where any part of it differs, so does the tail.
#[derive(Clone, Copy, Debug, PartialEq, Eq, Structural)]
pub struct LiveTailKey {
    pub width: u16,
    pub revision: u64,
    pub is_stream_continuation: bool,
    pub animation_tick: Option<u64>,
}

/// The key of the live tail at a width.
pub open spec fn tail_key(width: u16, key: ActiveCellTranscriptKey) -> LiveTailKey {
    LiveTailKey {
        width,
        revision: key.revision,
        is_stream_continuation: key.is_stream_continuation,
        animation_tick: key.animation_tick,
    }
}

/// All committed cells, and a live tail after them.
pub struct TranscriptOverlay<C> {
    /// The entries of the cells, and after them that of the live tail, if there is one.
    pub view: PagerView<TranscriptRenderable<C>>,
    /// The committed cells, without the live tail.
    pub cells: Vec<Arc<C>>,
    pub highlight_cell: Option<usize>,
    pub hovered_cell: Option<usize>,
    pub hovered_region: Option<InlineExpansionRegion>,
    pub expanded_cells: HashSet<usize>,
    pub presentation: TranscriptPresentation,
    /// What the live tail was computed for.
    pub live_tail_key: Option<LiveTailKey>,
    pub is_done: bool,
    /// The style of messages of the user.
    pub user_message_style: TextStyle,
}

/// How the cells of a transcript are shown.
pub struct Showing {
    pub highlight: Option<usize>,
    pub expanded: Set<usize>,
    pub presentation: TranscriptPresentation,
    pub user_message_style: TextStyle,
}

/// The entry of a cell: messages of the user have their style, reversed when highlighted; a cell
/// that starts something new has a blank row above it, but for the first.
pub open spec fn cell_entry<C: HistoryCell>(cell: C, index: int, showing: Showing) -> EntryModel<
    C,
> {
    EntryModel {
        top: if !cell.continues_stream() && index > 0 {
            1
        } else {
            0
        },
        body: BodyModel::Cell(
            CellModel {
                cell,
                style: if cell.kind_of() == CellKind::User {
                    if showing.highlight == Some(index as usize) {
                        showing.user_message_style.adding(REVERSED)
                    } else {
                        showing.user_message_style
                    }
                } else {
                    TextStyle::plain()
                },
                presentation: showing.presentation,
                expanded: showing.expanded.contains(index as usize) && cell.expands(
                    showing.presentation,
                ),
            },
        ),
    }
}

/// The entries of all cells.
pub open spec fn cell_entries<C: HistoryCell>(cells: Seq<Arc<C>>, showing: Showing) -> Seq<
    EntryModel<C>,
> {
    Seq::new(cells.len(), |i: int| cell_entry(*cells[i], i, showing))
}

/// The entry of the live tail: a blank row above it where it follows a cell and starts something new.
pub open spec fn tail_entry<C: HistoryCell>(
    lines: Seq<HyperlinkLineView>,
    has_prior_cells: bool,
    is_stream_continuation: bool,
) -> EntryModel<C> {
    EntryModel {
        top: if has_prior_cells && !is_stream_continuation {
            1
        } else {
            0
        },
        body: BodyModel::Tail(lines),
    }
}

/// The entries of the cells, and after them that of the tail, if there is one.
pub open spec fn with_tail<C>(
    entries: Seq<EntryModel<C>>,
    tail: Option<EntryModel<C>>,
) -> Seq<EntryModel<C>> {
    match tail {
        Some(tail) => entries.push(tail),
        None => entries,
    }
}

/// An entry is the same as before, but for a layout at a width, if there was one.
pub open spec fn laid_out_since<C: HistoryCell>(
    before: TranscriptRenderable<C>,
    after: TranscriptRenderable<C>,
    layout_width: Option<u16>,
) -> bool {
    match layout_width {
        Some(width) => crate::pager::measured_once(before, after, width),
        None => after == before,
    }
}

/// Builds the entry of a cell.
fn render_cell<C: HistoryCell>(
    cell: &Arc<C>,
    index: usize,
    highlight_cell: Option<usize>,
    expanded_cells: &HashSet<usize>,
    presentation: TranscriptPresentation,
    user_message_style: TextStyle,
) -> (entry: TranscriptRenderable<C>)
    ensures
        entry.well_formed(),
        entry.is_fresh(),
        entry.model() == cell_entry(
            **cell,
            index as int,
            Showing {
                highlight: highlight_cell,
                expanded: expanded_cells@,
                presentation,
                user_message_style,
            },
        ),
{
    let interactive = match presentation {
        TranscriptPresentation::Detailed => cell.has_inline_transcript_expansion(),
        TranscriptPresentation::Display => cell.has_inline_expansion(),
    };
    let expanded = expanded_cells.contains(&index) && interactive;
    let style = if cell.kind() == CellKind::User {
        if highlight_cell == Some(index) {
            user_message_style.add(REVERSED)
        } else {
            user_message_style
        }
    } else {
        TextStyle::none()
    };
    let renderable = CellRenderable::new(share(cell), style, presentation, expanded);
    let entry = TranscriptRenderable {
        top: 0,
        body: TranscriptBody::Cell(CachedRenderable::new(renderable)),
    };
    if !cell.is_stream_continuation() && index > 0 {
        entry.inset()
    } else {
        entry
    }
}

/// Builds the entries of all cells.
pub fn render_cells<C: HistoryCell>(
    cells: &Vec<Arc<C>>,
    highlight_cell: Option<usize>,
    expanded_cells: &HashSet<usize>,
    presentation: TranscriptPresentation,
    user_message_style: TextStyle,
) -> (entries: Vec<TranscriptRenderable<C>>)
    ensures
        forall|i: int| 0 <= i < entries.len() ==> (#[trigger] entries@[i]).well_formed(),
        forall|i: int| 0 <= i < entries.len() ==> (#[trigger] entries@[i]).is_fresh(),
        crate::pager::models(entries@) == cell_entries(
            cells@,
            Showing {
                highlight: highlight_cell,
                expanded: expanded_cells@,
                presentation,
                user_message_style,
            },
        ),
{
    let ghost showing = Showing {
        highlight: highlight_cell,
        expanded: expanded_cells@,
        presentation,
        user_message_style,
    };
    let mut entries: Vec<TranscriptRenderable<C>> = Vec::new();
    let mut i: usize = 0;
    while i < cells.len()
        invariant
            i <= cells.len(),
            entries.len() == i,
            showing == (Showing {
                highlight: highlight_cell,
                expanded: expanded_cells@,
                presentation,
                user_message_style,
            }),
            forall|j: int| 0 <= j < i ==> (#[trigger] entries@[j]).well_formed(),
            forall|j: int| 0 <= j < i ==> (#[trigger] entries@[j]).is_fresh(),
            forall|j: int|
                0 <= j < i ==> (#[trigger] entries@[j]).model() == cell_entry(
                    *cells@[j],
                    j,
                    showing,
                ),
        decreases cells.len() - i,
    {
        entries.push(
            render_cell(
                &cells[i],
                i,
                highlight_cell,
                expanded_cells,
                presentation,
                user_message_style,
            ),
        );
        i += 1;
    }
    assert(crate::pager::models(entries@) =~= cell_entries(cells@, showing));
    entries
}

/// Builds the entry of the live tail.
fn live_tail_renderable<C: HistoryCell>(
    lines: Vec<HyperlinkLine>,
    has_prior_cells: bool,
    is_stream_continuation: bool,
) -> (entry: TranscriptRenderable<C>)
    ensures
        entry.well_formed(),
        entry.model() == tail_entry::<C>(
            hyperlinks::hyperlink_views(lines@),
            has_prior_cells,
            is_stream_continuation,
        ),
{
    let renderable = HyperlinkLinesRenderable::<C>::new(lines);
    let entry = TranscriptRenderable {
        top: 0,
        body: TranscriptBody::Tail(CachedRenderable::new(renderable)),
    };
    if has_prior_cells && !is_stream_continuation {
        entry.inset()
    } else {
        entry
    }
}

impl<C: HistoryCell> TranscriptOverlay<C> {
    /// How the cells are shown.
    pub open spec fn showing(self) -> Showing {
        Showing {
            highlight: self.highlight_cell,
            expanded: self.expanded_cells@,
            presentation: self.presentation,
            user_message_style: self.user_message_style,
        }
    }

    /// The entries of the cells.
    pub open spec fn entries(self) -> Seq<EntryModel<C>> {
        cell_entries(self.cells@, self.showing())
    }

    /// The live tail, if there is one.
    pub open spec fn tail(self) -> Option<EntryModel<C>> {
        if self.view.renderables.len() > self.cells.len() {
            Some(self.view.shown()[self.cells.len() as int])
        } else {
            None
        }
    }

    /// What is shown is the entries of the cells, and after them the live tail, if there is one; the
    /// widths laid out for are such that any text can be measured; and the title can be drawn.
    pub open spec fn well_formed(self) -> bool {
        &&& self.view.well_formed()
        &&& self.view.shown() == with_tail(self.entries(), self.tail())
        &&& self.tail() matches Some(tail) ==> tail.body is Tail && self.live_tail_key is Some
        &&& self.view.layout_width matches Some(width) ==> width <= canvas::MAX_COLUMNS
        &&& self.view.last_content_area matches Some(area) ==> area.width <= canvas::MAX_COLUMNS
            && area.fits()
        &&& self.view.title@.len() + 2 <= canvas::MAX_TEXT
    }

    /// Any width up to the widest can be laid out.
    pub proof fn lemma_takes(self, width: u16)
        requires
            width <= canvas::MAX_COLUMNS,
        ensures
            self.view.takes(width),
    {
    }

    /// A transcript of committed cells with all their details, pinned to the bottom.
    pub fn new(
        transcript_cells: Vec<Arc<C>>,
        keymap: PagerKeymap,
        user_message_style: TextStyle,
    ) -> (overlay: Self)
        ensures
            overlay.well_formed(),
            overlay.cells == transcript_cells,
            overlay.presentation == TranscriptPresentation::Detailed,
            overlay.is_new(keymap, user_message_style),
    {
        Self::new_with_presentation(
            transcript_cells,
            keymap,
            TranscriptPresentation::Detailed,
            user_message_style,
        )
    }

    /// Nothing has happened to the overlay yet: it is pinned to the bottom, with nothing highlighted,
    /// hovered or expanded, no live tail, and nothing computed or measured.
    pub open spec fn is_new(self, keymap: PagerKeymap, user_message_style: TextStyle) -> bool {
        &&& self.view.title@ == "T R A N S C R I P T"@
        &&& self.view.scroll_offset == usize::MAX
        &&& self.view.keymap == keymap
        &&& self.view.last_content_height is None
        &&& self.view.last_rendered_height is None
        &&& self.view.pending_scroll_chunk is None
        &&& self.view.layout_width is None
        &&& self.view.last_content_area is None
        &&& forall|i: int|
            0 <= i < self.view.renderables.len() ==> (
            #[trigger] self.view.renderables@[i]).is_fresh()
        &&& self.highlight_cell is None
        &&& self.hovered_cell is None
        &&& self.hovered_region is None
        &&& self.expanded_cells@ == Set::<usize>::empty()
        &&& self.live_tail_key is None
        &&& self.tail() is None
        &&& !self.is_done
        &&& self.user_message_style == user_message_style
    }

    /// A transcript of committed cells in the given presentation, pinned to the bottom.
    pub fn new_with_presentation(
        transcript_cells: Vec<Arc<C>>,
        keymap: PagerKeymap,
        presentation: TranscriptPresentation,
        user_message_style: TextStyle,
    ) -> (overlay: Self)
        ensures
            overlay.well_formed(),
            overlay.cells == transcript_cells,
            overlay.presentation == presentation,
            overlay.is_new(keymap, user_message_style),
    {
        let expanded_cells: HashSet<usize> = HashSet::new();
        let entries = render_cells(
            &transcript_cells,
            None,
            &expanded_cells,
            presentation,
            user_message_style,
        );
        let ghost shown = crate::pager::models(entries@);
        assert(shown.len() == transcript_cells.len());
        let overlay = TranscriptOverlay {
            view: PagerView::new(entries, "T R A N S C R I P T".to_owned(), usize::MAX, keymap),
            cells: transcript_cells,
            highlight_cell: None,
            hovered_cell: None,
            hovered_region: None,
            expanded_cells,
            presentation,
            live_tail_key: None,
            is_done: false,
            user_message_style,
        };
        assert(overlay.view.shown() == shown);
        proof {
            reveal_strlit("T R A N S C R I P T");
        }
        overlay
    }
}

impl<C: HistoryCell> TranscriptOverlay<C> {
    /// The presentation, the pager's frame and whether the overlay is done are the same.
    pub open spec fn same_setup(self, other: Self) -> bool {
        &&& self.view.same_frame(other.view)
        &&& self.presentation == other.presentation
        &&& self.user_message_style == other.user_message_style
        &&& self.is_done == other.is_done
    }

    /// The same region is hovered.
    pub open spec fn same_hover(self, other: Self) -> bool {
        &&& self.hovered_cell == other.hovered_cell
        &&& self.hovered_region == other.hovered_region
    }

    /// The scroll position after a change of what is shown: a window that shows the last row is
    /// pinned to the bottom, any other stays where it is.
    pub open spec fn followed_offset(self) -> usize {
        if self.view.at_bottom() {
            usize::MAX
        } else {
            self.view.scroll_offset
        }
    }

    /// The entry of the live tail, if there is one, is that of before: at most it has been laid out
    /// with the others since.
    pub open spec fn keeps_tail_entry(self, before: Self) -> bool {
        before.tail() is Some ==> {
            &&& self.view.renderables.len() > 0
            &&& laid_out_since(
                before.view.renderables@.last(),
                self.view.renderables@.last(),
                self.view.layout_width,
            )
        }
    }

    /// Takes the entry of the live tail away, if there is one.
    fn take_live_tail_renderable(&mut self) -> (tail: Option<TranscriptRenderable<C>>)
        requires
            old(self).well_formed(),
        ensures
            final(self).well_formed(),
            final(self).tail() is None,
            match tail {
                Some(entry) => {
                    &&& entry.well_formed()
                    &&& old(self).tail() == Some(entry.model())
                    &&& entry == old(self).view.renderables@.last()
                },
                None => old(self).tail() is None,
            },
            final(self).view.renderables@ == old(self).view.renderables@.take(
                old(self).cells.len() as int,
            ),
            final(self).view.scroll_offset == old(self).view.scroll_offset,
            final(self).view.layout_width == old(self).view.layout_width,
            final(self).view.renderables.len() == final(self).cells.len(),
            final(self).same_setup(*old(self)),
            final(self).same_hover(*old(self)),
            final(self).cells == old(self).cells,
            final(self).highlight_cell == old(self).highlight_cell,
            final(self).expanded_cells == old(self).expanded_cells,
            final(self).live_tail_key == old(self).live_tail_key,
    {
        let ghost shown = self.view.shown();
        assert(shown.len() == self.view.renderables.len());
        assert(self.entries().len() == self.cells.len());
        if self.view.renderables.len() > self.cells.len() {
            assert(shown[self.cells.len() as int] == self.view.renderables@.last().model());
            let tail = self.view.pop_renderable();
            assert(self.view.shown() =~= shown.drop_last());
            assert(shown.drop_last() =~= self.entries());
            assert(self.view.renderables@ =~= old(self).view.renderables@.take(
                self.cells.len() as int,
            ));
            tail
        } else {
            assert(self.view.renderables@ =~= self.view.renderables@.take(self.cells.len() as int));
            None
        }
    }

    /// Shows the entries of the cells, and a live tail after them, laid out as before.
    fn rebuild_renderables(&mut self, tail: Option<TranscriptRenderable<C>>)
        requires
            tail matches Some(entry) ==> entry.well_formed() && entry.model().body is Tail && old(
                self,
            ).live_tail_key is Some,
            old(self).view.last_content_area matches Some(area) ==> area.width
                <= canvas::MAX_COLUMNS && area.fits(),
            old(self).view.title@.len() + 2 <= canvas::MAX_TEXT,
        ensures
            final(self).well_formed(),
            final(self).tail() == match tail {
                Some(entry) => Some(entry.model()),
                None => None,
            },
            tail matches Some(entry) ==> {
                &&& final(self).view.renderables.len() > 0
                &&& laid_out_since(
                    entry,
                    final(self).view.renderables@.last(),
                    final(self).view.layout_width,
                )
            },
            final(self).view.scroll_offset == old(self).view.scroll_offset,
            final(self).view.layout_width == match old(self).view.last_content_area {
                Some(area) => Some(area.width),
                None => None,
            },
            final(self).same_setup(*old(self)),
            final(self).same_hover(*old(self)),
            final(self).cells == old(self).cells,
            final(self).highlight_cell == old(self).highlight_cell,
            final(self).expanded_cells == old(self).expanded_cells,
            final(self).live_tail_key == old(self).live_tail_key,
    {
        let entries = render_cells(
            &self.cells,
            self.highlight_cell,
            &self.expanded_cells,
            self.presentation,
            self.user_message_style,
        );
        let ghost shown = crate::pager::models(entries@);
        assert(shown.len() == entries.len());
        self.view.replace_renderables(entries);
        assert(self.view.shown() == shown);
        if let Some(entry) = tail {
            let ghost model = entry.model();
            self.view.push_renderable(entry);
            assert(self.view.shown() == shown.push(model));
            assert(self.view.shown().len() == self.view.renderables.len());
        }
        if let Some(area) = self.view.last_content_area {
            proof {
                self.lemma_takes(area.width);
            }
            self.view.ensure_layout(area.width);
            assert(self.view.shown().len() == self.view.renderables.len());
        }
    }

    /// The live tail after the cells got a first member: a tail that starts something new was drawn
    /// without a blank row above it, and gets one now.
    pub open spec fn tail_after_insert(self) -> Option<EntryModel<C>> {
        match self.tail() {
            Some(tail) => if self.cells.len() == 0
                && !self.live_tail_key->0.is_stream_continuation {
                Some(inset_entry(tail))
            } else {
                Some(tail)
            },
            None => None,
        }
    }

    /// Adds a committed cell before the live tail. A window that shows the last row goes on doing so.
    pub fn insert_cell(&mut self, cell: Arc<C>)
        requires
            old(self).well_formed(),
        ensures
            final(self).well_formed(),
            final(self).cells@ == old(self).cells@.push(cell),
            final(self).tail() == old(self).tail_after_insert(),
            old(self).tail() is Some ==> {
                &&& final(self).view.renderables.len() > 0
                &&& final(self).view.renderables@.last().body
                    == old(self).view.renderables@.last().body
            },
            final(self).view.scroll_offset == old(self).followed_offset(),
            final(self).view.layout_width is None,
            final(self).same_setup(*old(self)),
            final(self).same_hover(*old(self)),
            final(self).highlight_cell == old(self).highlight_cell,
            final(self).expanded_cells == old(self).expanded_cells,
            final(self).live_tail_key == old(self).live_tail_key,
    {
        let follow_bottom = self.view.is_scrolled_to_bottom();
        let had_prior_cells = !self.cells.is_empty();
        let tail_renderable = self.take_live_tail_renderable();
        self.cells.push(cell);
        let entries = render_cells(
            &self.cells,
            self.highlight_cell,
            &self.expanded_cells,
            self.presentation,
            self.user_message_style,
        );
        let ghost shown = crate::pager::models(entries@);
        assert(shown.len() == entries.len());
        self.view.replace_renderables(entries);
        assert(self.view.shown() == shown);
        if let Some(tail) = tail_renderable {
            let starts_anew = match self.live_tail_key {
                Some(key) => !key.is_stream_continuation,
                None => false,
            };
            let tail = if !had_prior_cells && starts_anew {
                tail.inset()
            } else {
                tail
            };
            let ghost model = tail.model();
            self.view.push_renderable(tail);
            assert(self.view.shown() == shown.push(model));
            assert(self.view.shown().len() == self.view.renderables.len());
        }
        if follow_bottom {
            self.view.scroll_offset = usize::MAX;
        }
    }

    /// Shows other committed cells before the live tail. Expanded cells stay so, and a highlighted
    /// one stays so, where there still are such cells. A window that shows the last row goes on doing
    /// so.
    pub fn replace_cells(&mut self, cells: Vec<Arc<C>>)
        requires
            old(self).well_formed(),
        ensures
            final(self).well_formed(),
            final(self).cells == cells,
            final(self).tail() == old(self).tail(),
            final(self).keeps_tail_entry(*old(self)),
            final(self).expanded_cells@ == old(self).expanded_cells@.filter(
                |i: usize| i < cells.len(),
            ),
            final(self).highlight_cell == match old(self).highlight_cell {
                Some(index) => if index < cells.len() {
                    Some(index)
                } else {
                    None
                },
                None => None,
            },
            final(self).view.scroll_offset == old(self).followed_offset(),
            final(self).view.layout_width == match old(self).view.last_content_area {
                Some(area) => Some(area.width),
                None => None,
            },
            final(self).same_setup(*old(self)),
            final(self).same_hover(*old(self)),
            final(self).live_tail_key == old(self).live_tail_key,
    {
        let follow_bottom = self.view.is_scrolled_to_bottom();
        let tail = self.take_live_tail_renderable();
        let mut expanded_cells: HashSet<usize> = HashSet::new();
        let mut i: usize = 0;
        while i < cells.len()
            invariant
                i <= cells.len(),
                forall|k: usize|
                    #[trigger] expanded_cells@.contains(k) <==> k < i && self.expanded_cells@.contains(
                        k,
                    ),
            decreases cells.len() - i,
        {
            if self.expanded_cells.contains(&i) {
                expanded_cells.insert(i);
            }
            i += 1;
        }
        assert(expanded_cells@ =~= self.expanded_cells@.filter(|i: usize| i < cells.len()));
        self.cells = cells;
        self.expanded_cells = expanded_cells;
        if let Some(index) = self.highlight_cell {
            if index >= self.cells.len() {
                self.highlight_cell = None;
            }
        }
        self.rebuild_renderables(tail);
        if follow_bottom {
            self.view.scroll_offset = usize::MAX;
        }
    }
}

/// The part of a range that lies in a transcript of `count` cells.
pub open spec fn clamped_range(start: usize, end: usize, count: int) -> (int, int) {
    let clamped_end = crate::geometry::lesser(end as int, count);
    (crate::geometry::lesser(start as int, clamped_end), clamped_end)
}

/// The highlighted cell after the cells from `start` up to `end` of `count` became one: the cell that
/// took their place, if it was one of them, and else the same cell as before.
pub open spec fn consolidated_highlight(
    highlight: Option<usize>,
    start: int,
    end: int,
    count: int,
) -> Option<usize> {
    match highlight {
        Some(index) => {
            let moved = if index < start {
                index as int
            } else if index < end {
                start
            } else {
                index - (end - start - 1)
            };
            if moved < count - (end - start - 1) {
                Some(moved as usize)
            } else {
                None
            }
        },
        None => None,
    }
}

impl<C: HistoryCell> TranscriptOverlay<C> {
    /// Replaces the committed cells of a range by one cell. The range is cut to the cells that there
    /// are; where nothing is left of it, no cell is replaced. A window that shows the last row goes
    /// on doing so.
    pub fn consolidate_cells(&mut self, start: usize, end: usize, consolidated: Arc<C>)
        requires
            old(self).well_formed(),
        ensures
            final(self).well_formed(),
            final(self).tail() == old(self).tail(),
            final(self).view.scroll_offset == old(self).followed_offset(),
            final(self).same_setup(*old(self)),
            final(self).same_hover(*old(self)),
            final(self).live_tail_key == old(self).live_tail_key,
            ({
                let (from, to) = clamped_range(start, end, old(self).cells.len() as int);
                if from < to {
                    &&& final(self).cells@ == old(self).cells@.take(from).push(consolidated)
                        + old(self).cells@.skip(to)
                    &&& final(self).highlight_cell == consolidated_highlight(
                        old(self).highlight_cell,
                        from,
                        to,
                        old(self).cells.len() as int,
                    )
                    &&& final(self).expanded_cells@ == Set::<usize>::empty()
                    &&& final(self).keeps_tail_entry(*old(self))
                    &&& final(self).view.layout_width == match old(self).view.last_content_area {
                        Some(area) => Some(area.width),
                        None => None,
                    }
                } else {
                    &&& final(self).cells == old(self).cells
                    &&& final(self).highlight_cell == old(self).highlight_cell
                    &&& final(self).expanded_cells == old(self).expanded_cells
                    &&& final(self).view == (PagerView {
                        scroll_offset: old(self).followed_offset(),
                        ..old(self).view
                    })
                }
            }),
    {
        let follow_bottom = self.view.is_scrolled_to_bottom();
        let clamped_end = if end <= self.cells.len() {
            end
        } else {
            self.cells.len()
        };
        let clamped_start = if start <= clamped_end {
            start
        } else {
            clamped_end
        };
        if clamped_start < clamped_end {
            let tail = self.take_live_tail_renderable();
            let removed: usize = clamped_end - clamped_start;
            if let Some(index) = self.highlight_cell {
                if index >= clamped_end {
                    self.highlight_cell = Some(index - (removed - 1));
                } else if index >= clamped_start {
                    self.highlight_cell = Some(clamped_start);
                }
            }
            let mut rest = self.cells.split_off(clamped_end);
            self.cells.truncate(clamped_start);
            self.cells.push(consolidated);
            self.cells.append(&mut rest);
            assert(self.cells@ =~= old(self).cells@.take(clamped_start as int).push(consolidated)
                + old(self).cells@.skip(clamped_end as int));
            self.expanded_cells.clear();
            if let Some(index) = self.highlight_cell {
                if index >= self.cells.len() {
                    self.highlight_cell = None;
                }
            }
            self.rebuild_renderables(tail);
        }
        if follow_bottom {
            self.view.scroll_offset = usize::MAX;
        }
    }

    /// The live tail of the given lines under a key: none where there is no key or no line.
    pub open spec fn tail_for(self, key: Option<LiveTailKey>, lines: Seq<HyperlinkLineView>) -> Option<
        EntryModel<C>,
    > {
        match key {
            Some(key) => if lines.len() > 0 {
                Some(tail_entry::<C>(lines, self.cells.len() > 0, key.is_stream_continuation))
            } else {
                None
            },
            None => None,
        }
    }

    /// Shows the given lines as the live tail under a key, in place of the one before. A window that
    /// shows the last row goes on doing so.
    pub fn set_live_tail(&mut self, key: Option<LiveTailKey>, lines: Vec<HyperlinkLine>)
        requires
            old(self).well_formed(),
        ensures
            final(self).well_formed(),
            final(self).live_tail_key == key,
            final(self).tail() == old(self).tail_for(key, hyperlinks::hyperlink_views(lines@)),
            final(self).view.renderables@.take(final(self).cells.len() as int) == old(
                self,
            ).view.renderables@.take(old(self).cells.len() as int),
            final(self).cells == old(self).cells,
            final(self).view.scroll_offset == old(self).followed_offset(),
            final(self).view.layout_width == old(self).view.layout_width,
            final(self).same_setup(*old(self)),
            final(self).same_hover(*old(self)),
            final(self).highlight_cell == old(self).highlight_cell,
            final(self).expanded_cells == old(self).expanded_cells,
    {
        let follow_bottom = self.view.is_scrolled_to_bottom();
        self.take_live_tail_renderable();
        self.live_tail_key = key;
        let ghost shown = self.view.shown();
        assert(shown.len() == self.view.renderables.len());
        if let Some(key) = key {
            if !lines.is_empty() {
                let tail = live_tail_renderable::<C>(
                    lines,
                    !self.cells.is_empty(),
                    key.is_stream_continuation,
                );
                let ghost model = tail.model();
                self.view.push_renderable(tail);
                assert(self.view.shown() == shown.push(model));
                assert(self.view.shown().len() == self.view.renderables.len());
            }
        }
        if follow_bottom {
            self.view.scroll_offset = usize::MAX;
        }
    }

    /// Brings the live tail up to date: where the key is another than before, the lines are computed
    /// anew, and else nothing is done.
    pub fn sync_live_tail<F: FnOnce(u16) -> Option<Vec<HyperlinkLine>>>(
        &mut self,
        width: u16,
        active_key: Option<ActiveCellTranscriptKey>,
        compute_lines: F,
    )
        requires
            old(self).well_formed(),
            active_key matches Some(key) ==> old(self).live_tail_key == Some(tail_key(width, key))
                || call_requires(compute_lines, (width,)),
        ensures
            final(self).well_formed(),
            ({
                let next_key = match active_key {
                    Some(key) => Some(tail_key(width, key)),
                    None => None,
                };
                if old(self).live_tail_key == next_key {
                    *final(self) == *old(self)
                } else {
                    &&& final(self).live_tail_key == next_key
                    &&& final(self).cells == old(self).cells
                    &&& final(self).view.renderables@.take(final(self).cells.len() as int) == old(
                        self,
                    ).view.renderables@.take(old(self).cells.len() as int)
                    &&& final(self).view.scroll_offset == old(self).followed_offset()
                    &&& final(self).view.layout_width == old(self).view.layout_width
                    &&& final(self).same_setup(*old(self))
                    &&& final(self).same_hover(*old(self))
                    &&& final(self).highlight_cell == old(self).highlight_cell
                    &&& final(self).expanded_cells == old(self).expanded_cells
                    &&& match next_key {
                        None => final(self).tail() is None,
                        Some(_) => exists|lines: Option<Vec<HyperlinkLine>>|
                            #![trigger call_ensures(compute_lines, (width,), lines)]
                            {
                                &&& call_ensures(compute_lines, (width,), lines)
                                &&& final(self).tail() == old(self).tail_for(
                                    next_key,
                                    match lines {
                                        Some(lines) => hyperlinks::hyperlink_views(lines@),
                                        None => Seq::empty(),
                                    },
                                )
                            },
                    }
                }
            }),
    {
        let next_key = match active_key {
            Some(key) => Some(
                LiveTailKey {
                    width,
                    revision: key.revision,
                    is_stream_continuation: key.is_stream_continuation,
                    animation_tick: key.animation_tick,
                },
            ),
            None => None,
        };
        if self.live_tail_key == next_key {
            return;
        }
        let lines = match next_key {
            Some(_) => {
                let computed = compute_lines(width);
                let lines = match computed {
                    Some(lines) => lines,
                    None => Vec::new(),
                };
                assert(call_ensures(compute_lines, (width,), computed));
                assert(computed is None ==> hyperlinks::hyperlink_views(lines@) =~= Seq::empty());
                lines
            },
            None => Vec::new(),
        };
        self.set_live_tail(next_key, lines);
    }

    /// Highlights a cell, or none, and scrolls the highlighted cell into view at the next drawing.
    pub fn set_highlight_cell(&mut self, cell: Option<usize>)
        requires
            old(self).well_formed(),
        ensures
            final(self).well_formed(),
            final(self).highlight_cell == cell,
            final(self).view.pending_scroll_chunk == match cell {
                Some(index) => Some(index),
                None => old(self).view.pending_scroll_chunk,
            },
            final(self).cells == old(self).cells,
            final(self).tail() == old(self).tail(),
            final(self).keeps_tail_entry(*old(self)),
            final(self).view.scroll_offset == old(self).view.scroll_offset,
            final(self).view.title == old(self).view.title,
            final(self).view.keymap == old(self).view.keymap,
            final(self).view.last_content_height == old(self).view.last_content_height,
            final(self).view.last_rendered_height == old(self).view.last_rendered_height,
            final(self).view.last_content_area == old(self).view.last_content_area,
            final(self).view.layout_width == match old(self).view.last_content_area {
                Some(area) => Some(area.width),
                None => None,
            },
            final(self).presentation == old(self).presentation,
            final(self).user_message_style == old(self).user_message_style,
            final(self).is_done == old(self).is_done,
            final(self).same_hover(*old(self)),
            final(self).expanded_cells == old(self).expanded_cells,
            final(self).live_tail_key == old(self).live_tail_key,
    {
        let tail = self.take_live_tail_renderable();
        self.highlight_cell = cell;
        self.rebuild_renderables(tail);
        if let Some(index) = self.highlight_cell {
            self.view.scroll_chunk_into_view(index);
        }
    }

    /// Whether the window shows the last row.
    pub fn is_scrolled_to_bottom(&self) -> (r: bool)
        ensures
            r == self.view.at_bottom(),
    {
        self.view.is_scrolled_to_bottom()
    }

    /// Whether the overlay is to be closed.
    pub fn is_done(&self) -> (r: bool)
        ensures
            r == self.is_done,
    {
        self.is_done
    }

    /// The number of committed cells.
    pub fn committed_cell_count(&self) -> (count: usize)
        ensures
            count == self.cells.len(),
    {
        self.cells.len()
    }
}

/// The expanded cells after a click on a cell: an expanded one collapses, any other expands.
pub open spec fn toggled(expanded: Set<usize>, index: usize) -> Set<usize> {
    if expanded.contains(index) {
        expanded.remove(index)
    } else {
        expanded.insert(index)
    }
}

impl<C: HistoryCell> TranscriptOverlay<C> {
    /// Expands a cell, or collapses it where it is expanded; nothing is hovered any more.
    pub fn toggle_expanded(&mut self, index: usize)
        requires
            old(self).well_formed(),
        ensures
            final(self).well_formed(),
            final(self).expanded_cells@ == toggled(old(self).expanded_cells@, index),
            final(self).hovered_cell is None,
            final(self).hovered_region is None,
            final(self).cells == old(self).cells,
            final(self).tail() == old(self).tail(),
            final(self).keeps_tail_entry(*old(self)),
            final(self).highlight_cell == old(self).highlight_cell,
            final(self).live_tail_key == old(self).live_tail_key,
            final(self).view.scroll_offset == old(self).view.scroll_offset,
            final(self).view.layout_width == match old(self).view.last_content_area {
                Some(area) => Some(area.width),
                None => None,
            },
            final(self).same_setup(*old(self)),
    {
        let tail = self.take_live_tail_renderable();
        if self.expanded_cells.contains(&index) {
            self.expanded_cells.remove(&index);
        } else {
            self.expanded_cells.insert(index);
        }
        self.hovered_cell = None;
        self.hovered_region = None;
        self.rebuild_renderables(tail);
    }
}


/// Consolidation keeps the highlight on its cell: a highlighted cell that is not replaced is still the
/// highlighted one, and where it is replaced, the cell that took its place is.
pub proof fn law_highlight_follows_cell<C>(
    cells: Seq<Arc<C>>,
    consolidated: Arc<C>,
    start: usize,
    end: usize,
    highlight: usize,
)
    requires
        highlight < cells.len() <= usize::MAX,
        clamped_range(start, end, cells.len() as int).0 < clamped_range(
            start,
            end,
            cells.len() as int,
        ).1,
    ensures
        ({
            let (from, to) = clamped_range(start, end, cells.len() as int);
            let after = cells.take(from).push(consolidated) + cells.skip(to);
            let moved = consolidated_highlight(Some(highlight), from, to, cells.len() as int);
            &&& moved is Some
            &&& moved->0 < after.len()
            &&& after[moved->0 as int] == if from <= highlight < to {
                consolidated
            } else {
                cells[highlight as int]
            }
        }),
{
}

/// Consolidation leaves the cells around the range as they are, in their order.
pub proof fn law_consolidation_keeps_the_rest<C>(
    cells: Seq<Arc<C>>,
    consolidated: Arc<C>,
    start: usize,
    end: usize,
)
    requires
        clamped_range(start, end, cells.len() as int).0 < clamped_range(
            start,
            end,
            cells.len() as int,
        ).1,
    ensures
        ({
            let (from, to) = clamped_range(start, end, cells.len() as int);
            let after = cells.take(from).push(consolidated) + cells.skip(to);
            &&& after.len() == cells.len() - (to - from) + 1
            &&& after.take(from) == cells.take(from)
            &&& after[from] == consolidated
            &&& after.skip(from + 1) == cells.skip(to)
        }),
{
    let (from, to) = clamped_range(start, end, cells.len() as int);
    let after = cells.take(from).push(consolidated) + cells.skip(to);
    assert(after.take(from) =~= cells.take(from));
    assert(after.skip(from + 1) =~= cells.skip(to));
}

/// A click that expands a cell is undone by the next click on it: the cells are shown as before.
pub proof fn law_toggle_twice<C: HistoryCell>(
    cells: Seq<Arc<C>>,
    showing: Showing,
    index: usize,
)
    ensures
        toggled(toggled(showing.expanded, index), index) == showing.expanded,
        cell_entries(
            cells,
            Showing { expanded: toggled(toggled(showing.expanded, index), index), ..showing },
        ) == cell_entries(cells, showing),
{
    assert(toggled(toggled(showing.expanded, index), index) =~= showing.expanded);
}

/// Expanding or collapsing a cell leaves all others as they are.
pub proof fn law_toggle_is_local<C: HistoryCell>(
    cells: Seq<Arc<C>>,
    showing: Showing,
    index: usize,
    other: int,
)
    requires
        0 <= other < cells.len() <= usize::MAX,
        other != index,
    ensures
        cell_entries(
            cells,
            Showing { expanded: toggled(showing.expanded, index), ..showing },
        )[other] == cell_entries(cells, showing)[other],
{
}

impl<C: HistoryCell> TranscriptOverlay<C> {
    /// A live tail that was there before the first cell is spaced, once that cell has come, as it would
    /// be had it come after it.
    pub proof fn law_tail_spacing_after_insert(
        before: Self,
        after: Self,
        lines: Seq<HyperlinkLineView>,
    )
        requires
            before.well_formed(),
            before.tail() == before.tail_for(before.live_tail_key, lines),
            after.cells.len() == before.cells.len() + 1,
            after.tail() == before.tail_after_insert(),
            after.live_tail_key == before.live_tail_key,
        ensures
            after.tail() == after.tail_for(after.live_tail_key, lines),
    {
    }

    /// The live tail stands behind all cells and is none of them.
    pub proof fn law_tail_is_last(self)
        requires
            self.well_formed(),
        ensures
            self.view.shown().len() == self.cells.len() + if self.tail() is Some {
                1int
            } else {
                0int
            },
            self.tail() matches Some(tail) ==> self.view.shown().last() == tail,
            self.view.shown().take(self.cells.len() as int) == self.entries(),
    {
        assert(self.entries().len() == self.cells.len());
        assert(self.view.shown().take(self.cells.len() as int) =~= self.entries());
    }
}

} // verus!
