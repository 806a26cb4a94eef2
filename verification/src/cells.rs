//! History cells, and the renderables that show them in a transcript.

use std::marker::PhantomData;
use std::sync::Arc;

use ratatui::buffer::Buffer;
use vstd::prelude::*;

use crate::canvas::{self, Grid};
use crate::geometry::Rect;
use crate::hyperlinks::{self, HyperlinkLine, HyperlinkLineView};
use crate::renderable::Renderable;
use crate::styled::{LineView, TextLine, TextStyle};

verus! {

/// How cells are presented: with all their details, or as the conversation shows them.
#[derive(Clone, Copy, Debug, PartialEq, Eq, Structural)]
pub enum TranscriptPresentation {
    Detailed,
    Display,
}

/// What a cell is about, as far as its presentation depends on it.
#[derive(Clone, Copy, Debug, PartialEq, Eq, Structural)]
pub enum CellKind {
    /// A message of the user.
    User,
    /// A command and its output.
    Exec,
    Other,
}

/// Some columns of a row of a cell that expand or collapse the cell when they are clicked.
#[derive(Clone, Copy, Debug, PartialEq, Eq, Structural)]
pub struct InlineExpansionRegion {
    pub row: usize,
    pub start: usize,
    pub end: usize,
}

/// A committed entry of the conversation.
///
/// What its methods return is given by the spec functions, which stand for whatever a kind of cell
/// shows: they say nothing by themselves, and a kind of cell that is verified defines them.
pub trait HistoryCell: Sized {
    /// The lines of the cell at a width.
    closed spec fn lines_at(
        &self,
        presentation: TranscriptPresentation,
        width: u16,
    ) -> Seq<HyperlinkLineView> {
        arbitrary()
    }

    /// The lines of the expanded cell at a width, if it can be expanded.
    closed spec fn expanded_lines_at(
        &self,
        presentation: TranscriptPresentation,
        width: u16,
    ) -> Option<Seq<HyperlinkLineView>> {
        arbitrary()
    }

    /// The rows that the cell takes at a width when it is not expanded.
    closed spec fn height_at(&self, presentation: TranscriptPresentation, width: u16) -> u16 {
        arbitrary()
    }

    /// Whether the cell can be expanded in place.
    closed spec fn expands(&self, presentation: TranscriptPresentation) -> bool {
        arbitrary()
    }

    /// Where a click expands or collapses the cell.
    closed spec fn regions_at(&self, width: u16, expanded: bool) -> Seq<InlineExpansionRegion> {
        arbitrary()
    }

    /// Whether the cell goes on where the one before it left off.
    closed spec fn continues_stream(&self) -> bool {
        arbitrary()
    }

    /// What the cell is about.
    closed spec fn kind_of(&self) -> CellKind {
        arbitrary()
    }

    /// The grid after the hyperlinks of lines have been marked in an area where the lines are drawn,
    /// from some row of theirs on.
    closed spec fn links_marked(
        lines: Seq<HyperlinkLineView>,
        area: Rect,
        scroll_rows: usize,
        before: Grid,
    ) -> Grid {
        arbitrary()
    }

    fn display_hyperlink_lines(&self, width: u16) -> (lines: Vec<HyperlinkLine>)
        ensures
            hyperlinks::hyperlink_views(lines@) == self.lines_at(
                TranscriptPresentation::Display,
                width,
            ),
    ;

    fn transcript_hyperlink_lines(&self, width: u16) -> (lines: Vec<HyperlinkLine>)
        ensures
            hyperlinks::hyperlink_views(lines@) == self.lines_at(
                TranscriptPresentation::Detailed,
                width,
            ),
    ;

    fn expanded_display_hyperlink_lines(&self, width: u16) -> (lines: Option<Vec<HyperlinkLine>>)
        ensures
            opt_line_views(lines) == self.expanded_lines_at(TranscriptPresentation::Display, width),
    ;

    fn expanded_transcript_hyperlink_lines(&self, width: u16) -> (lines: Option<
        Vec<HyperlinkLine>,
    >)
        ensures
            opt_line_views(lines) == self.expanded_lines_at(TranscriptPresentation::Detailed, width),
    ;

    fn desired_height(&self, width: u16) -> (height: u16)
        ensures
            height == self.height_at(TranscriptPresentation::Display, width),
    ;

    fn desired_transcript_height(&self, width: u16) -> (height: u16)
        ensures
            height == self.height_at(TranscriptPresentation::Detailed, width),
    ;

    fn has_inline_expansion(&self) -> (r: bool)
        ensures
            r == self.expands(TranscriptPresentation::Display),
    ;

    fn has_inline_transcript_expansion(&self) -> (r: bool)
        ensures
            r == self.expands(TranscriptPresentation::Detailed),
    ;

    fn inline_expansion_regions(&self, width: u16, expanded: bool) -> (regions: Vec<
        InlineExpansionRegion,
    >)
        ensures
            regions@ == self.regions_at(width, expanded),
    ;

    fn is_stream_continuation(&self) -> (r: bool)
        ensures
            r == self.continues_stream(),
    ;

    fn kind(&self) -> (kind: CellKind)
        ensures
            kind == self.kind_of(),
    ;

    /// Marks the hyperlinks of lines in an area where the lines are drawn, from some row of theirs on.
    fn mark_buffer_hyperlinks(
        buffer: &mut Buffer,
        area: Rect,
        lines: &Vec<HyperlinkLine>,
        scroll_rows: usize,
    )
        requires
            area.fits(),
            canvas::covers(canvas::buffer_cells(*old(buffer)), area),
        ensures
            canvas::buffer_cells(*final(buffer)) == Self::links_marked(
                hyperlinks::hyperlink_views(lines@),
                area,
                scroll_rows,
                canvas::buffer_cells(*old(buffer)),
            ),
            canvas::buffer_cells(*final(buffer)).dom() == canvas::buffer_cells(*old(buffer)).dom(),
    ;
}

/// The grid after lines have been drawn as a paragraph into an area, and their hyperlinks marked.
pub open spec fn linked_paragraph<C: HistoryCell>(
    lines: Seq<HyperlinkLineView>,
    style: TextStyle,
    area: Rect,
    before: Grid,
) -> Grid {
    C::links_marked(
        lines,
        area,
        0,
        canvas::paragraph_painted(hyperlinks::visible(lines), style, area, before),
    )
}

/// Draws lines as a paragraph into an area, and marks their hyperlinks.
fn draw_linked_paragraph<C: HistoryCell>(
    buffer: &mut Buffer,
    lines: &Vec<HyperlinkLine>,
    style: TextStyle,
    area: Rect,
)
    requires
        area.fits(),
        area.width <= canvas::MAX_COLUMNS,
        canvas::covers(canvas::buffer_cells(*old(buffer)), area),
    ensures
        canvas::buffer_cells(*final(buffer)) == linked_paragraph::<C>(
            hyperlinks::hyperlink_views(lines@),
            style,
            area,
            canvas::buffer_cells(*old(buffer)),
        ),
        canvas::buffer_cells(*final(buffer)).dom() == canvas::buffer_cells(*old(buffer)).dom(),
{
    let plain = hyperlinks::visible_lines(lines);
    canvas::draw_paragraph(buffer, &plain, style, area);
    C::mark_buffer_hyperlinks(buffer, area, lines, 0);
}

/// What optional lines show.
pub open spec fn opt_line_views(lines: Option<Vec<HyperlinkLine>>) -> Option<
    Seq<HyperlinkLineView>,
> {
    match lines {
        Some(lines) => Some(hyperlinks::hyperlink_views(lines@)),
        None => None,
    }
}

/// The rows that lines take when they are wrapped; none where a row number cannot count them.
pub open spec fn wrapped_height(lines: Seq<LineView>, width: u16) -> u16 {
    let rows = canvas::wrapped_rows(canvas::span_texts(lines), width);
    if rows <= u16::MAX {
        rows as u16
    } else {
        0
    }
}

/// The rows that lines take when they are wrapped; none where a row number cannot count them.
fn wrapped_height_of(lines: &Vec<TextLine>, width: u16) -> (height: u16)
    requires
        width <= canvas::MAX_COLUMNS,
    ensures
        height == wrapped_height(crate::styled::line_views(lines@), width),
{
    let rows = canvas::wrapped_row_count(lines, width);
    if rows <= u16::MAX as usize {
        rows as u16
    } else {
        0
    }
}

/// A cell as a transcript shows it.
pub struct CellRenderable<C> {
    pub cell: Arc<C>,
    pub style: TextStyle,
    pub presentation: TranscriptPresentation,
    pub expanded: bool,
    /// The lines at the last width they were computed for.
    pub lines_cache: Option<(u16, Vec<HyperlinkLine>)>,
    /// How often the rows needed were asked for.
    pub measurements: Ghost<nat>,
    /// How often lines were computed.
    pub computations: Ghost<nat>,
}

/// What a cell in a transcript shows.
pub struct CellModel<C> {
    pub cell: C,
    pub style: TextStyle,
    pub presentation: TranscriptPresentation,
    pub expanded: bool,
}

impl<C: HistoryCell> CellModel<C> {
    /// The lines shown at a width.
    pub open spec fn shown_lines(self, width: u16) -> Seq<HyperlinkLineView> {
        match self.cell.expanded_lines_at(self.presentation, width) {
            Some(lines) => if self.expanded {
                lines
            } else {
                self.cell.lines_at(self.presentation, width)
            },
            None => self.cell.lines_at(self.presentation, width),
        }
    }
}

impl<C: HistoryCell> CellRenderable<C> {
    /// A cell whose lines are not known yet.
    pub fn new(
        cell: Arc<C>,
        style: TextStyle,
        presentation: TranscriptPresentation,
        expanded: bool,
    ) -> (r: Self)
        ensures
            r.well_formed(),
            r.model() == (CellModel { cell: *cell, style, presentation, expanded }),
            r.lines_cache is None,
            r.measured() == 0,
            r.computed() == 0,
    {
        CellRenderable {
            cell,
            style,
            presentation,
            expanded,
            lines_cache: None,
            measurements: Ghost(0),
            computations: Ghost(0),
        }
    }

    /// The lines shown at a width; lines computed for that width last time are used again.
    pub fn hyperlink_lines(&mut self, width: u16) -> (lines: Vec<HyperlinkLine>)
        requires
            old(self).well_formed(),
        ensures
            hyperlinks::hyperlink_views(lines@) == old(self).model().shown_lines(width),
            final(self).model() == old(self).model(),
            final(self).well_formed(),
            final(self).ready(width),
            final(self).measured() == old(self).measured(),
            if old(self).ready(width) {
                *final(self) == *old(self)
            } else {
                final(self).computed() == old(self).computed() + 1
            },
    {
        if let Some((cached_width, lines)) = &self.lines_cache {
            if *cached_width == width {
                return hyperlinks::clone_lines(lines);
            }
        }
        let lines = self.compute_hyperlink_lines(width);
        proof {
            self.computations = Ghost((self.computations@ + 1) as nat);
        }
        self.lines_cache = Some((width, hyperlinks::clone_lines(&lines)));
        lines
    }

    /// Computes the lines shown at a width: those of the expanded cell where it is expanded and can
    /// be, and else those of the cell as it is presented.
    pub fn compute_hyperlink_lines(&self, width: u16) -> (lines: Vec<HyperlinkLine>)
        ensures
            hyperlinks::hyperlink_views(lines@) == self.model().shown_lines(width),
    {
        if self.expanded {
            let expanded = match self.presentation {
                TranscriptPresentation::Detailed => self.cell.expanded_transcript_hyperlink_lines(
                    width,
                ),
                TranscriptPresentation::Display => self.cell.expanded_display_hyperlink_lines(
                    width,
                ),
            };
            if let Some(lines) = expanded {
                return lines;
            }
        }
        match self.presentation {
            TranscriptPresentation::Detailed => self.cell.transcript_hyperlink_lines(width),
            TranscriptPresentation::Display => self.cell.display_hyperlink_lines(width),
        }
    }
}

impl<C: HistoryCell> Renderable for CellRenderable<C> {
    type Model = CellModel<C>;

    open spec fn model(&self) -> CellModel<C> {
        CellModel {
            cell: *self.cell,
            style: self.style,
            presentation: self.presentation,
            expanded: self.expanded,
        }
    }

    open spec fn well_formed(&self) -> bool {
        match self.lines_cache {
            Some((width, lines)) => hyperlinks::hyperlink_views(lines@)
                == self.model().shown_lines(width),
            None => true,
        }
    }

    open spec fn takes(model: CellModel<C>, width: u16) -> bool {
        width <= canvas::MAX_COLUMNS
    }

    open spec fn height_of(model: CellModel<C>, width: u16) -> u16 {
        if model.expanded {
            wrapped_height(hyperlinks::visible(model.shown_lines(width)), width)
        } else {
            model.cell.height_at(model.presentation, width)
        }
    }

    open spec fn painted(model: CellModel<C>, area: Rect, before: Grid) -> Grid {
        linked_paragraph::<C>(model.shown_lines(area.width), model.style, area, before)
    }

    open spec fn measured(&self) -> nat {
        self.measurements@
    }

    open spec fn is_cache() -> bool {
        false
    }

    open spec fn remembers(&self, width: u16) -> bool {
        false
    }

    open spec fn worked_out(&self) -> nat {
        self.measurements@
    }

    open spec fn computed(&self) -> nat {
        self.computations@
    }

    open spec fn ready(&self, width: u16) -> bool {
        self.lines_cache matches Some((cached_width, _)) && cached_width == width
    }

    fn desired_height(&mut self, width: u16) -> (height: u16) {
        proof {
            self.measurements = Ghost((self.measurements@ + 1) as nat);
        }
        if self.expanded {
            let lines = self.hyperlink_lines(width);
            return wrapped_height_of(&hyperlinks::visible_lines(&lines), width);
        }
        match self.presentation {
            TranscriptPresentation::Detailed => self.cell.desired_transcript_height(width),
            TranscriptPresentation::Display => self.cell.desired_height(width),
        }
    }

    /// Draws the lines shown at the width of the area; where they are at hand, nothing is computed.
    fn render(&mut self, area: Rect, buffer: &mut Buffer)
        ensures
            old(self).ready(area.width) ==> *final(self) == *old(self),
    {
        let lines = self.hyperlink_lines(area.width);
        draw_linked_paragraph::<C>(buffer, &lines, self.style, area);
    }
}

/// Lines on their own, whose hyperlinks are marked as the cells of kind `C` mark theirs.
pub struct HyperlinkLinesRenderable<C> {
    pub lines: Vec<HyperlinkLine>,
    pub marked_as: PhantomData<C>,
    /// How often the rows needed were asked for.
    pub measurements: Ghost<nat>,
}

impl<C: HistoryCell> HyperlinkLinesRenderable<C> {
    /// The given lines.
    pub fn new(lines: Vec<HyperlinkLine>) -> (r: Self)
        ensures
            r.lines == lines,
            r.measured() == 0,
    {
        HyperlinkLinesRenderable { lines, marked_as: PhantomData, measurements: Ghost(0) }
    }
}

impl<C: HistoryCell> Renderable for HyperlinkLinesRenderable<C> {
    type Model = Seq<HyperlinkLineView>;

    open spec fn model(&self) -> Seq<HyperlinkLineView> {
        hyperlinks::hyperlink_views(self.lines@)
    }

    open spec fn well_formed(&self) -> bool {
        true
    }

    open spec fn takes(model: Seq<HyperlinkLineView>, width: u16) -> bool {
        width <= canvas::MAX_COLUMNS
    }

    open spec fn height_of(model: Seq<HyperlinkLineView>, width: u16) -> u16 {
        wrapped_height(hyperlinks::visible(model), width)
    }

    open spec fn painted(model: Seq<HyperlinkLineView>, area: Rect, before: Grid) -> Grid {
        linked_paragraph::<C>(model, TextStyle::plain(), area, before)
    }

    open spec fn measured(&self) -> nat {
        self.measurements@
    }

    open spec fn is_cache() -> bool {
        false
    }

    open spec fn remembers(&self, width: u16) -> bool {
        false
    }

    open spec fn worked_out(&self) -> nat {
        self.measurements@
    }

    open spec fn computed(&self) -> nat {
        0
    }

    open spec fn ready(&self, width: u16) -> bool {
        true
    }

    fn desired_height(&mut self, width: u16) -> (height: u16) {
        proof {
            self.measurements = Ghost((self.measurements@ + 1) as nat);
        }
        wrapped_height_of(&hyperlinks::visible_lines(&self.lines), width)
    }

    fn render(&mut self, area: Rect, buffer: &mut Buffer) {
        draw_linked_paragraph::<C>(buffer, &self.lines, TextStyle::none(), area);
    }
}

/// Lines without hyperlinks, drawn as a paragraph.
pub struct ParagraphRenderable {
    pub lines: Vec<TextLine>,
    /// How often the rows needed were asked for.
    pub measurements: Ghost<nat>,
}

impl ParagraphRenderable {
    /// The given lines.
    pub fn new(lines: Vec<TextLine>) -> (r: Self)
        ensures
            r.lines == lines,
            r.measured() == 0,
    {
        ParagraphRenderable { lines, measurements: Ghost(0) }
    }
}

impl Renderable for ParagraphRenderable {
    type Model = Seq<LineView>;

    open spec fn model(&self) -> Seq<LineView> {
        crate::styled::line_views(self.lines@)
    }

    open spec fn well_formed(&self) -> bool {
        true
    }

    open spec fn takes(model: Seq<LineView>, width: u16) -> bool {
        width <= canvas::MAX_COLUMNS
    }

    open spec fn height_of(model: Seq<LineView>, width: u16) -> u16 {
        wrapped_height(model, width)
    }

    open spec fn painted(model: Seq<LineView>, area: Rect, before: Grid) -> Grid {
        canvas::paragraph_painted(model, TextStyle::plain(), area, before)
    }

    open spec fn measured(&self) -> nat {
        self.measurements@
    }

    open spec fn is_cache() -> bool {
        false
    }

    open spec fn remembers(&self, width: u16) -> bool {
        false
    }

    open spec fn worked_out(&self) -> nat {
        self.measurements@
    }

    open spec fn computed(&self) -> nat {
        0
    }

    open spec fn ready(&self, width: u16) -> bool {
        true
    }

    fn desired_height(&mut self, width: u16) -> (height: u16) {
        proof {
            self.measurements = Ghost((self.measurements@ + 1) as nat);
        }
        wrapped_height_of(&self.lines, width)
    }

    fn render(&mut self, area: Rect, buffer: &mut Buffer) {
        canvas::draw_paragraph(buffer, &self.lines, TextStyle::none(), area);
    }
}

} // verus!
