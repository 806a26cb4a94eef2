//! The pager: a column of renderables, of which a window of rows is shown.

use vstd::prelude::*;

use crate::geometry::Rect;
use crate::keys::{PagerKeymap, PressedKeys};
use crate::renderable::Renderable;

verus! {

/// A column of renderables with a scroll position.
pub struct PagerView<R> {
    pub renderables: Vec<R>,
    /// The first row shown; `usize::MAX` stands for the bottom until the next drawing.
    pub scroll_offset: usize,
    pub title: String,
    pub keymap: PagerKeymap,
    pub last_content_height: Option<usize>,
    pub last_rendered_height: Option<usize>,
    /// If set, the next drawing makes this chunk visible.
    pub pending_scroll_chunk: Option<usize>,
    /// The width that the rows below were laid out for. Scrolling changes the window, not the rows.
    pub layout_width: Option<u16>,
    pub layout_starts: Vec<usize>,
    pub layout_heights: Vec<usize>,
    pub last_content_area: Option<Rect>,
}

/// What a sequence of renderables shows.
pub open spec fn models<R: Renderable>(renderables: Seq<R>) -> Seq<R::Model> {
    renderables.map_values(|r: R| r.model())
}

/// The rows that the first `count` renderables take at a width.
pub open spec fn rows_before<R: Renderable>(shown: Seq<R::Model>, width: u16, count: nat) -> nat
    decreases count,
{
    if count == 0 {
        0
    } else {
        rows_before::<R>(shown, width, (count - 1) as nat) + R::height_of(
            shown[count - 1],
            width,
        ) as nat
    }
}

/// The first row of a renderable, as far as a row number can count.
pub open spec fn start_row<R: Renderable>(shown: Seq<R::Model>, width: u16, index: nat) -> nat {
    crate::geometry::lesser(
        rows_before::<R>(shown, width, index) as int,
        usize::MAX as int,
    ) as nat
}

/// Later renderables do not start earlier.
pub proof fn lemma_rows_monotonic<R: Renderable>(
    shown: Seq<R::Model>,
    width: u16,
    a: nat,
    b: nat,
)
    requires
        a <= b,
    ensures
        rows_before::<R>(shown, width, a) <= rows_before::<R>(shown, width, b),
    decreases b - a,
{
    if a < b {
        lemma_rows_monotonic::<R>(shown, width, a, (b - 1) as nat);
    }
}

/// The rows before a renderable depend on the renderables before it alone.
pub proof fn lemma_rows_agree<R: Renderable>(
    shown: Seq<R::Model>,
    other: Seq<R::Model>,
    width: u16,
    count: nat,
)
    requires
        forall|i: int| 0 <= i < count ==> shown[i] == other[i],
    ensures
        rows_before::<R>(shown, width, count) == rows_before::<R>(other, width, count),
    decreases count,
{
    if count > 0 {
        lemma_rows_agree::<R>(shown, other, width, (count - 1) as nat);
    }
}

/// A renderable after it has been asked once for the rows needed at a width.
pub open spec fn measured_once<R: Renderable>(before: R, after: R, width: u16) -> bool {
    &&& after.model() == before.model()
    &&& after.measured() == before.measured() + 1
    &&& before.remembers(width) || R::is_cache() ==> after.remembers(width)
    &&& after.worked_out() == before.worked_out() + if before.remembers(width) {
        0int
    } else {
        1
    }
    &&& before.ready(width) ==> after.ready(width)
    &&& after.computed() == before.computed() + if after.ready(width) && !before.ready(width) {
        1int
    } else {
        0
    }
}

impl<R: Renderable> PagerView<R> {
    /// What the renderables show.
    pub open spec fn shown(self) -> Seq<R::Model> {
        models(self.renderables@)
    }

    /// Every renderable can be laid out at a width.
    pub open spec fn takes(self, width: u16) -> bool {
        forall|i: int|
            0 <= i < self.renderables.len() ==> R::takes(
                (#[trigger] self.renderables@[i]).model(),
                width,
            )
    }

    /// The rows are those of a layout at a width.
    pub open spec fn laid_out(self, width: u16) -> bool {
        &&& self.layout_starts.len() == self.renderables.len()
        &&& self.layout_heights.len() == self.renderables.len()
        &&& forall|i: int|
            #![trigger self.layout_starts@[i]]
            0 <= i < self.renderables.len() ==> self.layout_starts@[i] == start_row::<R>(
                self.shown(),
                width,
                i as nat,
            )
        &&& forall|i: int|
            #![trigger self.layout_heights@[i]]
            0 <= i < self.renderables.len() ==> self.layout_heights@[i] == R::height_of(
                self.shown()[i],
                width,
            )
    }

    /// Renderables that can remember it remember the rows needed at a width.
    pub open spec fn remembers(self, width: u16) -> bool {
        R::is_cache() ==> forall|i: int|
            0 <= i < self.renderables.len() ==> (#[trigger] self.renderables@[i]).remembers(width)
    }

    /// The caches agree with the renderables.
    pub open spec fn well_formed(self) -> bool {
        &&& forall|i: int|
            0 <= i < self.renderables.len() ==> (#[trigger] self.renderables@[i]).well_formed()
        &&& match self.layout_width {
            Some(width) => self.laid_out(width) && self.remembers(width),
            None => self.layout_starts.len() == 0 && self.layout_heights.len() == 0,
        }
    }

    /// The rows of the layout.
    pub open spec fn total_rows(self) -> nat {
        match self.layout_width {
            Some(width) => start_row::<R>(self.shown(), width, self.renderables.len() as nat),
            None => 0,
        }
    }

    /// Everything but the renderables' caches and the layout is the same.
    pub open spec fn same_view(self, other: Self) -> bool {
        &&& self.shown() == other.shown()
        &&& self.scroll_offset == other.scroll_offset
        &&& self.same_frame(other)
    }

    /// The title, the keymap and what is remembered of the last drawing are the same.
    pub open spec fn same_frame(self, other: Self) -> bool {
        &&& self.title == other.title
        &&& self.keymap == other.keymap
        &&& self.last_content_height == other.last_content_height
        &&& self.last_rendered_height == other.last_rendered_height
        &&& self.pending_scroll_chunk == other.pending_scroll_chunk
        &&& self.last_content_area == other.last_content_area
    }

    /// A pager that has not been laid out yet.
    pub fn new(
        renderables: Vec<R>,
        title: String,
        scroll_offset: usize,
        keymap: PagerKeymap,
    ) -> (view: Self)
        requires
            forall|i: int|
                0 <= i < renderables.len() ==> (#[trigger] renderables@[i]).well_formed(),
        ensures
            view.well_formed(),
            view.renderables == renderables,
            view.scroll_offset == scroll_offset,
            view.title == title,
            view.keymap == keymap,
            view.last_content_height is None,
            view.last_rendered_height is None,
            view.pending_scroll_chunk is None,
            view.layout_width is None,
            view.last_content_area is None,
    {
        PagerView {
            renderables,
            scroll_offset,
            title,
            keymap,
            last_content_height: None,
            last_rendered_height: None,
            pending_scroll_chunk: None,
            layout_width: None,
            layout_starts: Vec::new(),
            layout_heights: Vec::new(),
            last_content_area: None,
        }
    }

    /// The renderables are those of another pager, each measured once at a width, unless it was laid
    /// out at that width already.
    pub open spec fn laid_out_from(self, before: Self, width: u16) -> bool {
        if before.layout_width == Some(width) {
            self.renderables@ == before.renderables@
        } else {
            &&& self.renderables.len() == before.renderables.len()
            &&& forall|i: int|
                0 <= i < self.renderables.len() ==> measured_once(
                    before.renderables@[i],
                    #[trigger] self.renderables@[i],
                    width,
                )
        }
    }

    /// Lays the renderables out at a width. A layout at that width is kept as it is.
    pub fn ensure_layout(&mut self, width: u16)
        requires
            old(self).well_formed(),
            old(self).takes(width),
        ensures
            final(self).well_formed(),
            final(self).layout_width == Some(width),
            final(self).same_view(*old(self)),
            final(self).laid_out_from(*old(self), width),
            old(self).layout_width == Some(width) ==> *final(self) == *old(self),
    {
        if self.layout_width == Some(width) && self.layout_heights.len() == self.renderables.len() {
            return;
        }
        let ghost shown = self.shown();
        self.layout_width = None;
        self.layout_starts.clear();
        self.layout_heights.clear();
        let mut start: usize = 0;
        let mut i: usize = 0;
        while i < self.renderables.len()
            invariant
                shown == self.shown(),
                shown == old(self).shown(),
                i <= self.renderables.len(),
                self.takes(width),
                self.renderables.len() == old(self).renderables.len(),
                forall|j: int|
                    0 <= j < i ==> measured_once(
                        old(self).renderables@[j],
                        #[trigger] self.renderables@[j],
                        width,
                    ),
                forall|j: int|
                    i <= j < self.renderables.len() ==> (#[trigger] self.renderables@[j]) == old(
                        self,
                    ).renderables@[j],
                self.layout_width is None,
                self.scroll_offset == old(self).scroll_offset,
                self.same_frame(*old(self)),
                forall|j: int|
                    0 <= j < self.renderables.len() ==> (
                    #[trigger] self.renderables@[j]).well_formed(),
                self.layout_starts.len() == i,
                self.layout_heights.len() == i,
                start == start_row::<R>(shown, width, i as nat),
                forall|j: int|
                    #![trigger self.layout_starts@[j]]
                    0 <= j < i ==> self.layout_starts@[j] == start_row::<R>(shown, width, j as nat),
                forall|j: int|
                    #![trigger self.layout_heights@[j]]
                    0 <= j < i ==> self.layout_heights@[j] == R::height_of(shown[j], width),
            decreases self.renderables.len() - i,
        {
            let height = self.renderables[i].desired_height(width);
            assert(self.shown() =~= shown);
            self.layout_starts.push(start);
            self.layout_heights.push(height as usize);
            start = start.saturating_add(height as usize);
            i += 1;
        }
        self.layout_width = Some(width);
    }

    /// The rows of the layout.
    pub fn content_height(&self) -> (rows: usize)
        requires
            self.well_formed(),
        ensures
            rows == self.total_rows(),
    {
        let n: usize = self.layout_starts.len();
        if n == 0 {
            return 0;
        }
        self.layout_starts[n - 1].saturating_add(self.layout_heights[n - 1])
    }

    /// Shows other renderables; they are not laid out yet.
    pub fn replace_renderables(&mut self, renderables: Vec<R>)
        requires
            forall|i: int|
                0 <= i < renderables.len() ==> (#[trigger] renderables@[i]).well_formed(),
        ensures
            final(self).well_formed(),
            final(self).renderables == renderables,
            final(self).layout_width is None,
            final(self).scroll_offset == old(self).scroll_offset,
            final(self).same_frame(*old(self)),
    {
        self.renderables = renderables;
        self.layout_width = None;
        self.layout_starts.clear();
        self.layout_heights.clear();
    }

    /// This pager is another one with a renderable more at the end, which was measured once where the
    /// others are laid out.
    pub open spec fn pushed_onto(self, before: Self, renderable: R) -> bool {
        &&& self.renderables.len() == before.renderables.len() + 1
        &&& self.renderables@.drop_last() == before.renderables@
        &&& self.layout_width == before.layout_width
        &&& self.scroll_offset == before.scroll_offset
        &&& self.same_frame(before)
        &&& match before.layout_width {
            Some(width) => {
                &&& measured_once(renderable, self.renderables@.last(), width)
                &&& self.layout_starts@ == before.layout_starts@.push(before.total_rows() as usize)
                &&& self.layout_heights@ == before.layout_heights@.push(
                    R::height_of(renderable.model(), width) as usize,
                )
            },
            None => {
                &&& self.renderables@.last() == renderable
                &&& self.layout_starts@ == before.layout_starts@
                &&& self.layout_heights@ == before.layout_heights@
            },
        }
    }

    /// This pager is another one without its last renderable and the rows of it; or the same, where
    /// there is none.
    pub open spec fn popped_from(self, before: Self, last: Option<R>) -> bool {
        match last {
            Some(renderable) => {
                &&& before.renderables.len() > 0
                &&& renderable == before.renderables@.last()
                &&& self.renderables@ == before.renderables@.drop_last()
                &&& self.layout_width == before.layout_width
                &&& self.layout_starts@ == if before.layout_width is Some {
                    before.layout_starts@.drop_last()
                } else {
                    before.layout_starts@
                }
                &&& self.layout_heights@ == if before.layout_width is Some {
                    before.layout_heights@.drop_last()
                } else {
                    before.layout_heights@
                }
                &&& self.scroll_offset == before.scroll_offset
                &&& self.same_frame(before)
            },
            None => before.renderables.len() == 0 && self == before,
        }
    }

    /// What was pushed is popped again: the renderables and their rows are those of before.
    pub proof fn law_push_pop(before: Self, renderable: R, pushed: Self, last: Option<R>, popped: Self)
        requires
            pushed.pushed_onto(before, renderable),
            popped.popped_from(pushed, last),
        ensures
            last matches Some(last) && last.model() == renderable.model(),
            before.layout_width is None ==> last == Some(renderable),
            popped.renderables@ == before.renderables@,
            popped.layout_width == before.layout_width,
            popped.layout_starts@ == before.layout_starts@,
            popped.layout_heights@ == before.layout_heights@,
            popped.scroll_offset == before.scroll_offset,
            popped.same_frame(before),
    {
    }

    /// Taking from a pager without renderables takes nothing and changes nothing.
    pub proof fn law_pop_of_none(before: Self, last: Option<R>, popped: Self)
        requires
            before.renderables.len() == 0,
            popped.popped_from(before, last),
        ensures
            last is None,
            popped == before,
    {
    }

    /// Adds a renderable at the end, and lays it out as the others are.
    pub fn push_renderable(&mut self, renderable: R)
        requires
            old(self).well_formed(),
            renderable.well_formed(),
            old(self).layout_width matches Some(width) ==> R::takes(renderable.model(), width),
        ensures
            final(self).well_formed(),
            final(self).shown() == old(self).shown().push(renderable.model()),
            final(self).pushed_onto(*old(self), renderable),
    {
        let mut renderable = renderable;
        let ghost shown = self.shown();
        let ghost model = renderable.model();
        if let Some(width) = self.layout_width {
            let start = self.content_height();
            let height = renderable.desired_height(width);
            self.layout_starts.push(start);
            self.layout_heights.push(height as usize);
        }
        self.renderables.push(renderable);
        proof {
            assert(self.renderables@.drop_last() =~= old(self).renderables@);
            assert(self.shown() =~= shown.push(model));
            if let Some(width) = self.layout_width {
                assert forall|i: int|
                    #![trigger self.layout_starts@[i]]
                    0 <= i < self.renderables.len() implies self.layout_starts@[i] == start_row::<
                    R,
                >(self.shown(), width, i as nat) by {
                    lemma_rows_agree::<R>(self.shown(), shown, width, i as nat);
                }
                assert(self.laid_out(width));
            }
        }
    }

    /// Takes the last renderable away, and its rows with it.
    pub fn pop_renderable(&mut self) -> (last: Option<R>)
        requires
            old(self).well_formed(),
        ensures
            final(self).well_formed(),
            final(self).popped_from(*old(self), last),
    {
        let ghost shown = self.shown();
        if self.renderables.is_empty() {
            return None;
        }
        match self.renderables.pop() {
            None => None,
            Some(renderable) => {
                if self.layout_heights.len() > self.renderables.len() {
                    self.layout_heights.pop();
                    self.layout_starts.pop();
                }
                proof {
                    assert(self.shown() =~= shown.drop_last());
                    if let Some(width) = self.layout_width {
                        assert forall|i: int|
                            #![trigger self.layout_starts@[i]]
                            0 <= i < self.renderables.len() implies self.layout_starts@[i]
                            == start_row::<R>(self.shown(), width, i as nat) by {
                            lemma_rows_agree::<R>(self.shown(), shown, width, i as nat);
                        }
                        assert(self.laid_out(width));
                    }
                }
                Some(renderable)
            },
        }
    }
}

/// The part of an area between the header row and the bottom bar.
pub open spec fn content_area_of(area: Rect) -> Rect {
    Rect {
        x: area.x,
        y: crate::geometry::lesser(area.y + 1, u16::MAX as int) as u16,
        width: area.width,
        height: crate::geometry::monus(area.height as int, 2) as u16,
    }
}

/// The last row at which a window of the given height can start.
pub open spec fn clamped_offset(offset: usize, total: nat, height: u16) -> usize {
    crate::geometry::lesser(
        offset as int,
        crate::geometry::monus(total as int, height as int),
    ) as usize
}

/// The rows of one page.
pub open spec fn page_rows(last_content_height: Option<usize>, viewport: Rect) -> usize {
    match last_content_height {
        Some(height) => height,
        None => content_area_of(viewport).height as usize,
    }
}

/// The rows of half a page, rounded up.
pub open spec fn half_page_rows(viewport: Rect) -> int {
    (content_area_of(viewport).height + 1) / 2
}

/// The scroll position `rows` further up.
pub open spec fn moved_up(offset: usize, rows: int) -> usize {
    crate::geometry::monus(offset as int, rows) as usize
}

/// The scroll position `rows` further down.
pub open spec fn moved_down(offset: usize, rows: int) -> usize {
    crate::geometry::lesser(offset + rows, usize::MAX as int) as usize
}

/// The scroll position after a key event; none where the event presses no pager command. A key that
/// is bound to several commands does the first of them.
pub open spec fn offset_after_key(
    offset: usize,
    last_content_height: Option<usize>,
    pressed: PressedKeys,
    viewport: Rect,
) -> Option<usize> {
    if pressed.scroll_up {
        Some(moved_up(offset, 1))
    } else if pressed.scroll_down {
        Some(moved_down(offset, 1))
    } else if pressed.page_up {
        Some(moved_up(offset, page_rows(last_content_height, viewport) as int))
    } else if pressed.page_down {
        Some(moved_down(offset, page_rows(last_content_height, viewport) as int))
    } else if pressed.half_page_down {
        Some(moved_down(offset, half_page_rows(viewport)))
    } else if pressed.half_page_up {
        Some(moved_up(offset, half_page_rows(viewport)))
    } else if pressed.jump_top {
        Some(0)
    } else if pressed.jump_bottom {
        Some(usize::MAX)
    } else {
        None
    }
}

/// The part of an area between the header row and the bottom bar.
pub fn content_area(area: Rect) -> (content: Rect)
    ensures
        content == content_area_of(area),
{
    Rect {
        x: area.x,
        y: area.y.saturating_add(1),
        width: area.width,
        height: area.height.saturating_sub(2),
    }
}

/// How many of the rows, which are in order, lie before `row`, or up to it.
pub fn partition_rows(rows: &Vec<usize>, row: usize, inclusive: bool) -> (count: usize)
    requires
        forall|i: int, j: int| 0 <= i <= j < rows.len() ==> rows@[i] <= rows@[j],
    ensures
        count <= rows.len(),
        forall|i: int|
            0 <= i < count ==> rows@[i] < row || (inclusive && (#[trigger] rows@[i]) == row),
        forall|i: int|
            count <= i < rows.len() ==> (#[trigger] rows@[i]) > row || (!inclusive && rows@[i]
                == row),
{
    let mut low: usize = 0;
    let mut high: usize = rows.len();
    while low < high
        invariant
            low <= high <= rows.len(),
            forall|i: int, j: int| 0 <= i <= j < rows.len() ==> rows@[i] <= rows@[j],
            forall|i: int|
                0 <= i < low ==> rows@[i] < row || (inclusive && (#[trigger] rows@[i]) == row),
            forall|i: int|
                high <= i < rows.len() ==> (#[trigger] rows@[i]) > row || (!inclusive && rows@[i]
                    == row),
        decreases high - low,
    {
        let middle: usize = low + (high - low) / 2;
        if rows[middle] < row || (inclusive && rows[middle] == row) {
            low = middle + 1;
        } else {
            high = middle;
        }
    }
    low
}

impl<R: Renderable> PagerView<R> {
    /// The rows of the layout are in order.
    pub proof fn lemma_starts_sorted(self)
        requires
            self.well_formed(),
        ensures
            forall|i: int, j: int|
                0 <= i <= j < self.layout_starts.len() ==> self.layout_starts@[i]
                    <= self.layout_starts@[j],
    {
        if let Some(width) = self.layout_width {
            assert forall|i: int, j: int|
                0 <= i <= j < self.layout_starts.len() implies self.layout_starts@[i]
                <= self.layout_starts@[j] by {
                lemma_rows_monotonic::<R>(self.shown(), width, i as nat, j as nat);
            }
        }
    }

    /// Whether the window shows the last row: it is pinned there, or the last drawing left it there.
    pub open spec fn at_bottom(self) -> bool {
        ||| self.scroll_offset == usize::MAX
        ||| {
            &&& self.last_content_height is Some
            &&& {
                ||| self.renderables.len() == 0
                ||| {
                    &&& self.last_rendered_height is Some
                    &&& self.scroll_offset + self.last_content_height->0
                        >= self.last_rendered_height->0
                }
            }
        }
    }

    /// Whether the window shows the last row.
    pub fn is_scrolled_to_bottom(&self) -> (r: bool)
        ensures
            r == self.at_bottom(),
    {
        if self.scroll_offset == usize::MAX {
            return true;
        }
        let height = match self.last_content_height {
            Some(height) => height,
            None => {
                return false;
            },
        };
        if self.renderables.is_empty() {
            return true;
        }
        let total_height = match self.last_rendered_height {
            Some(total_height) => total_height,
            None => {
                return false;
            },
        };
        if total_height <= height {
            return true;
        }
        let max_scroll: usize = total_height - height;
        self.scroll_offset >= max_scroll
    }

    /// Asks the next drawing to make a chunk visible.
    pub fn scroll_chunk_into_view(&mut self, chunk_index: usize)
        ensures
            *final(self) == (PagerView {
                pending_scroll_chunk: Some(chunk_index),
                ..*old(self)
            }),
    {
        self.pending_scroll_chunk = Some(chunk_index);
    }

    /// Scrolls up by some rows.
    pub fn scroll_lines_up(&mut self, lines: usize)
        ensures
            *final(self) == (PagerView {
                scroll_offset: moved_up(old(self).scroll_offset, lines as int),
                ..*old(self)
            }),
    {
        self.scroll_offset = self.scroll_offset.saturating_sub(lines);
    }

    /// Scrolls down by some rows.
    pub fn scroll_lines_down(&mut self, lines: usize)
        ensures
            *final(self) == (PagerView {
                scroll_offset: moved_down(old(self).scroll_offset, lines as int),
                ..*old(self)
            }),
    {
        self.scroll_offset = self.scroll_offset.saturating_add(lines);
    }

    /// The rows of one page: those of the last drawing, or those that the viewport would give.
    pub fn page_height(&self, viewport_area: Rect) -> (rows: usize)
        ensures
            rows == page_rows(self.last_content_height, viewport_area),
    {
        match self.last_content_height {
            Some(height) => height,
            None => content_area(viewport_area).height as usize,
        }
    }

    /// Scrolls as a key event says. Returns whether the event was one for the pager, so that a frame
    /// is due.
    pub fn handle_key_event(&mut self, pressed: PressedKeys, viewport_area: Rect) -> (handled: bool)
        ensures
            match offset_after_key(
                old(self).scroll_offset,
                old(self).last_content_height,
                pressed,
                viewport_area,
            ) {
                Some(offset) => handled && *final(self) == (PagerView {
                    scroll_offset: offset,
                    ..*old(self)
                }),
                None => !handled && *final(self) == *old(self),
            },
    {
        if pressed.scroll_up {
            self.scroll_offset = self.scroll_offset.saturating_sub(1);
        } else if pressed.scroll_down {
            self.scroll_offset = self.scroll_offset.saturating_add(1);
        } else if pressed.page_up {
            let page_height = self.page_height(viewport_area);
            self.scroll_offset = self.scroll_offset.saturating_sub(page_height);
        } else if pressed.page_down {
            let page_height = self.page_height(viewport_area);
            self.scroll_offset = self.scroll_offset.saturating_add(page_height);
        } else if pressed.half_page_down {
            let area = content_area(viewport_area);
            let half_page: usize = (area.height as usize).saturating_add(1) / 2;
            self.scroll_offset = self.scroll_offset.saturating_add(half_page);
        } else if pressed.half_page_up {
            let area = content_area(viewport_area);
            let half_page: usize = (area.height as usize).saturating_add(1) / 2;
            self.scroll_offset = self.scroll_offset.saturating_sub(half_page);
        } else if pressed.jump_top {
            self.scroll_offset = 0;
        } else if pressed.jump_bottom {
            self.scroll_offset = usize::MAX;
        } else {
            return false;
        }
        true
    }

    /// The row of the layout that is shown in a row of the screen.
    pub open spec fn logical_row(self, area: Rect, row: u16) -> int {
        crate::geometry::lesser(self.scroll_offset + (row - area.y), usize::MAX as int)
    }

    /// A row of the layout belongs to a renderable.
    pub open spec fn row_in(self, index: int, row: int) -> bool {
        &&& 0 <= index < self.layout_starts.len()
        &&& self.layout_starts@[index] <= row < crate::geometry::lesser(
            self.layout_starts@[index] + self.layout_heights@[index],
            usize::MAX as int,
        )
    }

    /// The renderable shown at a position of the screen, and the row within it: none outside the
    /// last drawn area or below the last row.
    pub open spec fn shown_position(self, column: u16, row: u16) -> Option<(usize, usize)> {
        match self.last_content_area {
            Some(area) => {
                let logical_row = self.logical_row(area, row);
                if area.holds(column as int, row as int) && exists|i: int| self.row_in(i, logical_row) {
                    let index = choose|i: int| self.row_in(i, logical_row);
                    Some((index as usize, (logical_row - self.layout_starts@[index]) as usize))
                } else {
                    None
                }
            },
            None => None,
        }
    }

    /// A row of the layout belongs to at most one renderable.
    pub proof fn law_row_belongs_to_one(self, a: int, b: int, row: int)
        requires
            self.well_formed(),
            self.row_in(a, row),
            self.row_in(b, row),
        ensures
            a == b,
    {
        let width = self.layout_width->0;
        if a != b {
            let low = if a < b {
                a
            } else {
                b
            };
            let high = if a < b {
                b
            } else {
                a
            };
            lemma_rows_monotonic::<R>(self.shown(), width, (low + 1) as nat, high as nat);
            assert(self.layout_heights@[low] == R::height_of(self.shown()[low], width));
        }
    }

    /// The renderable shown at a position of the screen, and the row within it.
    pub fn renderable_position_at(&self, column: u16, row: u16) -> (found: Option<(usize, usize)>)
        requires
            self.well_formed(),
        ensures
            found == self.shown_position(column, row),
            found matches Some((index, inner_row)) ==> {
                &&& self.last_content_area matches Some(area)
                &&& area.holds(column as int, row as int)
                &&& self.row_in(index as int, self.logical_row(area, row))
                &&& inner_row == self.logical_row(area, row) - self.layout_starts@[index as int]
            },
    {
        let area = match self.last_content_area {
            Some(area) => area,
            None => {
                return None;
            },
        };
        if column < area.x || column >= area.right() || row < area.y || row >= area.bottom() {
            return None;
        }
        let logical_row = self.scroll_offset.saturating_add((row - area.y) as usize);
        proof {
            self.lemma_starts_sorted();
        }
        let after: usize = partition_rows(&self.layout_starts, logical_row, true);
        proof {
            assert forall|i: int| self.row_in(i, logical_row as int) implies i == after - 1 by {
                let width = self.layout_width->0;
                assert(self.layout_starts@[i] <= logical_row);
                assert(i < after);
                if i < after - 1 {
                    assert(self.layout_starts@[after - 1] <= logical_row);
                    assert(self.layout_starts@[i] == start_row::<R>(
                        self.shown(),
                        width,
                        i as nat,
                    ));
                    lemma_rows_monotonic::<R>(
                        self.shown(),
                        width,
                        (i + 1) as nat,
                        (after - 1) as nat,
                    );
                    assert(self.layout_heights@[i] == R::height_of(self.shown()[i], width));
                }
            }
        }
        if after == 0 {
            return None;
        }
        let index: usize = after - 1;
        assert(self.logical_row(area, row) == logical_row);
        assert(area.holds(column as int, row as int));
        if logical_row < self.layout_starts[index].saturating_add(self.layout_heights[index]) {
            assert(self.row_in(index as int, logical_row as int));
            assert((choose|i: int| self.row_in(i, logical_row as int)) == index);
            Some((index, logical_row - self.layout_starts[index]))
        } else {
            assert(!self.row_in(index as int, logical_row as int));
            assert(self.shown_position(column, row) is None);
            None
        }
    }

    /// The scroll position from which a chunk is visible in a window of `height` rows: moved up to
    /// its first row, or down until its last row stands in the last but one row of the window; a
    /// chunk that is as tall as the window is shown from its first row on.
    pub open spec fn chunk_offset(offset: usize, first: int, last: int, height: u16) -> usize {
        if first < offset {
            first as usize
        } else if last > offset + (height - 1) {
            if last - first == height {
                first as usize
            } else {
                (last - (height - 1)) as usize
            }
        } else {
            offset
        }
    }

    /// The scroll position from which a chunk is visible in a window of `height` rows.
    pub(crate) fn offset_for_chunk(offset: usize, first: usize, last: usize, height: u16) -> (r: usize)
        requires
            height > 0,
            first <= last,
        ensures
            r == Self::chunk_offset(offset, first as int, last as int, height),
    {
        let current_bottom = offset.saturating_add((height - 1) as usize);
        if first < offset {
            first
        } else if last > current_bottom {
            if last - first == height as usize {
                first
            } else {
                last - (height - 1) as usize
            }
        } else {
            offset
        }
    }

    /// Scrolls until a chunk is visible in an area of the given size.
    pub fn ensure_chunk_visible(&mut self, idx: usize, area: Rect)
        requires
            old(self).well_formed(),
            area.height > 0 && idx < old(self).renderables.len() ==> old(self).takes(area.width),
        ensures
            final(self).well_formed(),
            area.height == 0 || idx >= old(self).renderables.len() ==> *final(self) == *old(self),
            area.height > 0 && idx < old(self).renderables.len() ==> {
                &&& final(self).layout_width == Some(area.width)
                &&& final(self).shown() == old(self).shown()
                &&& final(self).laid_out_from(*old(self), area.width)
                &&& final(self).same_frame(*old(self))
                &&& final(self).scroll_offset == Self::chunk_offset(
                    old(self).scroll_offset,
                    start_row::<R>(old(self).shown(), area.width, idx as nat) as int,
                    start_row::<R>(old(self).shown(), area.width, idx as nat + 1) as int,
                    area.height,
                )
            },
    {
        if area.height == 0 || idx >= self.renderables.len() {
            return;
        }
        self.ensure_layout(area.width);
        assert(self.shown().len() == old(self).shown().len());
        let first = self.layout_starts[idx];
        let last = first.saturating_add(self.layout_heights[idx]);
        let current_top = self.scroll_offset;
        self.scroll_offset = Self::offset_for_chunk(current_top, first, last, area.height);
    }
}


/// Scrolling down and up by as many rows comes back to where it began, as long as a scroll position can
/// count the rows.
pub proof fn law_scroll_down_up(offset: usize, rows: int)
    requires
        0 <= rows,
        offset + rows <= usize::MAX,
    ensures
        moved_up(moved_down(offset, rows), rows) == offset,
{
}

/// Scrolling up and down by as many rows comes back to where it began, where there are as many rows
/// above.
pub proof fn law_scroll_up_down(offset: usize, rows: int)
    requires
        0 <= rows <= offset,
    ensures
        moved_down(moved_up(offset, rows), rows) == offset,
{
}

/// A drawing moves the window at most once: the position that it leaves is kept by the next drawing.
pub proof fn law_clamping_settles(offset: usize, total: nat, height: u16)
    requires
        total <= usize::MAX,
    ensures
        clamped_offset(clamped_offset(offset, total, height), total, height) == clamped_offset(
            offset,
            total,
            height,
        ),
        total >= height ==> clamped_offset(offset, total, height) + height <= total,
        total <= height ==> clamped_offset(offset, total, height) == 0,
{
}

/// Paging is continuous: where a full page follows, the page below begins with the row after the last
/// one shown, and paging up again comes back.
pub proof fn law_page_down_up(
    offset: usize,
    total: nat,
    height: u16,
    pressed_down: PressedKeys,
    pressed_up: PressedKeys,
    viewport: Rect,
)
    requires
        total <= usize::MAX,
        offset + 2 * height <= total,
        pressed_down.page_down && !pressed_down.scroll_up && !pressed_down.scroll_down
            && !pressed_down.page_up,
        pressed_up.page_up && !pressed_up.scroll_up && !pressed_up.scroll_down,
    ensures
        ({
            let down = offset_after_key(offset, Some(height as usize), pressed_down, viewport)->0;
            let next = clamped_offset(down, total, height);
            let up = offset_after_key(next, Some(height as usize), pressed_up, viewport)->0;
            &&& next == offset + height
            &&& clamped_offset(up, total, height) == offset
        }),
{
}

/// Paging up by a full page and down again comes back to where it began.
pub proof fn law_page_up_down(
    offset: usize,
    total: nat,
    height: u16,
    pressed_down: PressedKeys,
    pressed_up: PressedKeys,
    viewport: Rect,
)
    requires
        total <= usize::MAX,
        height <= offset,
        offset + height <= total,
        pressed_down.page_down && !pressed_down.scroll_up && !pressed_down.scroll_down
            && !pressed_down.page_up,
        pressed_up.page_up && !pressed_up.scroll_up && !pressed_up.scroll_down,
    ensures
        ({
            let up = offset_after_key(offset, Some(height as usize), pressed_up, viewport)->0;
            let previous = clamped_offset(up, total, height);
            let down = offset_after_key(previous, Some(height as usize), pressed_down, viewport)->0;
            &&& previous + height == offset
            &&& clamped_offset(down, total, height) == offset
        }),
{
}

impl<R: Renderable> PagerView<R> {
    /// A chunk that is scrolled into view is wholly visible, also after the window has been kept from
    /// going past the last row, if it is no taller than the window.
    pub proof fn law_chunk_becomes_visible(
        offset: usize,
        first: int,
        last: int,
        total: nat,
        height: u16,
    )
        requires
            0 <= first <= last <= total <= usize::MAX,
            height > 0,
            last - first <= height,
        ensures
            ({
                let top = Self::chunk_offset(offset, first, last, height);
                top <= first && last <= top + height
            }),
            ({
                let top = clamped_offset(
                    Self::chunk_offset(offset, first, last, height),
                    total,
                    height,
                );
                top <= first && last <= top + height
            }),
    {
    }

    /// A chunk that is visible with a row to spare, or fills the window, is not moved by asking for
    /// it.
    pub proof fn law_visible_chunk_stays(offset: usize, first: int, last: int, height: u16)
        requires
            0 <= first <= last <= usize::MAX,
            height > 0,
            offset <= first,
            last <= offset + (height - 1) || (first == offset && last == offset + height),
        ensures
            Self::chunk_offset(offset, first, last, height) == offset,
    {
    }
}

} // verus!
