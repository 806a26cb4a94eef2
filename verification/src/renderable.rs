//! Things that can be measured and drawn, and the wrappers that cache and inset them.

use ratatui::buffer::Buffer;
use vstd::prelude::*;

use crate::canvas::{self, Grid};
use crate::geometry::Rect;

verus! {

/// Something that takes up rows at a width and can be drawn into a buffer.
///
/// What it shows is its model; measuring and drawing may fill caches, but leave the model as it is.
/// The spec functions say nothing by themselves; a kind of renderable that is verified defines them.
pub trait Renderable: Sized {
    /// What is shown.
    type Model;

    /// What this renderable shows.
    closed spec fn model(&self) -> Self::Model {
        arbitrary()
    }

    /// Whether the caches agree with the model.
    closed spec fn well_formed(&self) -> bool {
        arbitrary()
    }

    /// Whether the model can be measured and drawn at a width.
    closed spec fn takes(model: Self::Model, width: u16) -> bool {
        arbitrary()
    }

    /// The rows that the model takes at a width.
    closed spec fn height_of(model: Self::Model, width: u16) -> u16 {
        arbitrary()
    }

    /// The grid after the model has been drawn into an area of it.
    closed spec fn painted(model: Self::Model, area: Rect, before: Grid) -> Grid {
        arbitrary()
    }

    /// How often the rows needed were asked for.
    closed spec fn measured(&self) -> nat {
        arbitrary()
    }

    /// Whether the rows needed at a width, once worked out, are remembered until another width is
    /// asked for.
    closed spec fn is_cache() -> bool {
        arbitrary()
    }

    /// Whether the rows needed at a width are remembered, so that they need not be worked out.
    closed spec fn remembers(&self, width: u16) -> bool {
        arbitrary()
    }

    /// How often the rows needed were worked out.
    closed spec fn worked_out(&self) -> nat {
        arbitrary()
    }

    /// How often what is drawn was computed.
    closed spec fn computed(&self) -> nat {
        arbitrary()
    }

    /// Whether what is drawn at a width is at hand, so that it need not be computed.
    closed spec fn ready(&self, width: u16) -> bool {
        arbitrary()
    }

    /// The rows needed at a width.
    fn desired_height(&mut self, width: u16) -> (height: u16)
        requires
            old(self).well_formed(),
            Self::takes(old(self).model(), width),
        ensures
            height == Self::height_of(old(self).model(), width),
            final(self).model() == old(self).model(),
            final(self).well_formed(),
            final(self).measured() == old(self).measured() + 1,
            old(self).remembers(width) || Self::is_cache() ==> final(self).remembers(width),
            final(self).worked_out() == old(self).worked_out() + if old(self).remembers(width) {
                0int
            } else {
                1
            },
            old(self).ready(width) ==> final(self).ready(width),
            final(self).computed() == old(self).computed() + if final(self).ready(width) && !old(
                self,
            ).ready(width) {
                1int
            } else {
                0
            },
    ;

    /// Draws into an area of a buffer.
    fn render(&mut self, area: Rect, buffer: &mut Buffer)
        requires
            old(self).well_formed(),
            Self::takes(old(self).model(), area.width),
            area.fits(),
            canvas::covers(canvas::buffer_cells(*old(buffer)), area),
        ensures
            canvas::buffer_cells(*final(buffer)) == Self::painted(
                old(self).model(),
                area,
                canvas::buffer_cells(*old(buffer)),
            ),
            canvas::buffer_cells(*final(buffer)).dom() == canvas::buffer_cells(*old(buffer)).dom(),
            final(self).model() == old(self).model(),
            final(self).well_formed(),
            final(self).measured() == old(self).measured(),
            final(self).worked_out() == old(self).worked_out(),
            forall|width: u16|
                #[trigger] final(self).remembers(width) == old(self).remembers(width),
            final(self).ready(area.width),
            final(self).computed() == old(self).computed() + if old(self).ready(area.width) {
                0int
            } else {
                1
            },
    ;
}

/// How often a width differs from the one before it, or from none at the start.
pub open spec fn width_changes(last: Option<u16>, widths: Seq<u16>) -> nat
    decreases widths.len(),
{
    if widths.len() == 0 {
        0
    } else {
        let changes = width_changes(last, widths.drop_last());
        let before = if widths.len() == 1 {
            last
        } else {
            Some(widths[widths.len() - 2])
        };
        if before == Some(widths.last()) {
            changes
        } else {
            changes + 1
        }
    }
}

/// A renderable that remembers its height at the last width it was measured at.
pub struct CachedRenderable<R> {
    pub renderable: R,
    pub height: Option<u16>,
    pub last_width: Option<u16>,
    /// How often the rows needed were asked for.
    pub asked: Ghost<nat>,
}

impl<R: Renderable> CachedRenderable<R> {
    /// Wraps a renderable whose height is not known yet.
    pub fn new(renderable: R) -> (cached: Self)
        ensures
            cached.renderable == renderable,
            cached.height is None,
            cached.last_width is None,
            cached.asked@ == 0,
            cached.model() == renderable.model(),
            renderable.well_formed() ==> cached.well_formed(),
    {
        CachedRenderable { renderable, height: None, last_width: None, asked: Ghost(0) }
    }

    /// Asking for the rows needed at a width leads from this state to another one: the renderable is
    /// measured where it was not measured at that width last time, and else left alone.
    pub open spec fn asked_at(self, width: u16, height: u16, after: Self) -> bool {
        &&& height == R::height_of(self.renderable.model(), width)
        &&& after.renderable.model() == self.renderable.model()
        &&& after.last_width == Some(width)
        &&& after.height == Some(height)
        &&& after.asked@ == self.asked@ + 1
        &&& if self.last_width == Some(width) {
            after.renderable == self.renderable
        } else {
            after.renderable.measured() == self.renderable.measured() + 1
        }
    }

    /// However often the rows needed are asked for, a run of equal widths measures the renderable
    /// once, and every answer is the height at the width asked for.
    pub proof fn law_runs_are_measured_once(states: Seq<Self>, widths: Seq<u16>, heights: Seq<u16>)
        requires
            states.len() == widths.len() + 1,
            heights.len() == widths.len(),
            forall|k: int|
                0 <= k < widths.len() ==> (#[trigger] states[k]).asked_at(
                    widths[k],
                    heights[k],
                    states[k + 1],
                ),
        ensures
            states.last().renderable.measured() == states[0].renderable.measured() + width_changes(
                states[0].last_width,
                widths,
            ),
            states.last().renderable.model() == states[0].renderable.model(),
            widths.len() > 0 ==> states.last().last_width == Some(widths.last()),
            forall|k: int|
                0 <= k < widths.len() ==> (#[trigger] heights[k]) == R::height_of(
                    states[0].renderable.model(),
                    widths[k],
                ),
        decreases widths.len(),
    {
        if widths.len() > 0 {
            let n = widths.len() - 1;
            assert forall|k: int| 0 <= k < n implies (#[trigger] states.drop_last()[k]).asked_at(
                widths.drop_last()[k],
                heights.drop_last()[k],
                states.drop_last()[k + 1],
            ) by {
                assert(states[k].asked_at(widths[k], heights[k], states[k + 1]));
            }
            Self::law_runs_are_measured_once(
                states.drop_last(),
                widths.drop_last(),
                heights.drop_last(),
            );
            assert(states[n].asked_at(widths[n], heights[n], states[n + 1]));
            assert forall|k: int| 0 <= k < widths.len() implies (#[trigger] heights[k])
                == R::height_of(states[0].renderable.model(), widths[k]) by {
                if k < n {
                    assert(heights.drop_last()[k] == heights[k]);
                }
            }
        }
    }
}

impl<R: Renderable> Renderable for CachedRenderable<R> {
    type Model = R::Model;

    open spec fn model(&self) -> R::Model {
        self.renderable.model()
    }

    open spec fn well_formed(&self) -> bool {
        &&& self.renderable.well_formed()
        &&& match self.last_width {
            Some(width) => self.height == Some(R::height_of(self.renderable.model(), width)),
            None => true,
        }
    }

    open spec fn takes(model: R::Model, width: u16) -> bool {
        R::takes(model, width)
    }

    open spec fn height_of(model: R::Model, width: u16) -> u16 {
        R::height_of(model, width)
    }

    open spec fn painted(model: R::Model, area: Rect, before: Grid) -> Grid {
        R::painted(model, area, before)
    }

    open spec fn measured(&self) -> nat {
        self.asked@
    }

    open spec fn is_cache() -> bool {
        true
    }

    open spec fn remembers(&self, width: u16) -> bool {
        self.last_width == Some(width)
    }

    open spec fn worked_out(&self) -> nat {
        self.renderable.measured()
    }

    open spec fn computed(&self) -> nat {
        self.renderable.computed()
    }

    open spec fn ready(&self, width: u16) -> bool {
        self.renderable.ready(width)
    }

    /// The rows needed at a width; a width measured last time is not measured again.
    fn desired_height(&mut self, width: u16) -> (height: u16)
        ensures
            old(self).asked_at(width, height, *final(self)),
    {
        proof {
            self.asked = Ghost((self.asked@ + 1) as nat);
        }
        if self.last_width != Some(width) {
            let height = self.renderable.desired_height(width);
            self.height = Some(height);
            self.last_width = Some(width);
        }
        match self.height {
            Some(height) => height,
            None => 0,
        }
    }

    fn render(&mut self, area: Rect, buffer: &mut Buffer) {
        self.renderable.render(area, buffer);
    }
}

} // verus!
