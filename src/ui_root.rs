//! The driver of a layout pass over the whole screen.

use vstd::prelude::*;
use crate::element::{ElemRef, RenderStep, UiTree};
use crate::measure::{layout_views, measure_pass, pass_state, spec_measure};
use crate::arrange::{desired_of, rects_of, spec_arrange};
use crate::render::spec_render;
use crate::geometry::{size_ok, MeasureSize, Point, Rect, Size};

verus! {

/// The root of the screen: runs one full pass over `child` whenever the
/// screen's size is known anew.
#[derive(Clone, Copy, Debug, PartialEq, Eq, Structural)]
pub struct UiRoot {
    pub child: ElemRef,
}

/// The whole screen of size `size`, at the origin.
pub open spec fn screen_rect(size: Size) -> Rect {
    Rect { pos: Point { x: 0, y: 0 }, size }
}

impl UiRoot {
    pub fn new(child: ElemRef) -> (r: UiRoot)
        ensures
            r.child == child,
    {
        UiRoot { child }
    }

    /// Lays the child out on a screen of `size`: measures it with `size` as
    /// an exact constraint, arranges it over the whole screen and returns
    /// its render steps.
    pub fn resize(&self, tree: &mut UiTree, size: Size) -> (r: Vec<RenderStep>)
        requires
            old(tree).wf(),
            self.child.index < old(tree).elements().len(),
            size_ok(size),
        ensures
            final(tree).wf(),
            final(tree).elements() == old(tree).elements(),
            pass_state(final(tree).cores(), final(tree).layouts()) == measure_pass(
                old(tree).elements(),
                pass_state(old(tree).cores(), old(tree).layouts()),
                self.child.index as int,
                MeasureSize { w: Some(size.w), h: Some(size.h) },
            ),
            final(tree).cores()[self.child.index as int].desired_size == spec_measure(
                old(tree).elements(),
                self.child.index as int,
                MeasureSize { w: Some(size.w), h: Some(size.h) },
            ),
            rects_of(final(tree).cores()) == spec_arrange(
                old(tree).elements(),
                desired_of(final(tree).cores()),
                final(tree).layouts(),
                self.child.index as int,
                screen_rect(size),
                rects_of(old(tree).cores()),
            ),
            r@ == spec_render(old(tree).elements(), rects_of(final(tree).cores()), self.child.index as int),
    {
        tree.measure(self.child, MeasureSize { w: Some(size.w), h: Some(size.h) });
        let ghost mid = tree.cores();
        let ghost mid_layouts = tree.layouts();
        assert(rects_of(mid) =~= rects_of(old(tree).cores()));
        tree.arrange(self.child, Rect { pos: Point { x: 0, y: 0 }, size });
        assert(desired_of(tree.cores())[self.child.index as int] == desired_of(mid)[self.child.index as int]);
        assert(layout_views(tree.layouts()) == layout_views(mid_layouts));
        tree.render(self.child)
    }
}

} // verus!
