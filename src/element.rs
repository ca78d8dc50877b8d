//! Elements and the arena that holds them.

use vstd::prelude::*;
use crate::geometry::{measure_size_ok, size_ok, MeasureSize, Point, Rect, Size};
use crate::grid::{tracks_ok, Grid};
use crate::wrap_box::{Line, WrapBox};
use crate::center_test::CenterTest;
use crate::test_view::TestView;
use crate::measure::{measure_node, measured, no_size, zeros};
use crate::arrange::{arrange_node, arranged, rects_of};
use crate::render::{render_node, spec_render};

verus! {

/// A handle to an element held by a `UiTree`. Handles are plain values: a
/// container holds handles of its children, and one element may be reached
/// through several handles.
#[derive(Clone, Copy, Debug, PartialEq, Eq, Structural)]
pub struct ElemRef {
    pub index: usize,
}

/// What the last layout pass recorded for one element.
#[derive(Clone, Copy, Debug, PartialEq, Eq, Structural)]
pub struct ElementCoreData {
    /// The size the last `measure` produced.
    pub desired_size: MeasureSize,
    /// The rectangle the last `arrange` assigned.
    pub rect: Rect,
}

/// The kinds of element.
pub enum Element {
    /// A leaf whose desired size is its natural size, whatever the
    /// constraint; the host paints it.
    Leaf(Size),
    Grid(Grid),
    WrapBox(WrapBox),
    CenterTest(CenterTest),
    TestView(TestView),
}

/// What a container computed in its last `measure` and reads again in
/// `arrange`.
pub enum Layout {
    Empty,
    /// Resolved row heights and column widths of a grid.
    Tracks(Vec<i32>, Vec<i32>),
    /// The lines of a flow container.
    Lines(Vec<Line>),
}

/// One step of a render pass, for the host to carry out in order.
#[derive(Clone, Copy, Debug, PartialEq, Eq, Structural)]
pub enum RenderStep {
    /// Paint the leaf into the rectangle.
    Paint(ElemRef, Rect),
    /// Place the visible cursor as the leaf wants it.
    Cursor(ElemRef),
}

/// The arena of elements. An element only refers to elements added before
/// it, so the elements form a directed acyclic graph.
pub struct UiTree {
    elems: Vec<Element>,
    cores: Vec<ElementCoreData>,
    layouts: Vec<Layout>,
}

/// `e` is well formed at index `h`: its children come before it and its
/// parameters are in range.
pub open spec fn elem_ok(e: Element, h: int) -> bool {
    match e {
        Element::Leaf(s) => size_ok(s),
        Element::Grid(g) => {
            &&& g.children@.len() == g.cells@.len()
            &&& forall|k: int| 0 <= k < g.children@.len() ==> #[trigger] g.children@[k].index < h
            &&& tracks_ok(g.rows@)
            &&& tracks_ok(g.cols@)
        },
        Element::WrapBox(b) => forall|k: int|
            0 <= k < b.children@.len() ==> #[trigger] b.children@[k].index < h,
        Element::CenterTest(c) => c.child.index < h,
        Element::TestView(v) => v.grid.index < h && v.word_box.index < h,
    }
}

/// Every element of `elems` is well formed at its index.
pub open spec fn elems_ok(elems: Seq<Element>) -> bool {
    forall|h: int| 0 <= h < elems.len() ==> elem_ok(#[trigger] elems[h], h)
}

/// The layout record of a grid has one extent per track.
pub open spec fn layout_ok(e: Element, l: Layout) -> bool {
    match e {
        Element::Grid(g) => match l {
            Layout::Tracks(rs, cs) => rs@.len() == g.rows@.len() && cs@.len() == g.cols@.len(),
            _ => false,
        },
        _ => true,
    }
}

/// Every layout record fits its element.
pub open spec fn layouts_ok(elems: Seq<Element>, layouts: Seq<Layout>) -> bool {
    &&& layouts.len() == elems.len()
    &&& forall|h: int| 0 <= h < elems.len() ==> layout_ok(#[trigger] elems[h], layouts[h])
}

/// A layout record that fits `e` before its first measure pass.
fn initial_layout(e: &Element) -> (r: Layout)
    ensures
        layout_ok(*e, r),
{
    match e {
        Element::Grid(g) => Layout::Tracks(zeros(g.rows.len()), zeros(g.cols.len())),
        _ => Layout::Empty,
    }
}

impl UiTree {
    /// The elements, in the order they were added.
    pub closed spec fn elements(&self) -> Seq<Element> {
        self.elems@
    }

    /// What the last passes recorded for each element.
    pub closed spec fn cores(&self) -> Seq<ElementCoreData> {
        self.cores@
    }

    /// What the last measure pass recorded for each container.
    pub closed spec fn layouts(&self) -> Seq<Layout> {
        self.layouts@
    }

    /// The arena is well formed: every element refers only to elements
    /// before it and has a record of each kind.
    pub open spec fn wf(&self) -> bool {
        &&& elems_ok(self.elements())
        &&& self.cores().len() == self.elements().len()
        &&& layouts_ok(self.elements(), self.layouts())
    }

    /// An empty arena.
    pub fn new() -> (r: UiTree)
        ensures
            r.wf(),
            r.elements().len() == 0,
    {
        UiTree { elems: Vec::new(), cores: Vec::new(), layouts: Vec::new() }
    }

    /// The number of elements.
    pub fn len(&self) -> (r: usize)
        requires
            self.wf(),
        ensures
            r == self.elements().len(),
    {
        self.elems.len()
    }

    /// Runs the measure pass on `el` under `c` (see `spec_measure`).
    pub fn measure(&mut self, el: ElemRef, c: MeasureSize)
        requires
            old(self).wf(),
            el.index < old(self).elements().len(),
            measure_size_ok(c),
        ensures
            final(self).wf(),
            final(self).elements() == old(self).elements(),
            measured(
                old(self).elements(),
                old(self).cores(),
                old(self).layouts(),
                final(self).cores(),
                final(self).layouts(),
                el.index as int,
                c,
            ),
    {
        measure_node(&self.elems, &mut self.cores, &mut self.layouts, el.index, c);
    }

    /// Runs the arrange pass on `el` into `r` (see `spec_arrange`).
    pub fn arrange(&mut self, el: ElemRef, r: Rect)
        requires
            old(self).wf(),
            el.index < old(self).elements().len(),
        ensures
            final(self).wf(),
            final(self).elements() == old(self).elements(),
            final(self).layouts() == old(self).layouts(),
            arranged(
                old(self).elements(),
                old(self).layouts(),
                old(self).cores(),
                final(self).cores(),
                el.index as int,
                r,
            ),
    {
        arrange_node(&self.elems, &mut self.cores, &self.layouts, el.index, r);
    }

    /// Runs the render pass on `el` (see `spec_render`). Rendering reads
    /// the arena and changes nothing in it.
    pub fn render(&self, el: ElemRef) -> (r: Vec<RenderStep>)
        requires
            self.wf(),
            el.index < self.elements().len(),
        ensures
            r@ == spec_render(self.elements(), rects_of(self.cores()), el.index as int),
    {
        let mut out: Vec<RenderStep> = Vec::new();
        render_node(&self.elems, &self.cores, el.index, &mut out);
        assert(out@ =~= spec_render(self.elements(), rects_of(self.cores()), el.index as int));
        out
    }

    /// The desired size recorded for `el` by its last measure pass.
    pub fn desired_size(&self, el: ElemRef) -> (r: MeasureSize)
        requires
            self.wf(),
            el.index < self.elements().len(),
        ensures
            r == self.cores()[el.index as int].desired_size,
    {
        self.cores[el.index].desired_size
    }

    /// The rectangle recorded for `el` by its last arrange pass.
    pub fn rect(&self, el: ElemRef) -> (r: Rect)
        requires
            self.wf(),
            el.index < self.elements().len(),
        ensures
            r == self.cores()[el.index as int].rect,
    {
        self.cores[el.index].rect
    }

    /// The record of `el`.
    pub fn get_coredata(&self, el: ElemRef) -> (r: ElementCoreData)
        requires
            self.wf(),
            el.index < self.elements().len(),
        ensures
            r == self.cores()[el.index as int],
    {
        self.cores[el.index]
    }
}

/// Adds `el` to `tree` and returns its handle. Its children must already
/// be in the tree.
pub fn wrap(tree: &mut UiTree, el: Element) -> (r: ElemRef)
    requires
        old(tree).wf(),
        elem_ok(el, old(tree).elements().len() as int),
        old(tree).elements().len() < usize::MAX,
    ensures
        final(tree).wf(),
        r.index == old(tree).elements().len(),
        final(tree).elements() == old(tree).elements().push(el),
        final(tree).cores() == old(tree).cores().push(ElementCoreData {
            desired_size: no_size(),
            rect: Rect { pos: Point { x: 0, y: 0 }, size: Size { w: 0, h: 0 } },
        }),
{
    let index = tree.elems.len();
    let layout = initial_layout(&el);
    tree.cores.push(ElementCoreData {
        desired_size: MeasureSize { w: None, h: None },
        rect: Rect { pos: Point { x: 0, y: 0 }, size: Size { w: 0, h: 0 } },
    });
    tree.layouts.push(layout);
    tree.elems.push(el);
    proof {
        let elems = tree.elems@;
        assert forall|h: int| 0 <= h < elems.len() implies elem_ok(#[trigger] elems[h], h) by {
            if h < index {
                assert(elems[h] == old(tree).elems@[h]);
            }
        }
        assert forall|h: int| 0 <= h < elems.len() implies layout_ok(#[trigger] elems[h], tree.layouts@[h]) by {
            if h < index {
                assert(elems[h] == old(tree).elems@[h]);
            }
        }
    }
    ElemRef { index }
}

/// Another handle to the element `el` refers to.
pub fn add_ref(el: &ElemRef) -> (r: ElemRef)
    ensures
        r == *el,
{
    *el
}

} // verus!
