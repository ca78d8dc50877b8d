//! The render pass: the steps that paint the arranged leaves.

use vstd::prelude::*;
use crate::geometry::Rect;
use crate::element::{elem_ok, elems_ok, ElemRef, Element, ElementCoreData, RenderStep};
use crate::arrange::rects_of;

verus! {

/// The render steps of element `h`, given the arranged rectangles `rects`:
/// a leaf is painted into its rectangle; a container renders its children
/// in order; a view renders its grid and then places the cursor in its
/// word box.
pub open spec fn spec_render(elems: Seq<Element>, rects: Seq<Rect>, h: int) -> Seq<RenderStep>
    decreases h, 1int, 0int,
{
    if h < 0 || h >= elems.len() {
        Seq::empty()
    } else {
        match elems[h] {
            Element::Leaf(_) => seq![RenderStep::Paint(ElemRef { index: h as usize }, rects[h])],
            Element::Grid(g) => render_list(elems, rects, h, g.children@, g.children@.len() as int),
            Element::WrapBox(b) => render_list(elems, rects, h, b.children@, b.children@.len() as int),
            Element::CenterTest(ct) => if 0 <= ct.child.index < h {
                spec_render(elems, rects, ct.child.index as int)
            } else {
                Seq::empty()
            },
            Element::TestView(v) => {
                let inner = if 0 <= v.grid.index < h {
                    spec_render(elems, rects, v.grid.index as int)
                } else {
                    Seq::empty()
                };
                inner.push(RenderStep::Cursor(v.word_box))
            },
        }
    }
}

/// The render steps of the first `k` of `kids`, children of element `h`.
pub open spec fn render_list(
    elems: Seq<Element>,
    rects: Seq<Rect>,
    h: int,
    kids: Seq<ElemRef>,
    k: int,
) -> Seq<RenderStep>
    decreases h, 0int, k,
{
    if k <= 0 {
        Seq::empty()
    } else {
        let prev = render_list(elems, rects, h, kids, k - 1);
        let child = kids[k - 1].index as int;
        if 0 <= child < h {
            prev + spec_render(elems, rects, child)
        } else {
            prev
        }
    }
}

/// The render pass on element `h`: appends its steps to `out`.
pub(crate) fn render_node(elems: &Vec<Element>, cores: &Vec<ElementCoreData>, h: usize, out: &mut Vec<RenderStep>)
    requires
        elems_ok(elems@),
        h < elems@.len(),
        cores@.len() == elems@.len(),
    ensures
        final(out)@ == old(out)@ + spec_render(elems@, rects_of(cores@), h as int),
    decreases h, 1int, 0int,
{
    assert(elem_ok(elems@[h as int], h as int));
    let ghost out0 = out@;
    match &elems[h] {
        Element::Leaf(_) => {
            out.push(RenderStep::Paint(ElemRef { index: h }, cores[h].rect));
            assert(out@ =~= out0 + spec_render(elems@, rects_of(cores@), h as int));
        },
        Element::Grid(g) => {
            render_children(elems, cores, h, &g.children, out);
        },
        Element::WrapBox(b) => {
            render_children(elems, cores, h, &b.children, out);
        },
        Element::CenterTest(ct) => {
            render_node(elems, cores, ct.child.index, out);
        },
        Element::TestView(v) => {
            render_node(elems, cores, v.grid.index, out);
            out.push(RenderStep::Cursor(v.word_box));
            assert(out@ =~= out0 + spec_render(elems@, rects_of(cores@), h as int));
        },
    }
}

fn render_children(
    elems: &Vec<Element>,
    cores: &Vec<ElementCoreData>,
    h: usize,
    kids: &Vec<ElemRef>,
    out: &mut Vec<RenderStep>,
)
    requires
        elems_ok(elems@),
        h < elems@.len(),
        cores@.len() == elems@.len(),
        forall|k: int| 0 <= k < kids@.len() ==> #[trigger] kids@[k].index < h,
    ensures
        final(out)@ == old(out)@ + render_list(elems@, rects_of(cores@), h as int, kids@, kids@.len() as int),
    decreases h, 0int, kids@.len(),
{
    let ghost out0 = out@;
    let n = kids.len();
    let mut k: usize = 0;
    assert(out@ =~= out0 + render_list(elems@, rects_of(cores@), h as int, kids@, 0));
    while k < n
        invariant
            elems_ok(elems@),
            h < elems@.len(),
            cores@.len() == elems@.len(),
            n == kids@.len(),
            forall|k: int| 0 <= k < kids@.len() ==> #[trigger] kids@[k].index < h,
            0 <= k <= n,
            out@ == out0 + render_list(elems@, rects_of(cores@), h as int, kids@, k as int),
        decreases n - k,
    {
        assert(kids@[k as int].index < h);
        let ghost before = out@;
        render_node(elems, cores, kids[k].index, out);
        assert(out@ =~= out0 + render_list(elems@, rects_of(cores@), h as int, kids@, k + 1));
        k = k + 1;
    }
}

} // verus!
