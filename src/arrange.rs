//! The arrange pass: the rectangle each element is given.

use vstd::prelude::*;
use crate::geometry::{clamp32, clamp_i128, extent, extent_of, MeasureSize, Point, Rect, Size};
use crate::grid::{sum_prefix, Grid};
use crate::wrap_box::{place_children, placements, Line, WrapBox, WrapMode};
use crate::element::{
    elem_ok, elems_ok, layout_ok, layouts_ok, ElemRef, Element, ElementCoreData, Layout, UiTree,
};
use crate::measure::flow_item;

verus! {

/// The arranged rectangles of all elements.
pub open spec fn rects_of(cores: Seq<ElementCoreData>) -> Seq<Rect> {
    Seq::new(cores.len(), |j: int| cores[j].rect)
}

/// The desired sizes of all elements.
pub open spec fn desired_of(cores: Seq<ElementCoreData>) -> Seq<MeasureSize> {
    Seq::new(cores.len(), |j: int| cores[j].desired_size)
}

/// The rectangle of the grid cell `(r, c)`, for a grid at `origin` with
/// row heights `rows` and column widths `cols`.
pub open spec fn cell_rect(rows: Seq<i32>, cols: Seq<i32>, origin: Point, r: int, c: int) -> Rect {
    Rect {
        pos: Point {
            x: clamp32(origin.x + sum_prefix(cols, c)) as i32,
            y: clamp32(origin.y + sum_prefix(rows, r)) as i32,
        },
        size: Size { w: cols[c], h: rows[r] },
    }
}

/// The main extents of the children of flow container `b`, as their
/// desired sizes `ds` give them.
pub open spec fn flow_mains(ds: Seq<MeasureSize>, b: WrapBox) -> Seq<i32> {
    Seq::new(b.children@.len(), |k: int| flow_item(b.mode, ds[b.children@[k].index as int]).0)
}

/// The lines recorded for a flow container (none if there is no record).
pub open spec fn recorded_lines(l: Layout) -> Seq<Line> {
    match l {
        Layout::Lines(ls) => ls@,
        _ => Seq::empty(),
    }
}

/// Half of `x`, rounded towards zero.
pub open spec fn half(x: int) -> int {
    if x >= 0 { x / 2 } else { -((-x) / 2) }
}

/// The rectangle of a child of desired size `d`, centred in `r`.
pub open spec fn centered(r: Rect, d: MeasureSize) -> Rect {
    let w = extent_of(d.w);
    let h = extent_of(d.h);
    Rect {
        pos: Point {
            x: clamp32(r.pos.x + half(r.size.w - w)) as i32,
            y: clamp32(r.pos.y + half(r.size.h - h)) as i32,
        },
        size: Size { w, h },
    }
}

/// The rectangles after arranging element `h` into `r`, from rectangles
/// `rects`, where `ds` are the desired sizes and `layouts` the records of
/// the last measure pass.
///
/// Element `h` takes `r`; then its children are arranged in order:
/// - the children of a grid into their cells (children whose cell is out
///   of range are left alone);
/// - the children of a flow container into their places in the lines
///   (see `placements`);
/// - the child of a centring wrapper, at its desired size, centred in `r`;
/// - the grid of a view, into `r`.
pub open spec fn spec_arrange(
    elems: Seq<Element>,
    ds: Seq<MeasureSize>,
    layouts: Seq<Layout>,
    h: int,
    r: Rect,
    rects: Seq<Rect>,
) -> Seq<Rect>
    decreases h, 2int, 0int,
{
    if h < 0 || h >= elems.len() {
        rects
    } else {
        let own = rects.update(h, r);
        match elems[h] {
            Element::Leaf(_) => own,
            Element::Grid(g) => match layouts[h] {
                Layout::Tracks(rs, cs) => grid_arrange(
                    elems, ds, layouts, h, g, rs@, cs@, r.pos, g.children@.len() as int, own),
                _ => own,
            },
            Element::WrapBox(b) => {
                let placed = placements(
                    recorded_lines(layouts[h]),
                    flow_mains(ds, b),
                    b.line_sep,
                    b.mode,
                    r.pos,
                    recorded_lines(layouts[h]).len() as int,
                );
                flow_arrange(elems, ds, layouts, h, b, placed, placed.len() as int, own)
            },
            Element::CenterTest(ct) => if 0 <= ct.child.index < h {
                spec_arrange(elems, ds, layouts, ct.child.index as int, centered(r, ds[ct.child.index as int]), own)
            } else {
                own
            },
            Element::TestView(v) => if 0 <= v.grid.index < h {
                spec_arrange(elems, ds, layouts, v.grid.index as int, r, own)
            } else {
                own
            },
        }
    }
}

/// The rectangles after arranging the first `k` children of grid `g`
/// (element `h`, at `origin`) into their cells.
pub open spec fn grid_arrange(
    elems: Seq<Element>,
    ds: Seq<MeasureSize>,
    layouts: Seq<Layout>,
    h: int,
    g: Grid,
    rows: Seq<i32>,
    cols: Seq<i32>,
    origin: Point,
    k: int,
    rects: Seq<Rect>,
) -> Seq<Rect>
    decreases h, 0int, k,
{
    if k <= 0 {
        rects
    } else {
        let prev = grid_arrange(elems, ds, layouts, h, g, rows, cols, origin, k - 1, rects);
        let child = g.children@[k - 1].index as int;
        let r = g.cells@[k - 1].0 as int;
        let c = g.cells@[k - 1].1 as int;
        if 0 <= child < h && r < rows.len() && c < cols.len() {
            spec_arrange(elems, ds, layouts, child, cell_rect(rows, cols, origin, r, c), prev)
        } else {
            prev
        }
    }
}

/// The rectangles after arranging the first `k` children of flow container
/// `b` (element `h`) into `placed`.
pub open spec fn flow_arrange(
    elems: Seq<Element>,
    ds: Seq<MeasureSize>,
    layouts: Seq<Layout>,
    h: int,
    b: WrapBox,
    placed: Seq<Rect>,
    k: int,
    rects: Seq<Rect>,
) -> Seq<Rect>
    decreases h, 0int, k,
{
    if k <= 0 {
        rects
    } else {
        let prev = flow_arrange(elems, ds, layouts, h, b, placed, k - 1, rects);
        let child = b.children@[k - 1].index as int;
        if 0 <= child < h {
            spec_arrange(elems, ds, layouts, child, placed[k - 1], prev)
        } else {
            prev
        }
    }
}

/// What a call of `arrange_node` on `h` into `r` leaves: the rectangles of
/// `spec_arrange`, and every desired size as it was.
pub open spec fn arranged(
    elems: Seq<Element>,
    layouts: Seq<Layout>,
    cores0: Seq<ElementCoreData>,
    cores1: Seq<ElementCoreData>,
    h: int,
    r: Rect,
) -> bool {
    &&& cores1.len() == cores0.len()
    &&& desired_of(cores1) == desired_of(cores0)
    &&& rects_of(cores1) == spec_arrange(elems, desired_of(cores0), layouts, h, r, rects_of(cores0))
}

/// The offsets of the tracks: `r[i]` is the sum of the extents before `i`.
fn offsets(v: &Vec<i32>) -> (r: Vec<i128>)
    ensures
        r@.len() == v@.len(),
        forall|i: int| 0 <= i < v@.len() ==> #[trigger] r@[i] == sum_prefix(v@, i),
        forall|i: int| 0 <= i < v@.len() ==> -0x1_0000_0000_0000_0000_0000_0000 <= #[trigger] r@[i] <= 0x1_0000_0000_0000_0000_0000_0000,
{
    let mut r: Vec<i128> = Vec::new();
    let mut s: i128 = 0;
    let mut k: usize = 0;
    while k < v.len()
        invariant
            0 <= k <= v@.len(),
            r@.len() == k,
            s == sum_prefix(v@, k as int),
            -(k * 0x8000_0000) <= s <= k * 0x8000_0000,
            forall|i: int| 0 <= i < k ==> #[trigger] r@[i] == sum_prefix(v@, i),
            forall|i: int| 0 <= i < k ==> -0x1_0000_0000_0000_0000_0000_0000 <= #[trigger] r@[i] <= 0x1_0000_0000_0000_0000_0000_0000,
        decreases v@.len() - k,
    {
        r.push(s);
        s = s + v[k] as i128;
        k = k + 1;
    }
    r
}

/// Half of `x`, rounded towards zero.
fn half_exec(x: i64) -> (r: i64)
    requires
        -0x1_0000_0000 <= x <= 0x1_0000_0000,
    ensures
        r == half(x as int),
{
    if x >= 0 { x / 2 } else { -((-x) / 2) }
}

/// The arrange pass on element `h` into `r`.
pub(crate) fn arrange_node(elems: &Vec<Element>, cores: &mut Vec<ElementCoreData>, layouts: &Vec<Layout>, h: usize, r: Rect)
    requires
        elems_ok(elems@),
        h < elems@.len(),
        old(cores)@.len() == elems@.len(),
        layouts_ok(elems@, layouts@),
    ensures
        arranged(elems@, layouts@, old(cores)@, final(cores)@, h as int, r),
    decreases h, 2int, 0int,
{
    assert(elem_ok(elems@[h as int], h as int));
    let ghost ds = desired_of(cores@);
    let ghost rects0 = rects_of(cores@);
    let d = cores[h].desired_size;
    cores[h] = ElementCoreData { desired_size: d, rect: r };
    assert(desired_of(cores@) =~= ds);
    assert(rects_of(cores@) =~= rects0.update(h as int, r));
    assert(rects0.update(h as int, r).update(h as int, r) =~= rects0.update(h as int, r));
    match &elems[h] {
        Element::Leaf(_) => {},
        Element::Grid(g) => {
            arrange_grid(elems, cores, layouts, h, g, r);
            assert(rects_of(cores@) == spec_arrange(elems@, ds, layouts@, h as int, r, rects0));
        },
        Element::WrapBox(b) => {
            arrange_flow(elems, cores, layouts, h, b, r);
        },
        Element::CenterTest(ct) => {
            let cd = cores[ct.child.index].desired_size;
            let w = extent(cd.w);
            let hh = extent(cd.h);
            let x = clamp_i128(r.pos.x as i128 + half_exec(r.size.w as i64 - w as i64) as i128);
            let y = clamp_i128(r.pos.y as i128 + half_exec(r.size.h as i64 - hh as i64) as i128);
            let cr = Rect { pos: Point { x, y }, size: Size { w, h: hh } };
            arrange_node(elems, cores, layouts, ct.child.index, cr);
            assert(rects_of(cores@) == spec_arrange(elems@, ds, layouts@, h as int, r, rects0));
        },
        Element::TestView(v) => {
            arrange_node(elems, cores, layouts, v.grid.index, r);
            assert(rects_of(cores@) == spec_arrange(elems@, ds, layouts@, h as int, r, rects0));
        },
    }
}

fn arrange_grid(
    elems: &Vec<Element>,
    cores: &mut Vec<ElementCoreData>,
    layouts: &Vec<Layout>,
    h: usize,
    g: &Grid,
    r: Rect,
)
    requires
        elems_ok(elems@),
        h < elems@.len(),
        elems@[h as int] == Element::Grid(*g),
        old(cores)@.len() == elems@.len(),
        old(cores)@[h as int].rect == r,
        layouts_ok(elems@, layouts@),
    ensures
        final(cores)@.len() == old(cores)@.len(),
        desired_of(final(cores)@) == desired_of(old(cores)@),
        rects_of(final(cores)@) == spec_arrange(
            elems@, desired_of(old(cores)@), layouts@, h as int, r, rects_of(old(cores)@)),
    decreases h, 1int, 0int,
{
    assert(elem_ok(elems@[h as int], h as int));
    assert(layout_ok(elems@[h as int], layouts@[h as int]));
    let ghost ds = desired_of(cores@);
    let ghost rects0 = rects_of(cores@);
    assert(rects0.update(h as int, r) =~= rects0);
    match &layouts[h] {
        Layout::Tracks(rs, cs) => {
            let ro = offsets(rs);
            let co = offsets(cs);
            let n = g.children.len();
            let mut k: usize = 0;
            while k < n
                invariant
                    elems_ok(elems@),
                    h < elems@.len(),
                    elems@[h as int] == Element::Grid(*g),
                    elem_ok(elems@[h as int], h as int),
                    layouts_ok(elems@, layouts@),
                    layouts@[h as int] == Layout::Tracks(*rs, *cs),
                    n == g.children@.len(),
                    n == g.cells@.len(),
                    0 <= k <= n,
                    ro@.len() == rs@.len(),
                    co@.len() == cs@.len(),
                    forall|i: int| 0 <= i < rs@.len() ==> #[trigger] ro@[i] == sum_prefix(rs@, i),
                    forall|i: int| 0 <= i < rs@.len() ==> -0x1_0000_0000_0000_0000_0000_0000 <= #[trigger] ro@[i] <= 0x1_0000_0000_0000_0000_0000_0000,
                    forall|i: int| 0 <= i < cs@.len() ==> #[trigger] co@[i] == sum_prefix(cs@, i),
                    forall|i: int| 0 <= i < cs@.len() ==> -0x1_0000_0000_0000_0000_0000_0000 <= #[trigger] co@[i] <= 0x1_0000_0000_0000_0000_0000_0000,
                    cores@.len() == elems@.len(),
                    desired_of(cores@) == ds,
                    rects_of(cores@) == grid_arrange(
                        elems@, ds, layouts@, h as int, *g, rs@, cs@, r.pos, k as int, rects0),
                decreases n - k,
            {
                let child = g.children[k].index;
                let (ri, ci) = g.cells[k];
                assert(g.children@[k as int].index < h);
                if ri < rs.len() && ci < cs.len() {
                    let cr = Rect {
                        pos: Point {
                            x: clamp_i128(r.pos.x as i128 + co[ci]),
                            y: clamp_i128(r.pos.y as i128 + ro[ri]),
                        },
                        size: Size { w: cs[ci], h: rs[ri] },
                    };
                    arrange_node(elems, cores, layouts, child, cr);
                }
                k = k + 1;
            }
        },
        _ => {},
    }
}

fn arrange_flow(
    elems: &Vec<Element>,
    cores: &mut Vec<ElementCoreData>,
    layouts: &Vec<Layout>,
    h: usize,
    b: &WrapBox,
    r: Rect,
)
    requires
        elems_ok(elems@),
        h < elems@.len(),
        elems@[h as int] == Element::WrapBox(*b),
        old(cores)@.len() == elems@.len(),
        old(cores)@[h as int].rect == r,
        layouts_ok(elems@, layouts@),
    ensures
        final(cores)@.len() == old(cores)@.len(),
        desired_of(final(cores)@) == desired_of(old(cores)@),
        rects_of(final(cores)@) == spec_arrange(
            elems@, desired_of(old(cores)@), layouts@, h as int, r, rects_of(old(cores)@)),
    decreases h, 1int, 0int,
{
    assert(elem_ok(elems@[h as int], h as int));
    let ghost ds = desired_of(cores@);
    let ghost rects0 = rects_of(cores@);
    assert(rects0.update(h as int, r) =~= rects0);
    let n = b.children.len();
    let mut mains: Vec<i32> = Vec::new();
    let mut k: usize = 0;
    while k < n
        invariant
            n == b.children@.len(),
            elem_ok(elems@[h as int], h as int),
            elems@[h as int] == Element::WrapBox(*b),
            h < elems@.len(),
            cores@.len() == elems@.len(),
            ds == desired_of(cores@),
            0 <= k <= n,
            mains@ =~= flow_mains(ds, *b).take(k as int),
        decreases n - k,
    {
        let child = b.children[k].index;
        assert(b.children@[k as int].index < h);
        let d = cores[child].desired_size;
        let m = match b.mode {
            WrapMode::Rows => extent(d.w),
            WrapMode::Cols => extent(d.h),
        };
        mains.push(m);
        k = k + 1;
    }
    assert(mains@ =~= flow_mains(ds, *b));
    let empty: Vec<Line> = Vec::new();
    let lines = match &layouts[h] {
        Layout::Lines(ls) => ls,
        _ => &empty,
    };
    assert(lines@ == recorded_lines(layouts@[h as int]));
    let placed = place_children(lines, &mains, b.line_sep, b.mode, r.pos);
    let m = placed.len();
    k = 0;
    while k < m
        invariant
            elems_ok(elems@),
            h < elems@.len(),
            elems@[h as int] == Element::WrapBox(*b),
            elem_ok(elems@[h as int], h as int),
            layouts_ok(elems@, layouts@),
            n == b.children@.len(),
            m == placed@.len(),
            m <= n,
            0 <= k <= m,
            cores@.len() == elems@.len(),
            desired_of(cores@) == ds,
            rects_of(cores@) == flow_arrange(elems@, ds, layouts@, h as int, *b, placed@, k as int, rects0),
        decreases m - k,
    {
        let child = b.children[k].index;
        assert(b.children@[k as int].index < h);
        arrange_node(elems, cores, layouts, child, placed[k]);
        k = k + 1;
    }
}

/// Arranging and then rendering leaves every desired size as it was: the
/// arrange pass changes only rectangles, and the render pass reads the
/// arena without changing it.
pub proof fn lemma_arrange_render_keeps_desired(t0: UiTree, t1: UiTree, el: ElemRef, r: Rect)
    requires
        t1.elements() == t0.elements(),
        arranged(t0.elements(), t0.layouts(), t0.cores(), t1.cores(), el.index as int, r),
    ensures
        forall|j: int| 0 <= j < t0.cores().len() ==>
            (#[trigger] t1.cores()[j]).desired_size == t0.cores()[j].desired_size,
{
    assert forall|j: int| 0 <= j < t0.cores().len() implies
        (#[trigger] t1.cores()[j]).desired_size == t0.cores()[j].desired_size by {
        assert(desired_of(t1.cores())[j] == desired_of(t0.cores())[j]);
    }
}

} // verus!
