//! The measure pass: what each element reports as its desired size, and
//! what it records on the way.

use vstd::prelude::*;
use crate::geometry::{clamp32, clamp_i128, extent, extent_of, measure_size_ok, MeasureSize};
use crate::grid::{
    all_nonneg, all_static, declared_sum, fixed_sum, free_space, lemma_single_dynamic_track,
    lemma_static_tracks_sum, resolve_tracks, resolved_tracks, sum_i32, sum_of, tracks_ok, Grid,
    GridLength,
};
use crate::wrap_box::{
    compute_lines, count_sum, items_ok, lemma_lines_partition_children, line_fits_run,
    lines_cross, lines_extent, lines_main, wrap_lines, Line, WrapBox, WrapMode,
};
use crate::element::{elem_ok, elems_ok, layouts_ok, ElemRef, Element, ElementCoreData, Layout, UiTree};
use crate::arrange::desired_of;

verus! {

/// A size with both axes unconstrained.
pub open spec fn no_size() -> MeasureSize {
    MeasureSize { w: None, h: None }
}

/// The constraint under which a child of a content row is measured: no
/// bound on its height, and none of the width to spare.
pub open spec fn row_probe() -> MeasureSize {
    MeasureSize { w: Some(0), h: None }
}

/// The constraint under which a child of a content column is measured.
pub open spec fn col_probe() -> MeasureSize {
    MeasureSize { w: None, h: Some(0) }
}

/// The constraint under which a flow container measures its children:
/// free along the flow, nothing to spare across it.
pub open spec fn flow_probe(mode: WrapMode) -> MeasureSize {
    match mode {
        WrapMode::Rows => MeasureSize { w: None, h: Some(0) },
        WrapMode::Cols => MeasureSize { w: Some(0), h: None },
    }
}

/// The bound along the flow that `c` puts on a flow container.
pub open spec fn flow_limit(mode: WrapMode, c: MeasureSize) -> Option<i32> {
    match mode {
        WrapMode::Rows => c.w,
        WrapMode::Cols => c.h,
    }
}

/// The extents `(main, cross)` of a child of desired size `d`.
pub open spec fn flow_item(mode: WrapMode, d: MeasureSize) -> (i32, i32) {
    match mode {
        WrapMode::Rows => (extent_of(d.w), extent_of(d.h)),
        WrapMode::Cols => (extent_of(d.h), extent_of(d.w)),
    }
}

/// `v` with `x` at `i` if that is larger than what is there.
pub open spec fn raise(v: Seq<i32>, i: int, x: i32) -> Seq<i32> {
    if x > v[i] { v.update(i, x) } else { v }
}

/// The content extents of the rows and columns of grid `g` (element `h`)
/// over its first `k` children: for each content track, the largest extent
/// that a child placed in it asks for along the track's axis.
pub open spec fn grid_content(elems: Seq<Element>, h: int, g: Grid, k: int) -> (Seq<i32>, Seq<i32>)
    decreases h, 0int, k,
{
    if k <= 0 {
        (Seq::new(g.rows@.len(), |i: int| 0i32), Seq::new(g.cols@.len(), |i: int| 0i32))
    } else {
        let prev = grid_content(elems, h, g, k - 1);
        let child = g.children@[k - 1].index as int;
        let r = g.cells@[k - 1].0 as int;
        let c = g.cells@[k - 1].1 as int;
        if 0 <= child < h && r < g.rows@.len() && c < g.cols@.len() {
            let rows = if g.rows@[r] is Content {
                raise(prev.0, r, extent_of(spec_measure(elems, child, row_probe()).h))
            } else {
                prev.0
            };
            let cols = if g.cols@[c] is Content {
                raise(prev.1, c, extent_of(spec_measure(elems, child, col_probe()).w))
            } else {
                prev.1
            };
            (rows, cols)
        } else {
            prev
        }
    }
}

/// The extents of the first `k` children of flow container `b` (element
/// `h`), each measured under `flow_probe`.
pub open spec fn flow_items(elems: Seq<Element>, h: int, b: WrapBox, k: int) -> Seq<(i32, i32)>
    decreases h, 0int, k,
{
    if k <= 0 {
        Seq::empty()
    } else {
        let child = b.children@[k - 1].index as int;
        let d = if 0 <= child < h { spec_measure(elems, child, flow_probe(b.mode)) } else { no_size() };
        flow_items(elems, h, b, k - 1).push(flow_item(b.mode, d))
    }
}

/// The resolved row heights and column widths of grid `g` (element `h`)
/// under constraint `c`.
pub open spec fn grid_tracks(elems: Seq<Element>, h: int, g: Grid, c: MeasureSize) -> (Seq<i32>, Seq<i32>)
    decreases h, 1int, 0int,
{
    let content = grid_content(elems, h, g, g.children@.len() as int);
    (resolved_tracks(g.rows@, content.0, c.h), resolved_tracks(g.cols@, content.1, c.w))
}

/// The lines of flow container `b` (element `h`) under constraint `c`.
pub open spec fn flow_lines(elems: Seq<Element>, h: int, b: WrapBox, c: MeasureSize) -> Seq<Line>
    decreases h, 1int, 0int,
{
    wrap_lines(flow_items(elems, h, b, b.children@.len() as int), flow_limit(b.mode, c))
}

/// The desired size that element `h` reports when measured under `c`.
///
/// - A leaf reports its natural size.
/// - A grid reports the sums of its resolved column widths and row heights.
/// - A flow container reports the extent of its lines: the longest line
///   along the flow, and the lines with their gaps across it.
/// - A centring wrapper reports the constraint itself.
/// - A view reports what its grid reports.
pub open spec fn spec_measure(elems: Seq<Element>, h: int, c: MeasureSize) -> MeasureSize
    decreases h, 2int, 0int,
{
    if h < 0 || h >= elems.len() {
        no_size()
    } else {
        match elems[h] {
            Element::Leaf(s) => MeasureSize { w: Some(s.w), h: Some(s.h) },
            Element::Grid(g) => {
                let t = grid_tracks(elems, h, g, c);
                MeasureSize { w: Some(clamp32(sum_of(t.1)) as i32), h: Some(clamp32(sum_of(t.0)) as i32) }
            },
            Element::WrapBox(b) => {
                let lines = flow_lines(elems, h, b, c);
                let main = lines_main(lines) as i32;
                let cross = lines_cross(lines, b.line_sep) as i32;
                match b.mode {
                    WrapMode::Rows => MeasureSize { w: Some(main), h: Some(cross) },
                    WrapMode::Cols => MeasureSize { w: Some(cross), h: Some(main) },
                }
            },
            Element::CenterTest(_) => c,
            Element::TestView(v) => if 0 <= v.grid.index < h {
                spec_measure(elems, v.grid.index as int, c)
            } else {
                no_size()
            },
        }
    }
}

/// A layout record as a mathematical value.
pub enum LayoutView {
    Empty,
    Tracks(Seq<i32>, Seq<i32>),
    Lines(Seq<Line>),
}

/// The view of a layout record.
pub open spec fn layout_view(l: Layout) -> LayoutView {
    match l {
        Layout::Empty => LayoutView::Empty,
        Layout::Tracks(rs, cs) => LayoutView::Tracks(rs@, cs@),
        Layout::Lines(ls) => LayoutView::Lines(ls@),
    }
}

/// The views of all layout records.
pub open spec fn layout_views(ls: Seq<Layout>) -> Seq<LayoutView> {
    Seq::new(ls.len(), |j: int| layout_view(ls[j]))
}

/// What a measure pass records: a desired size and a layout record for
/// each element.
pub type PassState = (Seq<MeasureSize>, Seq<LayoutView>);

/// The records after measuring element `h` under `c`, from records `st`.
///
/// The children are measured first, in order, as `spec_measure` describes
/// (a grid measures the children of its content tracks under the probes,
/// then every placed child under the extents of its cell); then `h`
/// records its desired size and, for a container, its tracks or lines.
pub open spec fn measure_pass(elems: Seq<Element>, st: PassState, h: int, c: MeasureSize) -> PassState
    decreases h, 2int, 0int,
{
    if h < 0 || h >= elems.len() {
        st
    } else {
        let d = spec_measure(elems, h, c);
        match elems[h] {
            Element::Leaf(_) => (st.0.update(h, d), st.1),
            Element::Grid(g) => {
                let t = grid_tracks(elems, h, g, c);
                let n = g.children@.len() as int;
                let s1 = grid_probe_pass(elems, h, g, n, st);
                let s2 = grid_cell_pass(elems, h, g, t.0, t.1, n, s1);
                (s2.0.update(h, d), s2.1.update(h, LayoutView::Tracks(t.0, t.1)))
            },
            Element::WrapBox(b) => {
                let s1 = flow_probe_pass(elems, h, b, b.children@.len() as int, st);
                (s1.0.update(h, d), s1.1.update(h, LayoutView::Lines(flow_lines(elems, h, b, c))))
            },
            Element::CenterTest(ct) => {
                let s1 = if 0 <= ct.child.index < h {
                    measure_pass(elems, st, ct.child.index as int, c)
                } else {
                    st
                };
                (s1.0.update(h, d), s1.1)
            },
            Element::TestView(v) => {
                let s1 = if 0 <= v.grid.index < h {
                    measure_pass(elems, st, v.grid.index as int, c)
                } else {
                    st
                };
                (s1.0.update(h, d), s1.1)
            },
        }
    }
}

/// The records after a grid (element `h`) measures its first `k` children
/// under the probes of their content tracks: `row_probe` if the row is
/// sized to content, then `col_probe` if the column is.
pub open spec fn grid_probe_pass(elems: Seq<Element>, h: int, g: Grid, k: int, st: PassState) -> PassState
    decreases h, 0int, k,
{
    if k <= 0 {
        st
    } else {
        let prev = grid_probe_pass(elems, h, g, k - 1, st);
        let child = g.children@[k - 1].index as int;
        let r = g.cells@[k - 1].0 as int;
        let c = g.cells@[k - 1].1 as int;
        if 0 <= child < h && r < g.rows@.len() && c < g.cols@.len() {
            let s1 = if g.rows@[r] is Content {
                measure_pass(elems, prev, child, row_probe())
            } else {
                prev
            };
            if g.cols@[c] is Content {
                measure_pass(elems, s1, child, col_probe())
            } else {
                s1
            }
        } else {
            prev
        }
    }
}

/// The records after a grid (element `h`) with row heights `rows` and
/// column widths `cols` measures its first `k` children under the extents
/// of their cells.
pub open spec fn grid_cell_pass(
    elems: Seq<Element>,
    h: int,
    g: Grid,
    rows: Seq<i32>,
    cols: Seq<i32>,
    k: int,
    st: PassState,
) -> PassState
    decreases h, 0int, k,
{
    if k <= 0 {
        st
    } else {
        let prev = grid_cell_pass(elems, h, g, rows, cols, k - 1, st);
        let child = g.children@[k - 1].index as int;
        let r = g.cells@[k - 1].0 as int;
        let c = g.cells@[k - 1].1 as int;
        if 0 <= child < h && r < rows.len() && c < cols.len() {
            measure_pass(elems, prev, child, MeasureSize { w: Some(cols[c]), h: Some(rows[r]) })
        } else {
            prev
        }
    }
}

/// The records after a flow container (element `h`) measures its first `k`
/// children under `flow_probe`.
pub open spec fn flow_probe_pass(elems: Seq<Element>, h: int, b: WrapBox, k: int, st: PassState) -> PassState
    decreases h, 0int, k,
{
    if k <= 0 {
        st
    } else {
        let prev = flow_probe_pass(elems, h, b, k - 1, st);
        let child = b.children@[k - 1].index as int;
        if 0 <= child < h {
            measure_pass(elems, prev, child, flow_probe(b.mode))
        } else {
            prev
        }
    }
}

/// The records of `cores` and `layouts`.
pub open spec fn pass_state(cores: Seq<ElementCoreData>, layouts: Seq<Layout>) -> PassState {
    (desired_of(cores), layout_views(layouts))
}

/// What a call of `measure_node` on `h` under `c` leaves: the records of
/// `measure_pass` (so `h` reports `spec_measure`), every arranged rectangle
/// as it was, and layout records that still fit their elements.
pub open spec fn measured(
    elems: Seq<Element>,
    cores0: Seq<ElementCoreData>,
    layouts0: Seq<Layout>,
    cores1: Seq<ElementCoreData>,
    layouts1: Seq<Layout>,
    h: int,
    c: MeasureSize,
) -> bool {
    &&& cores1.len() == cores0.len()
    &&& cores1[h].desired_size == spec_measure(elems, h, c)
    &&& pass_state(cores1, layouts1) == measure_pass(elems, pass_state(cores0, layouts0), h, c)
    &&& forall|j: int| 0 <= j < cores0.len() ==> (#[trigger] cores1[j]).rect == cores0[j].rect
    &&& forall|j: int| h < j < cores0.len() ==> #[trigger] cores1[j] == cores0[j]
    &&& layouts_ok(elems, layouts1)
    &&& forall|j: int| h < j < layouts0.len() ==> #[trigger] layouts1[j] == layouts0[j]
}

/// The measure pass on element `h` under constraint `c`.
pub(crate) fn measure_node(
    elems: &Vec<Element>,
    cores: &mut Vec<ElementCoreData>,
    layouts: &mut Vec<Layout>,
    h: usize,
    c: MeasureSize,
)
    requires
        elems_ok(elems@),
        h < elems@.len(),
        old(cores)@.len() == elems@.len(),
        layouts_ok(elems@, old(layouts)@),
        measure_size_ok(c),
    ensures
        measured(elems@, old(cores)@, old(layouts)@, final(cores)@, final(layouts)@, h as int, c),
    decreases h, 2int, 0int,
{
    assert(elem_ok(elems@[h as int], h as int));
    let ghost st0 = pass_state(cores@, layouts@);
    match &elems[h] {
        Element::Leaf(s) => {
            let rect = cores[h].rect;
            cores[h] = ElementCoreData { desired_size: MeasureSize { w: Some(s.w), h: Some(s.h) }, rect };
            assert(desired_of(cores@) =~= st0.0.update(h as int, spec_measure(elems@, h as int, c)));
        },
        Element::Grid(g) => {
            measure_grid(elems, cores, layouts, h, g, c);
        },
        Element::WrapBox(b) => {
            measure_flow(elems, cores, layouts, h, b, c);
        },
        Element::CenterTest(ct) => {
            measure_node(elems, cores, layouts, ct.child.index, c);
            let ghost st1 = pass_state(cores@, layouts@);
            let rect = cores[h].rect;
            cores[h] = ElementCoreData { desired_size: c, rect };
            assert(desired_of(cores@) =~= st1.0.update(h as int, spec_measure(elems@, h as int, c)));
        },
        Element::TestView(v) => {
            measure_node(elems, cores, layouts, v.grid.index, c);
            let ghost st1 = pass_state(cores@, layouts@);
            let d = cores[v.grid.index].desired_size;
            let rect = cores[h].rect;
            cores[h] = ElementCoreData { desired_size: d, rect };
            assert(desired_of(cores@) =~= st1.0.update(h as int, spec_measure(elems@, h as int, c)));
        },
    }
}

/// A vector of `n` zeros.
pub(crate) fn zeros(n: usize) -> (r: Vec<i32>)
    ensures
        r@ == Seq::new(n as nat, |i: int| 0i32),
{
    let mut r: Vec<i32> = Vec::new();
    let mut k: usize = 0;
    while k < n
        invariant
            0 <= k <= n,
            r@ =~= Seq::new(k as nat, |i: int| 0i32),
        decreases n - k,
    {
        r.push(0);
        k = k + 1;
    }
    r
}

/// Whether a track is sized to its content.
fn is_content(t: GridLength) -> (r: bool)
    ensures
        r == t is Content,
{
    match t {
        GridLength::Content => true,
        _ => false,
    }
}

/// The measure pass on a grid: content tracks are measured first, then the
/// tracks are resolved, then every placed child is measured under the
/// extents of its cell.
fn measure_grid(
    elems: &Vec<Element>,
    cores: &mut Vec<ElementCoreData>,
    layouts: &mut Vec<Layout>,
    h: usize,
    g: &Grid,
    c: MeasureSize,
)
    requires
        elems_ok(elems@),
        h < elems@.len(),
        elems@[h as int] == Element::Grid(*g),
        old(cores)@.len() == elems@.len(),
        layouts_ok(elems@, old(layouts)@),
        measure_size_ok(c),
    ensures
        measured(elems@, old(cores)@, old(layouts)@, final(cores)@, final(layouts)@, h as int, c),
    decreases h, 1int, 0int,
{
    assert(elem_ok(elems@[h as int], h as int));
    let ghost cores0 = cores@;
    let ghost layouts0 = layouts@;
    let ghost st0 = pass_state(cores@, layouts@);
    let n = g.children.len();
    let mut rc = zeros(g.rows.len());
    let mut cc = zeros(g.cols.len());
    let mut k: usize = 0;
    while k < n
        invariant
            elems_ok(elems@),
            h < elems@.len(),
            elems@[h as int] == Element::Grid(*g),
            elem_ok(elems@[h as int], h as int),
            n == g.children@.len(),
            n == g.cells@.len(),
            0 <= k <= n,
            cores@.len() == elems@.len(),
            cores0.len() == elems@.len(),
            layouts0.len() == elems@.len(),
            layouts_ok(elems@, layouts@),
            (rc@, cc@) == grid_content(elems@, h as int, *g, k as int),
            pass_state(cores@, layouts@) == grid_probe_pass(elems@, h as int, *g, k as int, st0),
            rc@.len() == g.rows@.len(),
            cc@.len() == g.cols@.len(),
            all_nonneg(rc@),
            all_nonneg(cc@),
            forall|j: int| 0 <= j < cores0.len() ==> (#[trigger] cores@[j]).rect == cores0[j].rect,
            forall|j: int| h <= j < cores0.len() ==> #[trigger] cores@[j] == cores0[j],
            forall|j: int| h <= j < layouts0.len() ==> #[trigger] layouts@[j] == layouts0[j],
        decreases n - k,
    {
        let child = g.children[k].index;
        let (r, col) = g.cells[k];
        assert(g.children@[k as int].index < h);
        if r < g.rows.len() && col < g.cols.len() {
            if is_content(g.rows[r]) {
                measure_node(elems, cores, layouts, child, MeasureSize { w: Some(0), h: None });
                let e = extent(cores[child].desired_size.h);
                if e > rc[r] {
                    rc[r] = e;
                }
            }
            if is_content(g.cols[col]) {
                measure_node(elems, cores, layouts, child, MeasureSize { w: None, h: Some(0) });
                let e = extent(cores[child].desired_size.w);
                if e > cc[col] {
                    cc[col] = e;
                }
            }
        }
        k = k + 1;
    }
    let re = resolve_tracks(&g.rows, &rc, c.h);
    let ce = resolve_tracks(&g.cols, &cc, c.w);
    assert(grid_tracks(elems@, h as int, *g, c) == (re@, ce@));
    let ghost st1 = pass_state(cores@, layouts@);
    k = 0;
    while k < n
        invariant
            elems_ok(elems@),
            h < elems@.len(),
            elems@[h as int] == Element::Grid(*g),
            elem_ok(elems@[h as int], h as int),
            n == g.children@.len(),
            n == g.cells@.len(),
            0 <= k <= n,
            re@.len() == g.rows@.len(),
            ce@.len() == g.cols@.len(),
            pass_state(cores@, layouts@) == grid_cell_pass(elems@, h as int, *g, re@, ce@, k as int, st1),
            all_nonneg(re@),
            all_nonneg(ce@),
            cores@.len() == elems@.len(),
            cores0.len() == elems@.len(),
            layouts0.len() == elems@.len(),
            layouts_ok(elems@, layouts@),
            forall|j: int| 0 <= j < cores0.len() ==> (#[trigger] cores@[j]).rect == cores0[j].rect,
            forall|j: int| h <= j < cores0.len() ==> #[trigger] cores@[j] == cores0[j],
            forall|j: int| h <= j < layouts0.len() ==> #[trigger] layouts@[j] == layouts0[j],
        decreases n - k,
    {
        let child = g.children[k].index;
        let (r, col) = g.cells[k];
        assert(g.children@[k as int].index < h);
        if r < g.rows.len() && col < g.cols.len() {
            assert(re@[r as int] >= 0 && ce@[col as int] >= 0);
            measure_node(elems, cores, layouts, child, MeasureSize { w: Some(ce[col]), h: Some(re[r]) });
        }
        k = k + 1;
    }
    let sw = sum_i32(&ce);
    let sh = sum_i32(&re);
    let rect = cores[h].rect;
    cores[h] = ElementCoreData {
        desired_size: MeasureSize { w: Some(clamp_i128(sw)), h: Some(clamp_i128(sh)) },
        rect,
    };
    let ghost st2 = pass_state(cores@, layouts@);
    let ghost t = (re@, ce@);
    assert(cores@[h as int].desired_size == spec_measure(elems@, h as int, c));
    layouts[h] = Layout::Tracks(re, ce);
    assert(layouts_ok(elems@, layouts@));
    assert(desired_of(cores@) =~= st2.0.update(h as int, spec_measure(elems@, h as int, c)));
    assert(layout_views(layouts@) =~= st2.1.update(h as int, LayoutView::Tracks(t.0, t.1)));
    assert(pass_state(cores@, layouts@) == measure_pass(elems@, st0, h as int, c));
}

/// The measure pass on a flow container: every child is measured under
/// `flow_probe`, then the children are split into lines.
fn measure_flow(
    elems: &Vec<Element>,
    cores: &mut Vec<ElementCoreData>,
    layouts: &mut Vec<Layout>,
    h: usize,
    b: &WrapBox,
    c: MeasureSize,
)
    requires
        elems_ok(elems@),
        h < elems@.len(),
        elems@[h as int] == Element::WrapBox(*b),
        old(cores)@.len() == elems@.len(),
        layouts_ok(elems@, old(layouts)@),
        measure_size_ok(c),
    ensures
        measured(elems@, old(cores)@, old(layouts)@, final(cores)@, final(layouts)@, h as int, c),
    decreases h, 1int, 0int,
{
    assert(elem_ok(elems@[h as int], h as int));
    let ghost cores0 = cores@;
    let ghost layouts0 = layouts@;
    let ghost st0 = pass_state(cores@, layouts@);
    let n = b.children.len();
    let mut items: Vec<(i32, i32)> = Vec::new();
    let mut k: usize = 0;
    while k < n
        invariant
            elems_ok(elems@),
            h < elems@.len(),
            elems@[h as int] == Element::WrapBox(*b),
            elem_ok(elems@[h as int], h as int),
            n == b.children@.len(),
            0 <= k <= n,
            cores@.len() == elems@.len(),
            cores0.len() == elems@.len(),
            layouts0.len() == elems@.len(),
            layouts_ok(elems@, layouts@),
            items@ == flow_items(elems@, h as int, *b, k as int),
            pass_state(cores@, layouts@) == flow_probe_pass(elems@, h as int, *b, k as int, st0),
            items_ok(items@),
            forall|j: int| 0 <= j < cores0.len() ==> (#[trigger] cores@[j]).rect == cores0[j].rect,
            forall|j: int| h <= j < cores0.len() ==> #[trigger] cores@[j] == cores0[j],
            forall|j: int| h <= j < layouts0.len() ==> #[trigger] layouts@[j] == layouts0[j],
        decreases n - k,
    {
        let child = b.children[k].index;
        assert(b.children@[k as int].index < h);
        let probe = match b.mode {
            WrapMode::Rows => MeasureSize { w: None, h: Some(0) },
            WrapMode::Cols => MeasureSize { w: Some(0), h: None },
        };
        measure_node(elems, cores, layouts, child, probe);
        let d = cores[child].desired_size;
        let item = match b.mode {
            WrapMode::Rows => (extent(d.w), extent(d.h)),
            WrapMode::Cols => (extent(d.h), extent(d.w)),
        };
        items.push(item);
        k = k + 1;
    }
    let limit = match b.mode {
        WrapMode::Rows => c.w,
        WrapMode::Cols => c.h,
    };
    let lines = compute_lines(&items, limit);
    let (main, cross) = lines_extent(&lines, b.line_sep);
    let d = match b.mode {
        WrapMode::Rows => MeasureSize { w: Some(main), h: Some(cross) },
        WrapMode::Cols => MeasureSize { w: Some(cross), h: Some(main) },
    };
    let rect = cores[h].rect;
    cores[h] = ElementCoreData { desired_size: d, rect };
    assert(flow_lines(elems@, h as int, *b, c) == lines@);
    assert(cores@[h as int].desired_size == spec_measure(elems@, h as int, c));
    let ghost st1 = pass_state(cores@, layouts@);
    let ghost ls = lines@;
    layouts[h] = Layout::Lines(lines);
    assert(layouts_ok(elems@, layouts@));
    assert(layout_views(layouts@) =~= st1.1.update(h as int, LayoutView::Lines(ls)));
    assert(pass_state(cores@, layouts@) == measure_pass(elems@, st0, h as int, c));
}

/// A grid whose rows and columns are all static reports the sums of their
/// declared extents (clamped to the range of `i32`), whatever the constraint.
pub proof fn lemma_static_grid_size(elems: Seq<Element>, h: int, g: Grid, c: MeasureSize)
    requires
        0 <= h < elems.len(),
        elems[h] == Element::Grid(g),
        all_static(g.rows@),
        all_static(g.cols@),
    ensures
        spec_measure(elems, h, c) == (MeasureSize {
            w: Some(clamp32(declared_sum(g.cols@, g.cols@.len() as int)) as i32),
            h: Some(clamp32(declared_sum(g.rows@, g.rows@.len() as int)) as i32),
        }),
{
    let content = grid_content(elems, h, g, g.children@.len() as int);
    lemma_static_tracks_sum(g.rows@, content.0, c.h);
    lemma_static_tracks_sum(g.cols@, content.1, c.w);
    let t = grid_tracks(elems, h, g, c);
    assert(t == (resolved_tracks(g.rows@, content.0, c.h), resolved_tracks(g.cols@, content.1, c.w)));
}

/// In a grid whose only weighted row is row `i`, of weight 1, that row
/// receives all the free height: what the constraint leaves after the
/// static and content rows, never negative, and nothing when the height is
/// unconstrained.
pub proof fn lemma_single_dynamic_row(elems: Seq<Element>, h: int, g: Grid, c: MeasureSize, i: int)
    requires
        0 <= h < elems.len(),
        elems[h] == Element::Grid(g),
        0 <= i < g.rows@.len(),
        g.rows@[i] == GridLength::Dynamic(1),
        forall|j: int| 0 <= j < g.rows@.len() && j != i ==> !(#[trigger] g.rows@[j] is Dynamic),
        elems_ok(elems),
    ensures
        grid_tracks(elems, h, g, c).0[i] == free_space(
            c.h,
            fixed_sum(
                g.rows@,
                grid_content(elems, h, g, g.children@.len() as int).0,
                g.rows@.len() as int,
            ),
        ),
{
    let content = grid_content(elems, h, g, g.children@.len() as int);
    lemma_single_dynamic_track(g.rows@, content.0, c.h, i);
    assert(elem_ok(elems[h], h));
    lemma_grid_content_nonneg(elems, h, g, g.children@.len() as int);
    lemma_fixed_sum_nonneg(g.rows@, content.0, g.rows@.len() as int);
    lemma_free_space_bounds(c.h, fixed_sum(g.rows@, content.0, g.rows@.len() as int));
}

proof fn lemma_grid_content_nonneg(elems: Seq<Element>, h: int, g: Grid, k: int)
    requires
        0 <= k <= g.children@.len(),
        g.children@.len() == g.cells@.len(),
    ensures
        grid_content(elems, h, g, k).0.len() == g.rows@.len(),
        grid_content(elems, h, g, k).1.len() == g.cols@.len(),
        all_nonneg(grid_content(elems, h, g, k).0),
        all_nonneg(grid_content(elems, h, g, k).1),
    decreases k,
{
    if k > 0 {
        lemma_grid_content_nonneg(elems, h, g, k - 1);
    }
}

proof fn lemma_fixed_sum_nonneg(tracks: Seq<GridLength>, content: Seq<i32>, n: int)
    requires
        tracks_ok(tracks),
        all_nonneg(content),
        0 <= n <= tracks.len(),
        tracks.len() == content.len(),
    ensures
        fixed_sum(tracks, content, n) >= 0,
    decreases n,
{
    if n > 0 {
        lemma_fixed_sum_nonneg(tracks, content, n - 1);
        assert(content[n - 1] >= 0);
        match tracks[n - 1] {
            GridLength::Static(_) => {},
            _ => {},
        }
    }
}

proof fn lemma_free_space_bounds(space: Option<i32>, used: int)
    requires
        used >= 0,
    ensures
        0 <= free_space(space, used) <= i32::MAX,
{
}

proof fn lemma_flow_items_ok(elems: Seq<Element>, h: int, b: WrapBox, k: int)
    requires
        0 <= k <= b.children@.len(),
    ensures
        flow_items(elems, h, b, k).len() == k,
        items_ok(flow_items(elems, h, b, k)),
    decreases k,
{
    if k > 0 {
        lemma_flow_items_ok(elems, h, b, k - 1);
        let items = flow_items(elems, h, b, k);
        assert forall|i: int| 0 <= i < items.len() implies (#[trigger] items[i]).0 >= 0 && items[i].1 >= 0 by {
            if i < k - 1 {
                assert(items[i] == flow_items(elems, h, b, k - 1)[i]);
            }
        }
    }
}

/// The lines that a flow container records partition its children in
/// order: each line holds at least one child, the counts add up to the
/// number of children, and each line has the extents of its run of
/// children (see `line_fits_run`).
pub proof fn lemma_flow_lines_partition(elems: Seq<Element>, h: int, b: WrapBox, c: MeasureSize)
    requires
        b.children@.len() <= usize::MAX,
    ensures
        count_sum(flow_lines(elems, h, b, c), flow_lines(elems, h, b, c).len() as int) == b.children@.len(),
        forall|j: int| 0 <= j < flow_lines(elems, h, b, c).len()
            ==> #[trigger] flow_lines(elems, h, b, c)[j].count >= 1,
        forall|j: int| 0 <= j < flow_lines(elems, h, b, c).len() ==> #[trigger] line_fits_run(
            flow_lines(elems, h, b, c),
            flow_items(elems, h, b, b.children@.len() as int),
            j,
        ),
{
    let n = b.children@.len() as int;
    lemma_flow_items_ok(elems, h, b, n);
    lemma_lines_partition_children(flow_items(elems, h, b, n), flow_limit(b.mode, c));
}

/// Measuring an element twice under the same constraint, with nothing
/// changed in between, records the same desired size both times.
pub proof fn lemma_measure_idempotent(t0: UiTree, t1: UiTree, t2: UiTree, el: ElemRef, c: MeasureSize)
    requires
        t1.elements() == t0.elements(),
        measured(t0.elements(), t0.cores(), t0.layouts(), t1.cores(), t1.layouts(), el.index as int, c),
        t2.elements() == t1.elements(),
        measured(t1.elements(), t1.cores(), t1.layouts(), t2.cores(), t2.layouts(), el.index as int, c),
    ensures
        t2.cores()[el.index as int].desired_size == t1.cores()[el.index as int].desired_size,
{
}

} // verus!
