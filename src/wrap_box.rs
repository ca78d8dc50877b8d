//! The wrapping flow container: children are laid along a main axis and
//! wrap onto a new line when the next one would overflow the constraint.

use vstd::prelude::*;
use crate::geometry::{clamp32, clamp_i128, Point, Rect, Size};
use crate::element::ElemRef;

verus! {

/// The direction in which a `WrapBox` flows.
#[derive(Clone, Copy, Debug, PartialEq, Eq, Structural)]
pub enum WrapMode {
    /// Children flow left to right; lines stack downwards.
    Rows,
    /// Children flow top to bottom; lines stack to the right.
    Cols,
}

/// Alignment of children within a line. Only `Begin` has an effect: the
/// other values are accepted and lay out as `Begin` does.
#[derive(Clone, Copy, Debug, PartialEq, Eq, Structural)]
pub enum WrapAlign {
    Begin,
    Middle,
    End,
    Stretch,
}

/// A flow container: its children in order, the flow direction, the
/// alignment within a line and the gap between two lines.
pub struct WrapBox {
    pub children: Vec<ElemRef>,
    pub mode: WrapMode,
    pub align: WrapAlign,
    pub line_sep: i32,
}

impl WrapBox {
    /// A flow container over `children`.
    pub fn new(children: Vec<ElemRef>, mode: WrapMode, align: WrapAlign, line_sep: i32) -> (r: WrapBox)
        ensures
            r.children@ == children@,
            r.mode == mode,
            r.align == align,
            r.line_sep == line_sep,
    {
        WrapBox { children, mode, align, line_sep }
    }
}

/// One line of a `WrapBox`: its extent along the flow (`main`), its extent
/// across it (`cross`) and how many consecutive children it holds.
#[derive(Clone, Copy, Debug, PartialEq, Eq, Structural)]
pub struct Line {
    pub main: i32,
    pub cross: i32,
    pub count: usize,
}

/// The state of the line accumulator: the lines closed so far and the
/// running main extent, cross extent and child count of the open line.
pub type LineAcc = (Seq<Line>, int, int, int);

/// The record of a closed line.
pub open spec fn close_line(main: int, cross: int, count: int) -> Line {
    Line { main: clamp32(main) as i32, cross: cross as i32, count: count as usize }
}

/// Takes one child of extents `item = (main, cross)` into the accumulator.
/// The open line is closed first when it holds a child and the new one would
/// take its main extent past `limit`.
pub open spec fn wrap_step(acc: LineAcc, item: (i32, i32), limit: Option<i32>) -> LineAcc {
    if limit is Some && acc.3 > 0 && acc.1 + item.0 > limit->0 {
        (acc.0.push(close_line(acc.1, acc.2, acc.3)), item.0 as int, item.1 as int, 1)
    } else {
        (acc.0, acc.1 + item.0, if item.1 > acc.2 { item.1 as int } else { acc.2 }, acc.3 + 1)
    }
}

/// The accumulator after the first `k` children.
pub open spec fn wrap_acc(items: Seq<(i32, i32)>, limit: Option<i32>, k: int) -> LineAcc
    decreases k,
{
    if k <= 0 {
        (Seq::empty(), 0, 0, 0)
    } else {
        wrap_step(wrap_acc(items, limit, k - 1), items[k - 1], limit)
    }
}

/// The lines into which children of extents `items` wrap under `limit`.
pub open spec fn wrap_lines(items: Seq<(i32, i32)>, limit: Option<i32>) -> Seq<Line> {
    let acc = wrap_acc(items, limit, items.len() as int);
    if acc.3 > 0 {
        acc.0.push(close_line(acc.1, acc.2, acc.3))
    } else {
        acc.0
    }
}

/// Both extents of every item are non-negative.
pub open spec fn items_ok(items: Seq<(i32, i32)>) -> bool {
    forall|i: int| 0 <= i < items.len() ==> (#[trigger] items[i]).0 >= 0 && items[i].1 >= 0
}

/// The sum of the counts of the first `n` lines.
pub open spec fn count_sum(lines: Seq<Line>, n: int) -> int
    decreases n,
{
    if n <= 0 {
        0
    } else {
        count_sum(lines, n - 1) + lines[n - 1].count
    }
}

/// The largest main extent among the first `n` lines (zero for none).
pub open spec fn max_main(lines: Seq<Line>, n: int) -> int
    decreases n,
{
    if n <= 0 {
        0
    } else {
        let m = max_main(lines, n - 1);
        if lines[n - 1].main > m { lines[n - 1].main as int } else { m }
    }
}

/// The sum of the cross extents of the first `n` lines.
pub open spec fn cross_sum(lines: Seq<Line>, n: int) -> int
    decreases n,
{
    if n <= 0 {
        0
    } else {
        cross_sum(lines, n - 1) + lines[n - 1].cross
    }
}

/// The extent of a set of lines along the flow: that of the longest line.
pub open spec fn lines_main(lines: Seq<Line>) -> int {
    max_main(lines, lines.len() as int)
}

/// The extent of a set of lines across the flow: their cross extents and a
/// gap of `sep` between each two of them, clamped to the range of `i32`.
pub open spec fn lines_cross(lines: Seq<Line>, sep: i32) -> int {
    if lines.len() == 0 {
        0
    } else {
        clamp32(cross_sum(lines, lines.len() as int) + (lines.len() - 1) * sep)
    }
}

proof fn lemma_wrap_acc_counts(items: Seq<(i32, i32)>, limit: Option<i32>, k: int)
    requires
        0 <= k <= items.len(),
        items.len() <= usize::MAX,
    ensures
        count_sum(wrap_acc(items, limit, k).0, wrap_acc(items, limit, k).0.len() as int)
            + wrap_acc(items, limit, k).3 == k,
        forall|j: int| 0 <= j < wrap_acc(items, limit, k).0.len()
            ==> #[trigger] wrap_acc(items, limit, k).0[j].count >= 1,
        k > 0 ==> wrap_acc(items, limit, k).3 >= 1,
        0 <= wrap_acc(items, limit, k).3 <= k,
    decreases k,
{
    if k > 0 {
        lemma_wrap_acc_counts(items, limit, k - 1);
        let prev = wrap_acc(items, limit, k - 1);
        lemma_count_sum_push(prev.0, close_line(prev.1, prev.2, prev.3));
    }
}

proof fn lemma_count_sum_push(lines: Seq<Line>, l: Line)
    ensures
        count_sum(lines.push(l), lines.len() + 1int) == count_sum(lines, lines.len() as int) + l.count,
{
    assert(lines.push(l)[lines.len() as int] == l);
    lemma_count_sum_prefix(lines, l, lines.len() as int);
}

proof fn lemma_count_sum_prefix(lines: Seq<Line>, l: Line, n: int)
    requires
        0 <= n <= lines.len(),
    ensures
        count_sum(lines.push(l), n) == count_sum(lines, n),
    decreases n,
{
    if n > 0 {
        lemma_count_sum_prefix(lines, l, n - 1);
        assert(lines.push(l)[n - 1] == lines[n - 1]);
    }
}

/// The main extents of `items`.
pub open spec fn item_mains(items: Seq<(i32, i32)>) -> Seq<i32> {
    Seq::new(items.len(), |i: int| items[i].0)
}

/// The cross extents of `items`.
pub open spec fn item_crosses(items: Seq<(i32, i32)>) -> Seq<i32> {
    Seq::new(items.len(), |i: int| items[i].1)
}

/// The largest of `xs[a..b]` (zero for none).
pub open spec fn run_max(xs: Seq<i32>, a: int, b: int) -> int
    decreases b - a,
{
    if b <= a {
        0
    } else {
        let m = run_max(xs, a, b - 1);
        if xs[b - 1] > m { xs[b - 1] as int } else { m }
    }
}

/// Line `j` of `lines` has the extents of the run of `items` it holds:
/// the sum of their main extents (clamped to the range of `i32`) and the
/// largest of their cross extents.
pub open spec fn line_fits_run(lines: Seq<Line>, items: Seq<(i32, i32)>, j: int) -> bool {
    let a = line_start(lines, j);
    let b = a + lines[j].count;
    &&& lines[j].main == clamp32(run_sum(item_mains(items), a, b))
    &&& lines[j].cross == run_max(item_crosses(items), a, b)
}

proof fn lemma_run_max_bounds(xs: Seq<i32>, a: int, b: int)
    requires
        0 <= a,
        b <= xs.len(),
        forall|i: int| a <= i < b ==> #[trigger] xs[i] >= 0,
    ensures
        0 <= run_max(xs, a, b) <= i32::MAX,
    decreases b - a,
{
    if a < b {
        lemma_run_max_bounds(xs, a, b - 1);
    }
}

proof fn lemma_line_start_push(lines: Seq<Line>, l: Line, j: int)
    requires
        0 <= j <= lines.len(),
    ensures
        line_start(lines.push(l), j) == line_start(lines, j),
{
    lemma_count_sum_prefix(lines, l, j);
}

proof fn lemma_wrap_acc_extents(items: Seq<(i32, i32)>, limit: Option<i32>, k: int)
    requires
        0 <= k <= items.len(),
        items.len() <= usize::MAX,
        items_ok(items),
    ensures
        ({
            let acc = wrap_acc(items, limit, k);
            let start = count_sum(acc.0, acc.0.len() as int);
            &&& forall|j: int| 0 <= j < acc.0.len() ==> #[trigger] line_fits_run(acc.0, items, j)
            &&& acc.1 == run_sum(item_mains(items), start, k)
            &&& acc.2 == run_max(item_crosses(items), start, k)
        }),
    decreases k,
{
    lemma_wrap_acc_counts(items, limit, k);
    if k > 0 {
        lemma_wrap_acc_extents(items, limit, k - 1);
        lemma_wrap_acc_counts(items, limit, k - 1);
        let prev = wrap_acc(items, limit, k - 1);
        let acc = wrap_acc(items, limit, k);
        let start0 = count_sum(prev.0, prev.0.len() as int);
        let mains = item_mains(items);
        let crosses = item_crosses(items);
        assert(items[k - 1].0 >= 0 && items[k - 1].1 >= 0);
        assert(mains[k - 1] == items[k - 1].0);
        assert(crosses[k - 1] == items[k - 1].1);
        assert(start0 >= 0);
        assert forall|i: int| start0 <= i < k - 1 implies #[trigger] crosses[i] >= 0 by {
            assert(items[i].1 >= 0);
        }
        lemma_run_max_bounds(crosses, start0, k - 1);
        if limit is Some && prev.3 > 0 && prev.1 + items[k - 1].0 > limit->0 {
            let l = close_line(prev.1, prev.2, prev.3);
            lemma_count_sum_push(prev.0, l);
            assert forall|j: int| 0 <= j < acc.0.len() implies #[trigger] line_fits_run(acc.0, items, j) by {
                lemma_line_start_push(prev.0, l, j);
                if j < prev.0.len() {
                    assert(acc.0[j] == prev.0[j]);
                    assert(line_fits_run(prev.0, items, j));
                } else {
                    assert(acc.0[j] == l);
                }
            }
            assert(run_sum(mains, k - 1, k - 1) == 0);
            assert(run_max(crosses, k - 1, k - 1) == 0);
            assert(run_sum(mains, k - 1, k) == mains[k - 1]);
            assert(run_max(crosses, k - 1, k) == crosses[k - 1]);
        }
    }
}

/// The lines of a `WrapBox` partition its children in order: each line
/// holds at least one child, the counts of the lines add up to the number
/// of children, and each line has the extents of the run of consecutive
/// children that it holds.
pub proof fn lemma_lines_partition_children(items: Seq<(i32, i32)>, limit: Option<i32>)
    requires
        items.len() <= usize::MAX,
        items_ok(items),
    ensures
        count_sum(wrap_lines(items, limit), wrap_lines(items, limit).len() as int) == items.len(),
        forall|j: int| 0 <= j < wrap_lines(items, limit).len()
            ==> #[trigger] wrap_lines(items, limit)[j].count >= 1,
        forall|j: int| 0 <= j < wrap_lines(items, limit).len()
            ==> #[trigger] line_fits_run(wrap_lines(items, limit), items, j),
        items.len() == 0 <==> wrap_lines(items, limit).len() == 0,
{
    let n = items.len() as int;
    lemma_wrap_acc_counts(items, limit, n);
    lemma_wrap_acc_extents(items, limit, n);
    let acc = wrap_acc(items, limit, n);
    let lines = wrap_lines(items, limit);
    if acc.3 > 0 {
        let l = close_line(acc.1, acc.2, acc.3);
        lemma_count_sum_push(acc.0, l);
        assert(lines[acc.0.len() as int].count >= 1);
        let start = count_sum(acc.0, acc.0.len() as int);
        assert(start >= 0);
        assert forall|i: int| start <= i < n implies #[trigger] item_crosses(items)[i] >= 0 by {
            assert(items[i].1 >= 0);
        }
        lemma_run_max_bounds(item_crosses(items), start, n);
        assert forall|j: int| 0 <= j < lines.len() implies #[trigger] line_fits_run(lines, items, j) by {
            lemma_line_start_push(acc.0, l, j);
            if j < acc.0.len() {
                assert(lines[j] == acc.0[j]);
                assert(line_fits_run(acc.0, items, j));
            } else {
                assert(lines[j] == l);
            }
        }
    }
}

/// Splits children of extents `items = (main, cross)` into lines: a child
/// opens a new line when the open line holds a child and the child's main
/// extent would take the line past `limit`.
pub fn compute_lines(items: &Vec<(i32, i32)>, limit: Option<i32>) -> (r: Vec<Line>)
    requires
        items_ok(items@),
    ensures
        r@ == wrap_lines(items@, limit),
{
    let n = items.len();
    let mut lines: Vec<Line> = Vec::new();
    let mut main: i128 = 0;
    let mut cross: i32 = 0;
    let mut count: usize = 0;
    let mut k: usize = 0;
    while k < n
        invariant
            n == items@.len(),
            0 <= k <= n,
            items_ok(items@),
            (lines@, main as int, cross as int, count as int) == wrap_acc(items@, limit, k as int),
            0 <= main <= k * 0x7fff_ffff,
            cross >= 0,
            count <= k,
        decreases n - k,
    {
        let (m, c) = items[k];
        assert(items@[k as int].0 >= 0 && items@[k as int].1 >= 0);
        let wraps = match limit {
            Some(w) => count > 0 && main + m as i128 > w as i128,
            None => false,
        };
        if wraps {
            lines.push(Line { main: clamp_i128(main), cross, count });
            main = m as i128;
            cross = c;
            count = 1;
        } else {
            main = main + m as i128;
            if c > cross {
                cross = c;
            }
            count = count + 1;
        }
        k = k + 1;
    }
    if count > 0 {
        lines.push(Line { main: clamp_i128(main), cross, count });
    }
    lines
}

/// The extents of a set of lines: `(lines_main, lines_cross)`.
pub fn lines_extent(lines: &Vec<Line>, sep: i32) -> (r: (i32, i32))
    ensures
        r.0 == lines_main(lines@),
        r.1 == lines_cross(lines@, sep),
{
    let n = lines.len();
    let mut main: i32 = 0;
    let mut cross: i128 = 0;
    let mut k: usize = 0;
    while k < n
        invariant
            n == lines@.len(),
            0 <= k <= n,
            main == max_main(lines@, k as int),
            cross == cross_sum(lines@, k as int) + k * sep,
            -(k * 0x1_0000_0000) <= cross <= k * 0x1_0000_0000,
        decreases n - k,
    {
        let l = lines[k];
        if l.main > main {
            main = l.main;
        }
        assert((k + 1) * sep == k * sep + sep) by (nonlinear_arith);
        cross = cross + l.cross as i128 + sep as i128;
        k = k + 1;
    }
    if n == 0 {
        (main, 0)
    } else {
        assert((n - 1) * sep == n * sep - sep) by (nonlinear_arith);
        (main, clamp_i128(cross - sep as i128))
    }
}

/// The index of the first child of line `j`.
pub open spec fn line_start(lines: Seq<Line>, j: int) -> int {
    count_sum(lines, j)
}

/// The offset of line `j` across the flow: the cross extents of the lines
/// before it, each followed by a gap of `sep`.
pub open spec fn line_offset(lines: Seq<Line>, sep: i32, j: int) -> int
    decreases j,
{
    if j <= 0 {
        0
    } else {
        line_offset(lines, sep, j - 1) + lines[j - 1].cross + sep
    }
}

/// The sum of `mains[a..b]`.
pub open spec fn run_sum(mains: Seq<i32>, a: int, b: int) -> int
    decreases b - a,
{
    if b <= a {
        0
    } else {
        run_sum(mains, a, b - 1) + mains[b - 1]
    }
}

/// The rectangle of a child at offsets `(main_off, cross_off)` from `origin`,
/// with extents `(main, cross)`, for the flow direction `mode`.
pub open spec fn placed_rect(
    mode: WrapMode,
    origin: Point,
    main_off: int,
    cross_off: int,
    main: i32,
    cross: i32,
) -> Rect {
    match mode {
        WrapMode::Rows => Rect {
            pos: Point {
                x: clamp32(origin.x + main_off) as i32,
                y: clamp32(origin.y + cross_off) as i32,
            },
            size: Size { w: main, h: cross },
        },
        WrapMode::Cols => Rect {
            pos: Point {
                x: clamp32(origin.x + cross_off) as i32,
                y: clamp32(origin.y + main_off) as i32,
            },
            size: Size { w: cross, h: main },
        },
    }
}

/// The rectangle of child `q`, which stands in line `j`: after the children
/// before it in its line along the flow, at the offset of its line across
/// it, as long as its own main extent and as wide as its line.
pub open spec fn child_rect(
    lines: Seq<Line>,
    mains: Seq<i32>,
    sep: i32,
    mode: WrapMode,
    origin: Point,
    j: int,
    q: int,
) -> Rect {
    placed_rect(
        mode,
        origin,
        run_sum(mains, line_start(lines, j), q),
        line_offset(lines, sep, j),
        mains[q],
        lines[j].cross,
    )
}

/// The rectangles of the first `p` children of line `j`.
pub open spec fn line_rects(
    lines: Seq<Line>,
    mains: Seq<i32>,
    sep: i32,
    mode: WrapMode,
    origin: Point,
    j: int,
    p: int,
) -> Seq<Rect>
    decreases p,
{
    if p <= 0 {
        Seq::empty()
    } else {
        line_rects(lines, mains, sep, mode, origin, j, p - 1).push(
            child_rect(lines, mains, sep, mode, origin, j, line_start(lines, j) + p - 1),
        )
    }
}

/// How many children of line `j` there are among `m` children.
pub open spec fn line_avail(lines: Seq<Line>, m: int, j: int) -> int {
    let start = line_start(lines, j);
    if start >= m {
        0
    } else if lines[j].count < m - start {
        lines[j].count as int
    } else {
        m - start
    }
}

/// The rectangles of the children of the first `j` lines, as far as there
/// are children for them.
pub open spec fn placements(
    lines: Seq<Line>,
    mains: Seq<i32>,
    sep: i32,
    mode: WrapMode,
    origin: Point,
    j: int,
) -> Seq<Rect>
    decreases j,
{
    if j <= 0 {
        Seq::empty()
    } else {
        placements(lines, mains, sep, mode, origin, j - 1) + line_rects(
            lines,
            mains,
            sep,
            mode,
            origin,
            j - 1,
            line_avail(lines, mains.len() as int, j - 1),
        )
    }
}

fn make_rect(mode: WrapMode, origin: Point, main_off: i128, cross_off: i128, main: i32, cross: i32) -> (r: Rect)
    requires
        -0x1_0000_0000_0000_0000_0000_0000 <= main_off <= 0x1_0000_0000_0000_0000_0000_0000,
        -0x1_0000_0000_0000_0000_0000_0000 <= cross_off <= 0x1_0000_0000_0000_0000_0000_0000,
    ensures
        r == placed_rect(mode, origin, main_off as int, cross_off as int, main, cross),
{
    match mode {
        WrapMode::Rows => Rect {
            pos: Point {
                x: clamp_i128(origin.x as i128 + main_off),
                y: clamp_i128(origin.y as i128 + cross_off),
            },
            size: Size { w: main, h: cross },
        },
        WrapMode::Cols => Rect {
            pos: Point {
                x: clamp_i128(origin.x as i128 + cross_off),
                y: clamp_i128(origin.y as i128 + main_off),
            },
            size: Size { w: cross, h: main },
        },
    }
}

/// Places children of main extents `mains` into `lines`, from `origin`
/// (see `child_rect`). Children beyond those that the lines hold are not
/// placed.
pub fn place_children(lines: &Vec<Line>, mains: &Vec<i32>, sep: i32, mode: WrapMode, origin: Point) -> (r: Vec<Rect>)
    ensures
        r@.len() == if count_sum(lines@, lines@.len() as int) < mains@.len() {
            count_sum(lines@, lines@.len() as int)
        } else {
            mains@.len() as int
        },
        forall|j: int, q: int|
            0 <= j < lines@.len() && line_start(lines@, j) <= q < line_start(lines@, j) + lines@[j].count
                && q < r@.len() ==> r@[q] == #[trigger] child_rect(lines@, mains@, sep, mode, origin, j, q),
        r@ == placements(lines@, mains@, sep, mode, origin, lines@.len() as int),
{
    let n = lines.len();
    let m = mains.len();
    let mut r: Vec<Rect> = Vec::new();
    let mut cross_off: i128 = 0;
    let mut j: usize = 0;
    while j < n
        invariant
            n == lines@.len(),
            m == mains@.len(),
            0 <= j <= n,
            cross_off == line_offset(lines@, sep, j as int),
            -(j * 0x1_0000_0000) <= cross_off <= j * 0x1_0000_0000,
            r@.len() == if line_start(lines@, j as int) < m { line_start(lines@, j as int) } else { m as int },
            line_start(lines@, j as int) >= 0,
            r@ == placements(lines@, mains@, sep, mode, origin, j as int),
            forall|jj: int, q: int|
                0 <= jj < j && line_start(lines@, jj) <= q < line_start(lines@, jj) + lines@[jj].count
                    && q < r@.len() ==> r@[q] == #[trigger] child_rect(lines@, mains@, sep, mode, origin, jj, q),
        decreases n - j,
    {
        let line = lines[j];
        let ghost start = line_start(lines@, j as int);
        let ghost r0 = r@;
        let mut main_off: i128 = 0;
        let mut p: usize = 0;
        while p < line.count && r.len() < m
            invariant
                n == lines@.len(),
                m == mains@.len(),
                0 <= j < n,
                line == lines@[j as int],
                start == line_start(lines@, j as int),
                start >= 0,
                cross_off == line_offset(lines@, sep, j as int),
                -(j * 0x1_0000_0000) <= cross_off <= j * 0x1_0000_0000,
                0 <= p <= line.count,
                r@.len() <= m,
                r0.len() == if start < m { start } else { m as int },
                (p > 0 ==> r@.len() == start + p),
                (p == 0 ==> r@ == r0),
                r@.len() >= r0.len(),
                forall|i: int| 0 <= i < r0.len() ==> #[trigger] r@[i] == r0[i],
                r0 == placements(lines@, mains@, sep, mode, origin, j as int),
                r@ == r0 + line_rects(lines@, mains@, sep, mode, origin, j as int, p as int),
                main_off == run_sum(mains@, start, start + p),
                -(p * 0x8000_0000) <= main_off <= p * 0x8000_0000,
                forall|q: int| start <= q < r@.len() ==> #[trigger] r@[q]
                    == child_rect(lines@, mains@, sep, mode, origin, j as int, q),
            decreases line.count - p,
        {
            let q = r.len();
            assert(q == start + p);
            let rect = make_rect(mode, origin, main_off, cross_off, mains[q], line.cross);
            r.push(rect);
            assert(r@ =~= r0 + line_rects(lines@, mains@, sep, mode, origin, j as int, p + 1));
            main_off = main_off + mains[q] as i128;
            p = p + 1;
        }
        let ghost r1 = r@;
        assert(p == line_avail(lines@, m as int, j as int));
        assert(r@ == placements(lines@, mains@, sep, mode, origin, j + 1));
        assert forall|jj: int, q: int|
            0 <= jj < j + 1 && line_start(lines@, jj) <= q < line_start(lines@, jj) + lines@[jj].count
                && q < r@.len() implies r@[q] == #[trigger] child_rect(lines@, mains@, sep, mode, origin, jj, q) by {
            if jj < j {
                lemma_line_start_mono(lines@, jj + 1, j as int);
                assert(line_start(lines@, jj + 1) == line_start(lines@, jj) + lines@[jj].count);
                assert(q < r0.len());
                lemma_line_start_mono(lines@, 0, jj);
                assert(r1[q] == r0[q]);
            }
        }
        cross_off = cross_off + line.cross as i128 + sep as i128;
        j = j + 1;
    }
    r
}

proof fn lemma_line_start_mono(lines: Seq<Line>, a: int, b: int)
    requires
        0 <= a <= b <= lines.len(),
    ensures
        line_start(lines, a) <= line_start(lines, b),
    decreases b - a,
{
    if a < b {
        lemma_line_start_mono(lines, a, b - 1);
    }
}

} // verus!
