//! The grid container: tracks that are fixed, weighted or sized to content.

use vstd::prelude::*;
use vstd::arithmetic::div_mod::{lemma_div_is_ordered, lemma_fundamental_div_mod_converse};
use crate::element::ElemRef;

verus! {

/// The sizing policy of one row or column.
#[derive(Clone, Copy, Debug, PartialEq, Eq, Structural)]
pub enum GridLength {
    /// Exactly this many cells.
    Static(i32),
    /// A share of the space left over, in proportion to this weight.
    Dynamic(u32),
    /// The largest extent that a child placed in the track asks for.
    Content,
}

/// Every static extent among `tracks` is non-negative.
pub open spec fn tracks_ok(tracks: Seq<GridLength>) -> bool {
    forall|i: int| 0 <= i < tracks.len() ==> match #[trigger] tracks[i] {
        GridLength::Static(n) => n >= 0,
        _ => true,
    }
}

/// Every value of `s` is non-negative.
pub open spec fn all_nonneg(s: Seq<i32>) -> bool {
    forall|i: int| 0 <= i < s.len() ==> #[trigger] s[i] >= 0
}

/// The extent that a track has before the leftover space is shared out:
/// its declared extent, its content extent, or nothing for a weighted track.
pub open spec fn fixed_extent(t: GridLength, content: i32) -> int {
    match t {
        GridLength::Static(n) => n as int,
        GridLength::Dynamic(_) => 0,
        GridLength::Content => content as int,
    }
}

/// The sum of the fixed extents of the first `n` tracks.
pub open spec fn fixed_sum(tracks: Seq<GridLength>, content: Seq<i32>, n: int) -> int
    decreases n,
{
    if n <= 0 {
        0
    } else {
        fixed_sum(tracks, content, n - 1) + fixed_extent(tracks[n - 1], content[n - 1])
    }
}

/// The weight of a track: zero unless it is weighted.
pub open spec fn weight_of(t: GridLength) -> int {
    match t {
        GridLength::Dynamic(w) => w as int,
        _ => 0,
    }
}

/// The sum of the weights of the first `n` tracks.
pub open spec fn weight_sum(tracks: Seq<GridLength>, n: int) -> int
    decreases n,
{
    if n <= 0 {
        0
    } else {
        weight_sum(tracks, n - 1) + weight_of(tracks[n - 1])
    }
}

/// The space left for weighted tracks: what the constraint leaves after
/// `used`, never negative, and nothing on an unconstrained axis.
pub open spec fn free_space(space: Option<i32>, used: int) -> int {
    match space {
        Some(c) => if c - used > 0 { c - used } else { 0 },
        None => 0,
    }
}

/// `free * part / total`, rounded to the nearest cell (halves round up).
pub open spec fn share(free: int, part: int, total: int) -> int {
    if total <= 0 {
        0
    } else {
        (2 * free * part + total) / (2 * total)
    }
}

/// The resolved extent of track `i`.
///
/// Weighted tracks split the free space by rounding the boundaries between
/// them: track `i` gets the rounded share of all weights up to and including
/// it, less the rounded share of the weights before it. Each track is then
/// within one cell of its exact share, and the shares add up to the free space.
pub open spec fn track_extent(
    tracks: Seq<GridLength>,
    content: Seq<i32>,
    space: Option<i32>,
    i: int,
) -> int {
    match tracks[i] {
        GridLength::Static(n) => n as int,
        GridLength::Content => content[i] as int,
        GridLength::Dynamic(_) => {
            let f = free_space(space, fixed_sum(tracks, content, tracks.len() as int));
            let t = weight_sum(tracks, tracks.len() as int);
            share(f, weight_sum(tracks, i + 1), t) - share(f, weight_sum(tracks, i), t)
        },
    }
}

/// The resolved extents of all tracks.
pub open spec fn resolved_tracks(
    tracks: Seq<GridLength>,
    content: Seq<i32>,
    space: Option<i32>,
) -> Seq<i32> {
    Seq::new(tracks.len(), |i: int| track_extent(tracks, content, space, i) as i32)
}

/// The sum of the first `n` values of `s`.
pub open spec fn sum_prefix(s: Seq<i32>, n: int) -> int
    decreases n,
{
    if n <= 0 {
        0
    } else {
        sum_prefix(s, n - 1) + s[n - 1]
    }
}

/// The sum of all values of `s`.
pub open spec fn sum_of(s: Seq<i32>) -> int {
    sum_prefix(s, s.len() as int)
}

proof fn lemma_weight_sum_mono(tracks: Seq<GridLength>, i: int, j: int)
    requires
        0 <= i <= j <= tracks.len(),
    ensures
        0 <= weight_sum(tracks, i) <= weight_sum(tracks, j),
    decreases j - i,
{
    if i < j {
        lemma_weight_sum_mono(tracks, i, j - 1);
    } else {
        lemma_weight_sum_nonneg(tracks, i);
    }
}

proof fn lemma_weight_sum_nonneg(tracks: Seq<GridLength>, n: int)
    requires
        0 <= n <= tracks.len(),
    ensures
        weight_sum(tracks, n) >= 0,
    decreases n,
{
    if n > 0 {
        lemma_weight_sum_nonneg(tracks, n - 1);
    }
}

proof fn lemma_share_bounds(free: int, p: int, q: int, total: int)
    requires
        free >= 0,
        0 <= p <= q <= total,
    ensures
        0 <= share(free, p, total) <= share(free, q, total) <= free,
        share(free, 0, total) == 0,
{
    if total > 0 {
        lemma_fundamental_div_mod_converse(total, 2 * total, 0, total);
        assert(2 * free * 0 == 0);
        assert(2 * free * p <= 2 * free * q) by (nonlinear_arith)
            requires
                free >= 0,
                p <= q,
        ;
        assert(2 * free * q <= 2 * free * total) by (nonlinear_arith)
            requires
                free >= 0,
                q <= total,
        ;
        assert(0 <= 2 * free * p) by (nonlinear_arith)
            requires
                free >= 0,
                p >= 0,
        ;
        lemma_div_is_ordered(0, 2 * free * p + total, 2 * total);
        lemma_div_is_ordered(2 * free * p + total, 2 * free * q + total, 2 * total);
        lemma_div_is_ordered(2 * free * q + total, 2 * free * total + total, 2 * total);
        assert(2 * free * total + total == free * (2 * total) + total) by (nonlinear_arith);
        lemma_fundamental_div_mod_converse(2 * free * total + total, 2 * total, free, total);
        assert(0int / (2 * total) == 0);
    }
}

/// `share` as computed on machine integers.
fn share_exec(free: u128, part: u128, total: u128) -> (r: u128)
    requires
        free <= i32::MAX,
        part <= total,
        total <= 0xffff_ffff_ffff_ffff * 0xffff_ffffu128,
    ensures
        r == share(free as int, part as int, total as int),
{
    if total == 0 {
        0
    } else {
        assert(2 * free * part + total <= u128::MAX) by (nonlinear_arith)
            requires
                free <= i32::MAX,
                part <= total,
                total <= 0xffff_ffff_ffff_ffff * 0xffff_ffffu128,
        ;
        (2 * free * part + total) / (2 * total)
    }
}

/// Resolves the extents of a sequence of tracks along one axis.
///
/// Static tracks keep their declared extent and content tracks take
/// `content[i]`. What the constraint `space` leaves after those (nothing on
/// an unconstrained axis) is shared out among the weighted tracks in
/// proportion to their weights (see `track_extent`).
pub fn resolve_tracks(tracks: &Vec<GridLength>, content: &Vec<i32>, space: Option<i32>) -> (r: Vec<i32>)
    requires
        tracks@.len() == content@.len(),
        tracks_ok(tracks@),
        all_nonneg(content@),
        space is Some ==> space->0 >= 0,
    ensures
        r@ == resolved_tracks(tracks@, content@, space),
        all_nonneg(r@),
{
    let n = tracks.len();
    let mut used: i128 = 0;
    let mut total: u128 = 0;
    let mut k: usize = 0;
    while k < n
        invariant
            n == tracks@.len(),
            n == content@.len(),
            0 <= k <= n,
            tracks_ok(tracks@),
            all_nonneg(content@),
            used == fixed_sum(tracks@, content@, k as int),
            0 <= used <= k * 0x7fff_ffff,
            total == weight_sum(tracks@, k as int),
            0 <= total <= k * 0xffff_ffff,
        decreases n - k,
    {
        match tracks[k] {
            GridLength::Static(s) => {
                assert(tracks@[k as int] is Static);
                used = used + s as i128;
            },
            GridLength::Dynamic(w) => {
                total = total + w as u128;
            },
            GridLength::Content => {
                assert(content@[k as int] >= 0);
                used = used + content[k] as i128;
            },
        }
        k = k + 1;
    }
    let free: i128 = match space {
        Some(c) => if c as i128 - used > 0 { c as i128 - used } else { 0 },
        None => 0,
    };
    assert(free == free_space(space, fixed_sum(tracks@, content@, n as int)));
    let ghost t = total as int;
    proof {
        lemma_weight_sum_nonneg(tracks@, n as int);
        lemma_share_bounds(free as int, 0, 0, t);
    }
    let mut r: Vec<i32> = Vec::new();
    let mut part: u128 = 0;
    let mut prev: u128 = 0;
    let mut j: usize = 0;
    while j < n
        invariant
            n == tracks@.len(),
            n == content@.len(),
            0 <= j <= n,
            tracks_ok(tracks@),
            all_nonneg(content@),
            total == weight_sum(tracks@, n as int),
            total <= 0xffff_ffff_ffff_ffff * 0xffff_ffffu128,
            0 <= free <= i32::MAX,
            free == free_space(space, fixed_sum(tracks@, content@, n as int)),
            part == weight_sum(tracks@, j as int),
            prev == share(free as int, part as int, total as int),
            r@.len() == j,
            forall|i: int| 0 <= i < j ==> #[trigger] r@[i] == track_extent(tracks@, content@, space, i) as i32,
            all_nonneg(r@),
        decreases n - j,
    {
        proof {
            lemma_weight_sum_mono(tracks@, j as int, j + 1);
            lemma_weight_sum_mono(tracks@, j + 1, n as int);
        }
        let e: i32 = match tracks[j] {
            GridLength::Static(s) => {
                assert(tracks@[j as int] is Static);
                s
            },
            GridLength::Content => {
                assert(content@[j as int] >= 0);
                content[j]
            },
            GridLength::Dynamic(w) => {
                let next = part + w as u128;
                let cur = share_exec(free as u128, next, total);
                proof {
                    lemma_share_bounds(free as int, part as int, next as int, total as int);
                }
                let e = (cur - prev) as i32;
                part = next;
                prev = cur;
                e
            },
        };
        r.push(e);
        j = j + 1;
    }
    assert(r@ =~= resolved_tracks(tracks@, content@, space));
    r
}

/// Every track is static.
pub open spec fn all_static(tracks: Seq<GridLength>) -> bool {
    forall|i: int| 0 <= i < tracks.len() ==> #[trigger] tracks[i] is Static
}

/// The declared extent of a track: its cells if it is static, else none.
pub open spec fn declared_extent(t: GridLength) -> int {
    match t {
        GridLength::Static(n) => n as int,
        _ => 0,
    }
}

/// The sum of the declared extents of the first `n` tracks.
pub open spec fn declared_sum(tracks: Seq<GridLength>, n: int) -> int
    decreases n,
{
    if n <= 0 {
        0
    } else {
        declared_sum(tracks, n - 1) + declared_extent(tracks[n - 1])
    }
}

proof fn lemma_static_prefix(tracks: Seq<GridLength>, content: Seq<i32>, space: Option<i32>, n: int)
    requires
        all_static(tracks),
        0 <= n <= tracks.len(),
    ensures
        sum_prefix(resolved_tracks(tracks, content, space), n) == declared_sum(tracks, n),
    decreases n,
{
    if n > 0 {
        lemma_static_prefix(tracks, content, space, n - 1);
        assert(tracks[n - 1] is Static);
    }
}

/// When every track is static, the resolved extents add up to the sum of
/// the declared extents, whatever the content and the constraint.
pub proof fn lemma_static_tracks_sum(tracks: Seq<GridLength>, content: Seq<i32>, space: Option<i32>)
    requires
        all_static(tracks),
    ensures
        sum_of(resolved_tracks(tracks, content, space)) == declared_sum(tracks, tracks.len() as int),
{
    lemma_static_prefix(tracks, content, space, tracks.len() as int);
}

proof fn lemma_single_weight(tracks: Seq<GridLength>, i: int, n: int)
    requires
        0 <= i < tracks.len(),
        0 <= n <= tracks.len(),
        tracks[i] == GridLength::Dynamic(1),
        forall|j: int| 0 <= j < tracks.len() && j != i ==> !(#[trigger] tracks[j] is Dynamic),
    ensures
        weight_sum(tracks, n) == if n > i { 1int } else { 0int },
    decreases n,
{
    if n > 0 {
        lemma_single_weight(tracks, i, n - 1);
        if n - 1 != i {
            assert(!(tracks[n - 1] is Dynamic));
        }
    }
}

/// A weighted track of weight 1 that is the only weighted track of its
/// axis receives all the free space: what the constraint leaves after the
/// static and content tracks, never negative, and nothing on an
/// unconstrained axis.
pub proof fn lemma_single_dynamic_track(tracks: Seq<GridLength>, content: Seq<i32>, space: Option<i32>, i: int)
    requires
        0 <= i < tracks.len(),
        tracks[i] == GridLength::Dynamic(1),
        forall|j: int| 0 <= j < tracks.len() && j != i ==> !(#[trigger] tracks[j] is Dynamic),
    ensures
        track_extent(tracks, content, space, i) == free_space(space, fixed_sum(tracks, content, tracks.len() as int)),
{
    let n = tracks.len() as int;
    lemma_single_weight(tracks, i, n);
    lemma_single_weight(tracks, i, i);
    lemma_single_weight(tracks, i, i + 1);
    let f = free_space(space, fixed_sum(tracks, content, n));
    assert(2 * f * 1 + 1 == f * 2 + 1);
    lemma_fundamental_div_mod_converse(2 * f * 1 + 1, 2, f, 1);
    lemma_fundamental_div_mod_converse(2 * f * 0 + 1, 2, 0, 1);
}

/// A two-dimensional container. Child `k` is placed in the cell
/// `cells[k] = (row, col)`; several children may share a cell, and they are
/// then laid over each other.
pub struct Grid {
    pub children: Vec<ElemRef>,
    pub cells: Vec<(usize, usize)>,
    pub rows: Vec<GridLength>,
    pub cols: Vec<GridLength>,
}

impl Grid {
    /// A grid with the given children, each with its cell, and the given
    /// row and column policies.
    pub fn new(children: Vec<(ElemRef, (usize, usize))>, rows: Vec<GridLength>, cols: Vec<GridLength>) -> (r: Grid)
        ensures
            r.children@.len() == children@.len(),
            r.cells@.len() == children@.len(),
            forall|k: int| 0 <= k < children@.len() ==>
                r.children@[k] == (#[trigger] children@[k]).0 && r.cells@[k] == children@[k].1,
            r.rows@ == rows@,
            r.cols@ == cols@,
    {
        let mut kids: Vec<ElemRef> = Vec::new();
        let mut cells: Vec<(usize, usize)> = Vec::new();
        let mut k: usize = 0;
        while k < children.len()
            invariant
                0 <= k <= children@.len(),
                kids@.len() == k,
                cells@.len() == k,
                forall|i: int| 0 <= i < k ==>
                    kids@[i] == (#[trigger] children@[i]).0 && cells@[i] == children@[i].1,
            decreases children@.len() - k,
        {
            let (child, cell) = children[k];
            kids.push(child);
            cells.push(cell);
            k = k + 1;
        }
        Grid { children: kids, cells, rows, cols }
    }
}

/// The sum of all values of `v`.
pub(crate) fn sum_i32(v: &Vec<i32>) -> (r: i128)
    ensures
        r == sum_of(v@),
{
    let mut s: i128 = 0;
    let mut k: usize = 0;
    while k < v.len()
        invariant
            0 <= k <= v@.len(),
            s == sum_prefix(v@, k as int),
            -(k * 0x8000_0000) <= s <= k * 0x8000_0000,
        decreases v@.len() - k,
    {
        s = s + v[k] as i128;
        k = k + 1;
    }
    s
}

} // verus!
