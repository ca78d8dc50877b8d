//! Plain geometry values shared by all elements.

use vstd::prelude::*;

verus! {

/// A cell position on the screen.
#[derive(Clone, Copy, Debug, PartialEq, Eq, Structural)]
pub struct Point {
    pub x: i32,
    pub y: i32,
}

/// A width and height in cells.
#[derive(Clone, Copy, Debug, PartialEq, Eq, Structural)]
pub struct Size {
    pub w: i32,
    pub h: i32,
}

/// A size in which either axis may be left unconstrained (`None`).
#[derive(Clone, Copy, Debug, PartialEq, Eq, Structural)]
pub struct MeasureSize {
    pub w: Option<i32>,
    pub h: Option<i32>,
}

/// A placement: an origin and an extent.
#[derive(Clone, Copy, Debug, PartialEq, Eq, Structural)]
pub struct Rect {
    pub pos: Point,
    pub size: Size,
}

/// `x` clamped into the range of `i32`.
pub open spec fn clamp32(x: int) -> int {
    if x > i32::MAX {
        i32::MAX as int
    } else if x < i32::MIN {
        i32::MIN as int
    } else {
        x
    }
}

/// The extent that an optional measured value stands for: an unconstrained
/// or negative value counts as zero.
pub open spec fn extent_of(o: Option<i32>) -> i32 {
    match o {
        Some(x) => if x > 0 { x } else { 0 },
        None => 0,
    }
}

/// Every constrained axis of `m` is non-negative.
pub open spec fn measure_size_ok(m: MeasureSize) -> bool {
    (m.w is Some ==> m.w->0 >= 0) && (m.h is Some ==> m.h->0 >= 0)
}

/// Both extents of `s` are non-negative.
pub open spec fn size_ok(s: Size) -> bool {
    s.w >= 0 && s.h >= 0
}

impl Default for MeasureSize {
    fn default() -> (r: MeasureSize)
        ensures
            r.w is None,
            r.h is None,
    {
        MeasureSize { w: None, h: None }
    }
}

/// The extent that `o` stands for (see `extent_of`).
pub(crate) fn extent(o: Option<i32>) -> (r: i32)
    ensures
        r == extent_of(o),
        r >= 0,
{
    match o {
        Some(x) => if x > 0 { x } else { 0 },
        None => 0,
    }
}

/// `x` clamped into the range of `i32`.
pub(crate) fn clamp_i128(x: i128) -> (r: i32)
    ensures
        r as int == clamp32(x as int),
{
    if x > i32::MAX as i128 {
        i32::MAX
    } else if x < i32::MIN as i128 {
        i32::MIN
    } else {
        x as i32
    }
}

} // verus!
