//! Plain integer geometry: points, sizes, rectangles, and the clamped
//! arithmetic every layout computation uses.
//!
//! All coordinates are `i32`, as delivered by the backend.  Additions
//! that could leave the `i32` range are performed in `i64` and clamped
//! back, so no layout operation can overflow.

use vstd::prelude::*;

verus! {

/// An axis-aligned rectangle: position of the top-left corner and size.
#[derive(Clone, Copy, Debug, PartialEq, Eq, Structural)]
pub struct Rect {
    pub x: i32,
    pub y: i32,
    pub w: i32,
    pub h: i32,
}

/// The mathematical value `v` forced into the `i32` range.
pub open spec fn clamp_to_i32(v: int) -> int {
    if v > i32::MAX as int {
        i32::MAX as int
    } else if v < i32::MIN as int {
        i32::MIN as int
    } else {
        v
    }
}

/// `v` forced into `[lo, hi]` (mathematical version).
pub open spec fn clamp_spec(v: int, lo: int, hi: int) -> int {
    if v < lo {
        lo
    } else if v > hi {
        hi
    } else {
        v
    }
}

/// `a - b` with the result clamped into the `i32` range.
pub fn sub_clamped(a: i32, b: i32) -> (r: i32)
    ensures
        r as int == clamp_to_i32(a as int - b as int),
{
    let s: i64 = a as i64 - b as i64;
    if s > i32::MAX as i64 {
        i32::MAX
    } else if s < i32::MIN as i64 {
        i32::MIN
    } else {
        s as i32
    }
}

/// Whether `(px, py)` lies inside the rectangle, bounds included on
/// every edge (axis-aligned bounding-box containment, not pixel-exact).
pub open spec fn rect_contains_spec(r: Rect, px: int, py: int) -> bool {
    &&& px >= r.x
    &&& px <= r.x + r.w
    &&& py >= r.y
    &&& py <= r.y + r.h
}

impl Rect {
    /// Containment test matching `rect_contains_spec`.
    pub fn contains(&self, px: i32, py: i32) -> (b: bool)
        ensures
            b == rect_contains_spec(*self, px as int, py as int),
    {
        px as i64 >= self.x as i64 && px as i64 <= self.x as i64 + self.w as i64
            && py as i64 >= self.y as i64 && py as i64 <= self.y as i64 + self.h as i64
    }
}

} // verus!
