//! Planar vectors and the absolute hit test.
//!
//! Lengths are integers in tenths of a pixel. A node's bounding box is
//! centered on its world translation, so containment compares doubled
//! coordinates against the size and never divides.

use vstd::prelude::*;

verus! {

/// A planar vector in tenths of a pixel.
#[derive(Clone, Copy, PartialEq, Eq, Structural, Debug)]
pub struct Vec2i {
    pub x: i64,
    pub y: i64,
}

/// The pointer at `p` is inside the box centered at `t` with size `s`:
/// within `[t - s/2, t + s/2]` on both axes, stated without division.
pub open spec fn contains_point(p: Vec2i, t: Vec2i, s: Vec2i) -> bool {
    &&& 2 * p.x >= 2 * t.x - s.x
    &&& 2 * p.x <= 2 * t.x + s.x
    &&& 2 * p.y >= 2 * t.y - s.y
    &&& 2 * p.y <= 2 * t.y + s.y
}

/// Absolute hit test: is `point` inside the box centered at `translation`
/// with size `scale`, ignoring occlusion.
pub fn ab_point_intersect(point: Vec2i, translation: Vec2i, scale: Vec2i) -> (r: bool)
    ensures
        r == contains_point(point, translation, scale),
{
    let px: i128 = 2 * (point.x as i128);
    let py: i128 = 2 * (point.y as i128);
    let tx: i128 = 2 * (translation.x as i128);
    let ty: i128 = 2 * (translation.y as i128);
    let sx: i128 = scale.x as i128;
    let sy: i128 = scale.y as i128;
    px >= tx - sx && px <= tx + sx && py >= ty - sy && py <= ty + sy
}

/// Containment law: the center of a box is always contained, and any point
/// strictly beyond half the size from the center on either axis never is.
pub proof fn lemma_containment(p: Vec2i, t: Vec2i, s: Vec2i)
    requires
        s.x >= 0,
        s.y >= 0,
    ensures
        contains_point(t, t, s),
        p.x > t.x + s.x / 2 ==> !contains_point(p, t, s),
        p.x < t.x - (s.x + 1) / 2 ==> !contains_point(p, t, s),
        p.y > t.y + s.y / 2 ==> !contains_point(p, t, s),
        p.y < t.y - (s.y + 1) / 2 ==> !contains_point(p, t, s),
{
    assert(s.x == 2 * (s.x / 2) + s.x % 2) by (nonlinear_arith);
    assert(s.y == 2 * (s.y / 2) + s.y % 2) by (nonlinear_arith);
    assert((s.x + 1) == 2 * ((s.x + 1) / 2) + (s.x + 1) % 2) by (nonlinear_arith);
    assert((s.y + 1) == 2 * ((s.y + 1) / 2) + (s.y + 1) % 2) by (nonlinear_arith);
}

/// Saturating addition on the mathematical integers, clamped to `i64`.
pub open spec fn sat_add(a: int, b: int) -> int {
    if a + b > i64::MAX {
        i64::MAX as int
    } else if a + b < i64::MIN {
        i64::MIN as int
    } else {
        a + b
    }
}

/// Saturating addition staying in `i64`.
pub open spec fn sat_add64(a: i64, b: i64) -> i64 {
    sat_add(a as int, b as int) as i64
}

/// Saturating `i64` addition; positions pushed past the representable
/// range stop at the edge instead of wrapping.
pub fn saturating_add_i64(a: i64, b: i64) -> (r: i64)
    ensures
        r as int == sat_add(a as int, b as int),
        r == sat_add64(a, b),
{
    match a.checked_add(b) {
        Some(c) => c,
        None => {
            if a > 0 {
                i64::MAX
            } else {
                i64::MIN
            }
        },
    }
}

} // verus!
