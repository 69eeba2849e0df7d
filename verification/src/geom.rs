//! Spatial math: integer 2D vectors, world bounds, and the axis-aligned
//! bounding-box overlap test used by every collision rule.

use vstd::prelude::*;

verus! {

/// Number of sub-units in one on-screen pixel.  Positions and sizes are held
/// in sub-units so that all motion is exact integer arithmetic: the fixed
/// simulation tick is 1/60 s, so a speed of one pixel per second advances a
/// position by exactly `SUBS_PER_PIXEL / 60 == PIXEL_PER_SECOND` sub-units
/// per tick.
pub const SUBS_PER_PIXEL: i64 = 60_000;

/// Sub-units travelled in one tick by an entity moving at one pixel per
/// second.
pub const PIXEL_PER_SECOND: i64 = 1_000;

/// All entity coordinates are kept inside `[-WORLD_LIMIT, WORLD_LIMIT]`;
/// motion saturates at the world edge instead of overflowing.
pub const WORLD_LIMIT: i64 = 1_000_000_000_000_000;

/// The camera keeps a wide margin inside the world so that every
/// viewport-relative bound is itself a valid coordinate.
pub const CAMERA_LIMIT: i64 = 999_999_000_000_000;

/// Upper bound on the half extent of any collision box.
pub const HALF_EXTENT_LIMIT: i64 = 10_000_000;

/// Upper bound on the magnitude of each velocity component, in sub-units per
/// tick.
pub const SPEED_LIMIT: i64 = 1_000_000;

/// A 2D point or displacement in sub-units.
#[derive(Clone, Copy, PartialEq, Eq, Structural, Debug)]
pub struct Vec2i {
    pub x: i64,
    pub y: i64,
}

/// The coordinate lies inside the world square.
pub open spec fn coord_in_world(x: int) -> bool {
    -WORLD_LIMIT <= x <= WORLD_LIMIT
}

/// Both coordinates lie inside the world square.
pub open spec fn in_world(v: Vec2i) -> bool {
    coord_in_world(v.x as int) && coord_in_world(v.y as int)
}

/// `x` pulled into `[lo, hi]`.
pub open spec fn clamp_spec(x: int, lo: int, hi: int) -> int {
    if x < lo {
        lo
    } else if x > hi {
        hi
    } else {
        x
    }
}

/// Executable clamp, exact against `clamp_spec`.
pub fn clamp_i64(x: i64, lo: i64, hi: i64) -> (r: i64)
    requires
        lo <= hi,
    ensures
        r as int == clamp_spec(x as int, lo as int, hi as int),
{
    if x < lo {
        lo
    } else if x > hi {
        hi
    } else {
        x
    }
}

/// An axis-aligned bounding box given by its center and half extents.
#[derive(Clone, Copy, PartialEq, Eq, Structural, Debug)]
pub struct Aabb {
    pub center: Vec2i,
    pub half: Vec2i,
}

impl Aabb {
    /// Well-formed: the center lies in the world and the half extents are
    /// non-negative and bounded.
    pub open spec fn wf(self) -> bool {
        &&& in_world(self.center)
        &&& 0 <= self.half.x <= HALF_EXTENT_LIMIT
        &&& 0 <= self.half.y <= HALF_EXTENT_LIMIT
    }
}

/// Two boxes overlap iff they meet on both axes at once; a shared edge
/// counts as overlap.
pub open spec fn overlaps_spec(a: Aabb, b: Aabb) -> bool {
    &&& a.center.x - b.center.x <= a.half.x + b.half.x
    &&& b.center.x - a.center.x <= a.half.x + b.half.x
    &&& a.center.y - b.center.y <= a.half.y + b.half.y
    &&& b.center.y - a.center.y <= a.half.y + b.half.y
}

/// Executable overlap test, exact against `overlaps_spec`.
pub fn overlaps(a: &Aabb, b: &Aabb) -> (r: bool)
    requires
        a.wf(),
        b.wf(),
    ensures
        r == overlaps_spec(*a, *b),
{
    let dx = if a.center.x >= b.center.x {
        a.center.x - b.center.x
    } else {
        b.center.x - a.center.x
    };
    let dy = if a.center.y >= b.center.y {
        a.center.y - b.center.y
    } else {
        b.center.y - a.center.y
    };
    dx <= a.half.x + b.half.x && dy <= a.half.y + b.half.y
}

/// The overlap test is symmetric in its two boxes.
pub proof fn lemma_overlaps_symmetric(a: Aabb, b: Aabb)
    ensures
        overlaps_spec(a, b) == overlaps_spec(b, a),
{
}

} // verus!
