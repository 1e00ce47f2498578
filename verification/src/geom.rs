//! Plane geometry over bounded integer coordinates.
//!
//! Every coordinate the library accepts is bounded by [`MAX_COORD`], so that
//! each intermediate product of the solver fits comfortably in `i128`.

use vstd::prelude::*;

verus! {

/// Bound on every coordinate handed to the edge-level solver (2^30).
pub const MAX_COORD: i64 = 0x4000_0000;

/// Bound on the inputs of the circle-vs-rectangle sweep (2^28).
///
/// The sweep works internally in doubled coordinates (so that half-extents
/// stay exact) and offsets centers by the radius, which is how a value
/// bounded by `MAX_BODY_COORD` can grow up to `MAX_COORD`.
pub const MAX_BODY_COORD: i64 = 0x1000_0000;

/// A 2D point or displacement with integer coordinates.
#[derive(Clone, Copy, PartialEq, Eq, Structural, Debug)]
pub struct Vec2 {
    pub x: i64,
    pub y: i64,
}

/// The 2D cross product (signed area) of two vectors given by components.
pub open spec fn cross(ax: int, ay: int, bx: int, by: int) -> int {
    ax * by - ay * bx
}

/// All coordinates of `v` lie within `bound`.
pub open spec fn within(v: Vec2, bound: int) -> bool {
    -bound <= v.x <= bound && -bound <= v.y <= bound
}

/// `v` is acceptable to the edge-level solver.
pub open spec fn in_range(v: Vec2) -> bool {
    within(v, MAX_COORD as int)
}

/// `v` is acceptable as a sweep input.
pub open spec fn in_body_range(v: Vec2) -> bool {
    within(v, MAX_BODY_COORD as int)
}

impl Vec2 {
    pub fn new(x: i64, y: i64) -> (r: Self)
        ensures
            r.x == x,
            r.y == y,
    {
        Vec2 { x, y }
    }

    /// Both components are zero.
    pub open spec fn is_zero_spec(self) -> bool {
        self.x == 0 && self.y == 0
    }

    pub fn is_zero(&self) -> (r: bool)
        ensures
            r == self.is_zero_spec(),
    {
        self.x == 0 && self.y == 0
    }
}

/// Bounds the product of two bounded factors.
pub proof fn lemma_mul_in_bounds(a: int, b: int, m: int, n: int)
    by (nonlinear_arith)
    requires
        -m <= a <= m,
        -n <= b <= n,
        0 <= m,
        0 <= n,
    ensures
        -(m * n) <= a * b <= m * n,
{
}

/// The 2D cross product of two in-range vectors, computed exactly.
pub fn cross2d(v1: Vec2, v2: Vec2) -> (r: i128)
    requires
        in_range(v1),
        in_range(v2),
    ensures
        r == cross(v1.x as int, v1.y as int, v2.x as int, v2.y as int),
{
    proof {
        lemma_mul_in_bounds(v1.x as int, v2.y as int, MAX_COORD as int, MAX_COORD as int);
        lemma_mul_in_bounds(v1.y as int, v2.x as int, MAX_COORD as int, MAX_COORD as int);
    }
    (v1.x as i128) * (v2.y as i128) - (v1.y as i128) * (v2.x as i128)
}

} // verus!
