//! Circle-vs-rectangle sweep.
//!
//! The moving circle is approximated by up to three representative points on
//! its boundary, chosen by the direction of travel: the horizontal lead
//! point (center offset by the radius along the sign of the x-velocity),
//! the vertical lead point, and a diagonal lead point along the velocity
//! itself. Each point is run through the edge-level solver against the four
//! edges of the target rectangle, and the globally earliest strictly
//! positive crossing wins.
//!
//! To keep half-extents exact in integers, the sweep works in doubled
//! coordinates: every center and offset is multiplied by two, and a corner
//! is `2 * center ± size`. Crossing times are ratios, so doubling every
//! input leaves them unchanged. The diagonal offset scales the velocity to
//! the circle's radius with an integer square root, rounding the offset
//! down; this replaces the exact (irrational) boundary point by the nearest
//! representable one, and is the only rounding in the whole sweep.

use vstd::prelude::*;
use vstd::arithmetic::div_mod::{lemma_div_is_ordered, lemma_div_multiples_vanish};
use vstd::math::abs;
use crate::geom::{in_body_range, in_range, lemma_mul_in_bounds, Vec2, MAX_BODY_COORD};
use crate::toi::Toi;
use crate::collide::{
    check_collide_point_nearest_edge, earlier_of, edge_in_range, nearest_upto, Edge, Side,
};

verus! {

/// The integer square root: the largest `r` with `r * r <= n`.
pub open spec fn sqrt_floor(n: nat) -> nat
    decreases n,
{
    if n == 0 {
        0
    } else {
        let r = sqrt_floor((n - 1) as nat);
        if (r + 1) * (r + 1) <= n {
            r + 1
        } else {
            r
        }
    }
}

/// `sqrt_floor` is characterised by `r * r <= n < (r + 1) * (r + 1)`.
pub proof fn lemma_sqrt_floor(n: nat)
    ensures
        sqrt_floor(n) * sqrt_floor(n) <= n,
        n < (sqrt_floor(n) + 1) * (sqrt_floor(n) + 1),
    decreases n,
{
    let s = sqrt_floor(n);
    if n == 0 {
        assert(s == 0);
        assert(s * s <= n && n < (s + 1) * (s + 1)) by (nonlinear_arith)
            requires
                s == 0,
                n == 0,
        ;
    } else {
        lemma_sqrt_floor((n - 1) as nat);
        let r = sqrt_floor((n - 1) as nat);
        if (r + 1) * (r + 1) <= n {
            assert(s == r + 1);
            assert(s * s <= n && n < (s + 1) * (s + 1)) by (nonlinear_arith)
                requires
                    s == r + 1,
                    (r + 1) * (r + 1) <= n,
                    n - 1 < (r + 1) * (r + 1),
            ;
        } else {
            assert(s == r);
            assert(s * s <= n && n < (s + 1) * (s + 1)) by (nonlinear_arith)
                requires
                    s == r,
                    r * r <= n - 1,
                    !((r + 1) * (r + 1) <= n),
            ;
        }
    }
}

/// Any `r` with `r * r <= n < (r + 1) * (r + 1)` is the integer square root.
pub proof fn lemma_sqrt_unique(n: nat, r: nat)
    requires
        r * r <= n,
        n < (r + 1) * (r + 1),
    ensures
        r == sqrt_floor(n),
{
    lemma_sqrt_floor(n);
    let s = sqrt_floor(n);
    if r < s {
        assert((r + 1) * (r + 1) <= s * s) by (nonlinear_arith)
            requires
                r + 1 <= s,
                0 <= r,
        ;
    }
    if s < r {
        assert((s + 1) * (s + 1) <= r * r) by (nonlinear_arith)
            requires
                s + 1 <= r,
                0 <= s,
        ;
    }
}

/// A number whose square is at most `n` is at most `sqrt_floor(n)`.
pub proof fn lemma_square_le_sqrt(a: nat, n: nat)
    requires
        a * a <= n,
    ensures
        a <= sqrt_floor(n),
{
    lemma_sqrt_floor(n);
    let s = sqrt_floor(n);
    if s < a {
        assert((s + 1) * (s + 1) <= a * a) by (nonlinear_arith)
            requires
                s + 1 <= a,
                0 <= s,
        ;
    }
}

/// For `0 <= b <= c`, scaling `a >= 0` by `b / c` never exceeds `a`.
proof fn lemma_scale_le(a: int, b: int, c: int)
    requires
        0 <= a,
        0 <= b <= c,
        0 < c,
    ensures
        0 <= (a * b) / c <= a,
{
    assert(a * b <= c * a) by (nonlinear_arith)
        requires
            0 <= a,
            0 <= b <= c,
    ;
    assert(0 <= a * b) by (nonlinear_arith)
        requires
            0 <= a,
            0 <= b,
    ;
    lemma_div_is_ordered(0, a * b, c);
    lemma_div_is_ordered(a * b, c * a, c);
    lemma_div_multiples_vanish(a, c);
}

/// The integer square root of a 64-bit value, by bisection.
pub fn isqrt64(n: u64) -> (r: u64)
    ensures
        r == sqrt_floor(n as nat),
        r * r <= n,
{
    let mut lo: u64 = 0;
    let mut hi: u64 = 0x1_0000_0000;
    proof {
        assert(0x1_0000_0000int * 0x1_0000_0000int > n);
    }
    while lo + 1 < hi
        invariant
            lo < hi <= 0x1_0000_0000,
            (lo as int) * (lo as int) <= n,
            n < (hi as int) * (hi as int),
        decreases hi - lo,
    {
        let mid: u64 = lo + (hi - lo) / 2;
        proof {
            lemma_mul_in_bounds(mid as int, mid as int, 0x1_0000_0000, 0x1_0000_0000);
        }
        if (mid as u128) * (mid as u128) <= n as u128 {
            lo = mid;
        } else {
            hi = mid;
        }
    }
    proof {
        lemma_sqrt_unique(n as nat, lo as nat);
    }
    lo
}

/// The horizontal lead point of the circle, in doubled coordinates:
/// the center offset by the radius along the sign of the x-velocity,
/// absent when the x-velocity is zero.
pub open spec fn lead_x(circle: Vec2, radius: i64, v: Vec2) -> Option<Vec2> {
    if v.x > 0 {
        Option::Some(Vec2 { x: (2 * circle.x + 2 * radius) as i64, y: (2 * circle.y) as i64 })
    } else if v.x < 0 {
        Option::Some(Vec2 { x: (2 * circle.x - 2 * radius) as i64, y: (2 * circle.y) as i64 })
    } else {
        Option::None
    }
}

/// The vertical lead point, analogous to [`lead_x`].
pub open spec fn lead_y(circle: Vec2, radius: i64, v: Vec2) -> Option<Vec2> {
    if v.y > 0 {
        Option::Some(Vec2 { x: (2 * circle.x) as i64, y: (2 * circle.y + 2 * radius) as i64 })
    } else if v.y < 0 {
        Option::Some(Vec2 { x: (2 * circle.x) as i64, y: (2 * circle.y - 2 * radius) as i64 })
    } else {
        Option::None
    }
}

/// The diagonal lead point, in doubled coordinates: the center offset by
/// the velocity scaled to the circle's radius (rounded towards the center),
/// signed by the velocity's quadrant; absent when either component of the
/// velocity is zero, since axis-aligned motion is covered by the other two
/// points.
pub open spec fn lead_diag(circle: Vec2, radius: i64, v: Vec2) -> Option<Vec2> {
    if v.x != 0 && v.y != 0 {
        let norm = sqrt_floor((v.x * v.x + v.y * v.y) as nat) as int;
        let dx = (2 * radius * abs(v.x as int)) / norm;
        let dy = (2 * radius * abs(v.y as int)) / norm;
        let sx: int = if v.x > 0 {
            dx
        } else {
            -dx
        };
        let sy: int = if v.y > 0 {
            dy
        } else {
            -dy
        };
        Option::Some(Vec2 { x: (2 * circle.x + sx) as i64, y: (2 * circle.y + sy) as i64 })
    } else {
        Option::None
    }
}

/// The four edges of the rectangle in doubled coordinates, walked
/// counter-clockwise from the bottom-left corner, each tagged with the side
/// it represents.
pub open spec fn rect_edges(rect: Vec2, size: Vec2) -> Seq<Edge> {
    let c1 = Vec2 { x: (2 * rect.x - size.x) as i64, y: (2 * rect.y - size.y) as i64 };
    let c2 = Vec2 { x: (2 * rect.x - size.x) as i64, y: (2 * rect.y + size.y) as i64 };
    let c3 = Vec2 { x: (2 * rect.x + size.x) as i64, y: (2 * rect.y + size.y) as i64 };
    let c4 = Vec2 { x: (2 * rect.x + size.x) as i64, y: (2 * rect.y - size.y) as i64 };
    seq![
        Edge { a: c1, b: c2, side: Side::Left },
        Edge { a: c2, b: c3, side: Side::Top },
        Edge { a: c3, b: c4, side: Side::Right },
        Edge { a: c4, b: c1, side: Side::Bottom },
    ]
}

/// The sweep's representative points, in the order they are tried.
pub open spec fn sweep_points(circle: Vec2, radius: i64, v: Vec2) -> Seq<Option<Vec2>> {
    seq![lead_x(circle, radius, v), lead_y(circle, radius, v), lead_diag(circle, radius, v)]
}

/// The earliest hit over the first `n` representative points, each run
/// against all edges; ties are won by the earliest-listed point.
pub open spec fn nearest_over_points(
    pts: Seq<Option<Vec2>>,
    v: Vec2,
    edges: Seq<Edge>,
    n: int,
) -> Option<(Toi, Side)>
    decreases n,
{
    if n <= 0 {
        Option::None
    } else {
        let cur = match pts[n - 1] {
            Option::Some(p) => nearest_upto(p, v, edges, edges.len() as int),
            Option::None => Option::None,
        };
        earlier_of(nearest_over_points(pts, v, edges, n - 1), cur)
    }
}

/// The full sweep: nothing for a stationary circle, otherwise the earliest
/// strictly positive crossing of any representative point against any edge,
/// in doubled coordinates (which leave the crossing times unchanged).
pub open spec fn sweep_spec(circle: Vec2, radius: i64, v: Vec2, rect: Vec2, size: Vec2) -> Option<
    (Toi, Side),
> {
    if v.is_zero_spec() {
        Option::None
    } else {
        let v2 = Vec2 { x: (2 * v.x) as i64, y: (2 * v.y) as i64 };
        nearest_over_points(sweep_points(circle, radius, v), v2, rect_edges(rect, size), 3)
    }
}

/// A radius acceptable to the sweep.
pub open spec fn radius_in_range(radius: i64) -> bool {
    0 <= radius <= MAX_BODY_COORD
}

/// A rectangle size acceptable to the sweep.
pub open spec fn size_in_range(size: Vec2) -> bool {
    in_body_range(size) && 0 <= size.x && 0 <= size.y
}

fn lead_point_x(circle: Vec2, radius: i64, v: Vec2) -> (r: Option<Vec2>)
    requires
        in_body_range(circle),
        radius_in_range(radius),
        in_body_range(v),
    ensures
        r == lead_x(circle, radius, v),
        r matches Some(p) ==> in_range(p),
{
    if v.x > 0 {
        Some(Vec2::new(2 * circle.x + 2 * radius, 2 * circle.y))
    } else if v.x < 0 {
        Some(Vec2::new(2 * circle.x - 2 * radius, 2 * circle.y))
    } else {
        None
    }
}

fn lead_point_y(circle: Vec2, radius: i64, v: Vec2) -> (r: Option<Vec2>)
    requires
        in_body_range(circle),
        radius_in_range(radius),
        in_body_range(v),
    ensures
        r == lead_y(circle, radius, v),
        r matches Some(p) ==> in_range(p),
{
    if v.y > 0 {
        Some(Vec2::new(2 * circle.x, 2 * circle.y + 2 * radius))
    } else if v.y < 0 {
        Some(Vec2::new(2 * circle.x, 2 * circle.y - 2 * radius))
    } else {
        None
    }
}

fn lead_point_diag(circle: Vec2, radius: i64, v: Vec2) -> (r: Option<Vec2>)
    requires
        in_body_range(circle),
        radius_in_range(radius),
        in_body_range(v),
    ensures
        r == lead_diag(circle, radius, v),
        r matches Some(p) ==> in_range(p),
{
    if v.x != 0 && v.y != 0 {
        let ax: i64 = if v.x >= 0 {
            v.x
        } else {
            -v.x
        };
        let ay: i64 = if v.y >= 0 {
            v.y
        } else {
            -v.y
        };
        proof {
            lemma_mul_in_bounds(ax as int, ax as int, MAX_BODY_COORD as int, MAX_BODY_COORD as int);
            lemma_mul_in_bounds(ay as int, ay as int, MAX_BODY_COORD as int, MAX_BODY_COORD as int);
            assert(ax * ax == v.x * v.x && ay * ay == v.y * v.y) by (nonlinear_arith)
                requires
                    ax == abs(v.x as int) && ay == abs(v.y as int),
            ;
        }
        let n2: u64 = ((ax * ax) as u64) + ((ay * ay) as u64);
        let norm: u64 = isqrt64(n2);
        proof {
            lemma_sqrt_floor(n2 as nat);
            assert(ax * ax >= 1 && ay * ay >= 1) by (nonlinear_arith)
                requires
                    ax >= 1,
                    ay >= 1,
            ;
            assert(norm >= 1) by (nonlinear_arith)
                requires
                    n2 >= 1,
                    n2 < (norm + 1) * (norm + 1),
            ;
            lemma_square_le_sqrt(ax as nat, n2 as nat);
            lemma_square_le_sqrt(ay as nat, n2 as nat);
            lemma_mul_in_bounds(2 * radius, ax as int, 2 * MAX_BODY_COORD as int, MAX_BODY_COORD as int);
            lemma_mul_in_bounds(2 * radius, ay as int, 2 * MAX_BODY_COORD as int, MAX_BODY_COORD as int);
            lemma_scale_le(2 * radius, ax as int, norm as int);
            lemma_scale_le(2 * radius, ay as int, norm as int);
        }
        let dx: u64 = (((2 * radius) as u64) * (ax as u64)) / norm;
        let dy: u64 = (((2 * radius) as u64) * (ay as u64)) / norm;
        let sx: i64 = if v.x > 0 {
            dx as i64
        } else {
            -(dx as i64)
        };
        let sy: i64 = if v.y > 0 {
            dy as i64
        } else {
            -(dy as i64)
        };
        Some(Vec2::new(2 * circle.x + sx, 2 * circle.y + sy))
    } else {
        None
    }
}

/// The rectangle's edges as a vector, in the order of [`rect_edges`].
fn make_rect_edges(rect: Vec2, size: Vec2) -> (r: Vec<Edge>)
    requires
        in_body_range(rect),
        size_in_range(size),
    ensures
        r@ == rect_edges(rect, size),
        forall|i: int| 0 <= i < r@.len() ==> edge_in_range(#[trigger] r@[i]),
{
    let c1 = Vec2::new(2 * rect.x - size.x, 2 * rect.y - size.y);
    let c2 = Vec2::new(2 * rect.x - size.x, 2 * rect.y + size.y);
    let c3 = Vec2::new(2 * rect.x + size.x, 2 * rect.y + size.y);
    let c4 = Vec2::new(2 * rect.x + size.x, 2 * rect.y - size.y);
    let mut r: Vec<Edge> = Vec::new();
    r.push(Edge { a: c1, b: c2, side: Side::Left });
    r.push(Edge { a: c2, b: c3, side: Side::Top });
    r.push(Edge { a: c3, b: c4, side: Side::Right });
    r.push(Edge { a: c4, b: c1, side: Side::Bottom });
    proof {
        assert(r@ =~= rect_edges(rect, size));
    }
    r
}

/// Earliest time of impact of a moving circle against a static rectangle.
///
/// Inputs are the circle's center, radius and per-step displacement, and
/// the rectangle's center and full size. A stationary circle reports
/// nothing. A reported time is strictly positive and exact; the side is
/// the struck edge's tag, the earliest-tried point and edge winning exact
/// ties, so corner hits resolve deterministically.
pub fn sweep_circle_vs_rect(circle: Vec2, radius: i64, v: Vec2, rect: Vec2, rect_size: Vec2) -> (r:
    Option<(Toi, Side)>)
    requires
        in_body_range(circle),
        radius_in_range(radius),
        in_body_range(v),
        in_body_range(rect),
        size_in_range(rect_size),
    ensures
        r == sweep_spec(circle, radius, v, rect, rect_size),
        v.is_zero_spec() ==> r is None,
        r matches Some(h) ==> h.0.wf() && h.0.is_positive(),
{
    if v.is_zero() {
        return None;
    }
    let edges = make_rect_edges(rect, rect_size);
    let v2 = Vec2::new(2 * v.x, 2 * v.y);
    let ghost pts = sweep_points(circle, radius, v);
    proof {
        assert(pts.len() == 3);
        assert(pts[0] == lead_x(circle, radius, v));
        assert(pts[1] == lead_y(circle, radius, v));
        assert(pts[2] == lead_diag(circle, radius, v));
    }
    let mut nearest: Option<(Toi, Side)> = None;

    let p1 = lead_point_x(circle, radius, v);
    if let Some(p) = p1 {
        nearest = check_collide_point_nearest_edge(p, v2, &edges);
    }
    proof {
        assert(nearest_over_points(pts, v2, edges@, 0) is None);
        assert(nearest == nearest_over_points(pts, v2, edges@, 1));
    }

    let p2 = lead_point_y(circle, radius, v);
    if let Some(p) = p2 {
        let cand = check_collide_point_nearest_edge(p, v2, &edges);
        nearest = keep_earlier(nearest, cand);
    }
    proof {
        assert(nearest == nearest_over_points(pts, v2, edges@, 2));
    }

    let p3 = lead_point_diag(circle, radius, v);
    if let Some(p) = p3 {
        let cand = check_collide_point_nearest_edge(p, v2, &edges);
        nearest = keep_earlier(nearest, cand);
    }
    proof {
        assert(nearest == nearest_over_points(pts, v2, edges@, 3));
    }
    nearest
}

/// Keep the strictly earlier of two optional hits; the first wins ties.
fn keep_earlier(prev: Option<(Toi, Side)>, cur: Option<(Toi, Side)>) -> (r: Option<(Toi, Side)>)
    requires
        prev matches Some(h) ==> h.0.wf(),
        cur matches Some(h) ==> h.0.wf(),
    ensures
        r == earlier_of(prev, cur),
{
    match (&prev, &cur) {
        (None, _) => cur,
        (Some(_), None) => prev,
        (Some((tp, _)), Some((tc, _))) => if tc.lt(tp) {
            cur
        } else {
            prev
        },
    }
}

} // verus!
