//! Library-wide laws, stated and proved against the public contracts.

use vstd::prelude::*;
use crate::geom::{in_body_range, Vec2};
use crate::toi::Toi;
use crate::collide::{
    crossing_den, crossing_num, crossing_toi, edge_candidate, earlier_of, lemma_coeff_bounds,
    lin_coeff, lin_const, nearest_upto, within_segment, Side,
};
use crate::sweep::{
    lead_diag, lead_x, lead_y, nearest_over_points, radius_in_range, rect_edges, size_in_range,
    sweep_points, sweep_spec,
};

verus! {

/// The sweep is a pure function of its inputs: `sweep_circle_vs_rect`
/// promises its result equals `sweep_spec` of the arguments alone, so two
/// calls on identical inputs yield identical output.
pub proof fn lemma_sweep_deterministic(
    circle: Vec2,
    radius: i64,
    v: Vec2,
    rect: Vec2,
    size: Vec2,
    r1: Option<(Toi, Side)>,
    r2: Option<(Toi, Side)>,
)
    requires
        r1 == sweep_spec(circle, radius, v, rect, size),
        r2 == sweep_spec(circle, radius, v, rect, size),
    ensures
        r1 == r2,
{
}

/// A circle moving straight at a wall hits the facing side at the exact
/// expected time: with velocity `(vx, 0)`, `vx > 0`, a circle whose center
/// lies at (doubled) distance `dd = 2*rect.x - size.x - 2*circle.x` from
/// the wall's near face, strictly outside it (`dd > 2*radius`), and whose
/// leading point is vertically within the face's span, is reported hitting
/// side `Left` at time `(dd - 2*radius) / (2*vx)` — that is, distance
/// minus radius over speed.
pub proof fn lemma_head_on_hits_left(circle: Vec2, radius: i64, v: Vec2, rect: Vec2, size: Vec2)
    requires
        in_body_range(circle),
        radius_in_range(radius),
        in_body_range(v),
        in_body_range(rect),
        size_in_range(size),
        v.x > 0,
        v.y == 0,
        size.y > 0,
        2 * rect.y - size.y <= 2 * circle.y <= 2 * rect.y + size.y,
        2 * rect.x - size.x - 2 * circle.x > 2 * radius,
    ensures
        sweep_spec(circle, radius, v, rect, size) matches Some(h) && h.1 == Side::Left
            && h.0.den > 0 && h.0.num * (2 * v.x) == (2 * rect.x - size.x - 2 * circle.x - 2
            * radius) * h.0.den,
{
    let vx = v.x as int;
    let sx = size.x as int;
    let sy = size.y as int;
    let px = 2 * circle.x + 2 * radius;
    let py = 2 * circle.y as int;
    let xl = 2 * rect.x - size.x;
    let xr = 2 * rect.x + size.x;
    let y1 = 2 * rect.y - size.y;
    let y2 = 2 * rect.y + size.y;

    let v2 = Vec2 { x: (2 * v.x) as i64, y: (2 * v.y) as i64 };
    let p1 = Vec2 { x: px as i64, y: (2 * circle.y) as i64 };
    let edges = rect_edges(rect, size);
    let pts = sweep_points(circle, radius, v);

    assert(v2.x == 2 * vx && v2.y == 0);
    assert(p1.x == px && p1.y == py);
    assert(lead_x(circle, radius, v) == Option::Some(p1));
    assert(lead_y(circle, radius, v) is None);
    assert(lead_diag(circle, radius, v) is None);
    assert(pts.len() == 3 && pts[0] == Option::Some(p1) && pts[1] is None && pts[2] is None);

    let e0 = edges[0];
    let e1 = edges[1];
    let e2 = edges[2];
    let e3 = edges[3];
    assert(edges.len() == 4);
    assert(e0.a.x == xl && e0.a.y == y1 && e0.b.x == xl && e0.b.y == y2 && e0.side == Side::Left);
    assert(e1.a.x == xl && e1.a.y == y2 && e1.b.x == xr && e1.b.y == y2 && e1.side == Side::Top);
    assert(e2.a.x == xr && e2.a.y == y2 && e2.b.x == xr && e2.b.y == y1 && e2.side == Side::Right);
    assert(e3.a.x == xr && e3.a.y == y1 && e3.b.x == xl && e3.b.y == y1 && e3.side
        == Side::Bottom);

    // The two horizontal edges are parallel to the motion: no candidate.
    assert((v2.x as int) * (e1.b.y - e1.a.y) == 0 && (v2.y as int) * (e1.b.x - e1.a.x) == 0)
        by (nonlinear_arith)
        requires
            e1.b.y == e1.a.y,
            v2.y == 0,
    ;
    assert((v2.x as int) * (e3.b.y - e3.a.y) == 0 && (v2.y as int) * (e3.b.x - e3.a.x) == 0)
        by (nonlinear_arith)
        requires
            e3.b.y == e3.a.y,
            v2.y == 0,
    ;
    assert(lin_coeff(v2, e1.a, e1.b) == 0);
    assert(lin_coeff(v2, e3.a, e3.b) == 0);
    assert(edge_candidate(p1, v2, e1) is None);
    assert(edge_candidate(p1, v2, e3) is None);

    // The left edge: a positive crossing, exactly at the face.
    lemma_coeff_bounds(p1, v2, e0.a, e0.b);
    let la0 = lin_coeff(v2, e0.a, e0.b);
    let num0 = crossing_num(p1, v2, e0.a, e0.b);
    let den0 = crossing_den(v2, e0.a, e0.b);
    assert(la0 == (2 * vx) * (2 * sy));
    assert(la0 > 0) by (nonlinear_arith)
        requires
            la0 == (2 * vx) * (2 * sy),
            vx >= 1,
            sy >= 1,
    ;
    assert(lin_const(p1, e0.a, e0.b) == (px - xl) * (2 * sy));
    assert(num0 == (xl - px) * (2 * sy)) by (nonlinear_arith)
        requires
            num0 == -((px - xl) * (2 * sy)),
    ;
    assert(den0 == la0);
    assert(num0 > 0) by (nonlinear_arith)
        requires
            num0 == (xl - px) * (2 * sy),
            xl - px > 0,
            sy >= 1,
    ;
    // Crossing point: x lands exactly on the face, y is unchanged.
    assert(px * den0 + num0 * (2 * vx) == xl * den0) by (nonlinear_arith)
        requires
            den0 == (2 * vx) * (2 * sy),
            num0 == (xl - px) * (2 * sy),
    ;
    assert(y1 * den0 <= py * den0 && py * den0 <= y2 * den0) by (nonlinear_arith)
        requires
            y1 <= py <= y2,
            den0 > 0,
    ;
    assert(within_segment(p1, v2, e0.a, e0.b));
    let t0 = crossing_toi(p1, v2, e0.a, e0.b);
    assert(t0.num == num0 && t0.den == den0);
    assert(edge_candidate(p1, v2, e0) == Option::Some((t0, Side::Left)));

    // The right edge crosses no earlier than the left edge.
    lemma_coeff_bounds(p1, v2, e2.a, e2.b);
    let la2 = lin_coeff(v2, e2.a, e2.b);
    let num2 = crossing_num(p1, v2, e2.a, e2.b);
    let den2 = crossing_den(v2, e2.a, e2.b);
    assert(la2 == (2 * vx) * (-(2 * sy)));
    assert(la2 < 0) by (nonlinear_arith)
        requires
            la2 == (2 * vx) * (-(2 * sy)),
            vx >= 1,
            sy >= 1,
    ;
    assert(num2 == (px - xr) * (-(2 * sy)));
    assert(num2 == (xr - px) * (2 * sy)) by (nonlinear_arith)
        requires
            num2 == (px - xr) * (-(2 * sy)),
    ;
    assert(den2 == -la2);
    assert(den2 == den0) by (nonlinear_arith)
        requires
            den2 == -((2 * vx) * (-(2 * sy))),
            den0 == (2 * vx) * (2 * sy),
    ;
    let t2 = crossing_toi(p1, v2, e2.a, e2.b);
    assert(t2.num == num2 && t2.den == den2);
    assert(num0 <= num2) by (nonlinear_arith)
        requires
            num0 == (xl - px) * (2 * sy),
            num2 == (xr - px) * (2 * sy),
            xl <= xr,
            sy >= 1,
    ;
    assert(!t2.lt_spec(t0)) by (nonlinear_arith)
        requires
            t2.num == num2,
            t2.den == den0,
            t0.num == num0,
            t0.den == den0,
            num0 <= num2,
            den0 > 0,
    ;
    assert(earlier_of(Option::Some((t0, Side::Left)), edge_candidate(p1, v2, e2))
        == Option::Some((t0, Side::Left)));

    // Fold the four edges, then the three points.
    assert(nearest_upto(p1, v2, edges, 0) is None);
    assert(nearest_upto(p1, v2, edges, 1) == Option::Some((t0, Side::Left)));
    assert(nearest_upto(p1, v2, edges, 2) == Option::Some((t0, Side::Left)));
    assert(nearest_upto(p1, v2, edges, 3) == Option::Some((t0, Side::Left)));
    assert(nearest_upto(p1, v2, edges, 4) == Option::Some((t0, Side::Left)));

    assert(nearest_over_points(pts, v2, edges, 0) is None);
    assert(nearest_over_points(pts, v2, edges, 1) == Option::Some((t0, Side::Left)));
    assert(nearest_over_points(pts, v2, edges, 2) == Option::Some((t0, Side::Left)));
    assert(nearest_over_points(pts, v2, edges, 3) == Option::Some((t0, Side::Left)));
    assert(sweep_spec(circle, radius, v, rect, size) == Option::Some((t0, Side::Left)));

    // The reported time is (distance - radius) / speed, as rationals.
    assert(num0 * (2 * vx) == (xl - 2 * circle.x - 2 * radius) * den0) by (nonlinear_arith)
        requires
            num0 == (xl - px) * (2 * sy),
            den0 == (2 * vx) * (2 * sy),
            px == 2 * circle.x + 2 * radius,
    ;
}

} // verus!
