//! Edge-level time-of-impact solver.
//!
//! A moving point `p` with constant velocity `v` crosses the infinite line
//! through a segment `a..b` when `cross(p + t*v - a, b - a) == 0`. Since
//! `b - a` is constant, that equation is linear in `t`:
//! `lin_coeff * t + lin_const == 0`. When the coefficient is zero the
//! trajectory is parallel to the edge and no single crossing time exists;
//! otherwise the unique crossing time is the exact rational
//! `-lin_const / lin_coeff`, kept with a positive denominator. A crossing
//! counts as a hit only if its time is strictly positive and the crossing
//! point lies within the segment's bounding box.

use vstd::prelude::*;
use vstd::math::{abs, max, min};
use crate::geom::{cross, in_range, lemma_mul_in_bounds, Vec2, MAX_COORD};
use crate::toi::{Toi, DEN_BOUND, NUM_BOUND};

verus! {

/// Which side of a rectangle a segment represents, or was struck.
///
/// `Inside` is the degenerate tag for a body already overlapping a
/// rectangle with no clean directional resolution; the sweep itself never
/// produces it.
#[derive(Clone, Copy, PartialEq, Eq, Structural, Debug)]
pub enum Side {
    Left,
    Top,
    Right,
    Bottom,
    Inside,
}

/// A rectangle edge: the segment from `a` to `b`, tagged with its side.
#[derive(Clone, Copy, PartialEq, Eq, Structural, Debug)]
pub struct Edge {
    pub a: Vec2,
    pub b: Vec2,
    pub side: Side,
}

/// Both endpoints of `e` are acceptable to the solver.
pub open spec fn edge_in_range(e: Edge) -> bool {
    in_range(e.a) && in_range(e.b)
}

/// Coefficient of `t` in the crossing equation: `cross(v, b - a)`.
pub open spec fn lin_coeff(v: Vec2, a: Vec2, b: Vec2) -> int {
    cross(v.x as int, v.y as int, b.x - a.x, b.y - a.y)
}

/// Constant term of the crossing equation: `cross(p - a, b - a)`.
pub open spec fn lin_const(p: Vec2, a: Vec2, b: Vec2) -> int {
    cross(p.x - a.x, p.y - a.y, b.x - a.x, b.y - a.y)
}

/// Numerator of the crossing time `-lin_const / lin_coeff`, with the sign
/// arranged so that the denominator below is positive.
pub open spec fn crossing_num(p: Vec2, v: Vec2, a: Vec2, b: Vec2) -> int {
    if lin_coeff(v, a, b) > 0 {
        -lin_const(p, a, b)
    } else {
        lin_const(p, a, b)
    }
}

/// Denominator of the crossing time: `|lin_coeff|`, positive when the
/// trajectory is not parallel to the edge.
pub open spec fn crossing_den(v: Vec2, a: Vec2, b: Vec2) -> int {
    abs(lin_coeff(v, a, b)) as int
}

/// The crossing time as a `Toi` value.
pub open spec fn crossing_toi(p: Vec2, v: Vec2, a: Vec2, b: Vec2) -> Toi {
    Toi { num: crossing_num(p, v, a, b) as i128, den: crossing_den(v, a, b) as i128 }
}

/// The point `p + (n/d)*v` lies within the bounding box of the segment
/// `a..b`, each comparison multiplied through by the denominator `d > 0`.
pub open spec fn within_at(p: Vec2, v: Vec2, n: int, d: int, a: Vec2, b: Vec2) -> bool {
    &&& min(a.x as int, b.x as int) * d <= p.x * d + n * v.x
    &&& p.x * d + n * v.x <= max(a.x as int, b.x as int) * d
    &&& min(a.y as int, b.y as int) * d <= p.y * d + n * v.y
    &&& p.y * d + n * v.y <= max(a.y as int, b.y as int) * d
}

/// The crossing point lies within the segment's bounding box.
pub open spec fn within_segment(p: Vec2, v: Vec2, a: Vec2, b: Vec2) -> bool {
    within_at(p, v, crossing_num(p, v, a, b), crossing_den(v, a, b), a, b)
}

/// The hit this edge contributes for a point moving from `p` with velocity
/// `v`: the crossing time and the edge's side tag, if the trajectory is not
/// parallel, the time is strictly positive, and the crossing point lies
/// within the segment.
pub open spec fn edge_candidate(p: Vec2, v: Vec2, e: Edge) -> Option<(Toi, Side)> {
    if lin_coeff(v, e.a, e.b) != 0 && crossing_num(p, v, e.a, e.b) > 0 && within_segment(
        p,
        v,
        e.a,
        e.b,
    ) {
        Some((crossing_toi(p, v, e.a, e.b), e.side))
    } else {
        None
    }
}

/// Keep the strictly earlier of two optional hits; on an exact tie the
/// earlier-encountered (first) hit wins.
pub open spec fn earlier_of(prev: Option<(Toi, Side)>, cur: Option<(Toi, Side)>) -> Option<
    (Toi, Side),
> {
    match (prev, cur) {
        (Option::None, c) => c,
        (Option::Some(pr), Option::None) => Option::Some(pr),
        (Option::Some(pr), Option::Some(c)) => if c.0.lt_spec(pr.0) {
            Option::Some(c)
        } else {
            Option::Some(pr)
        },
    }
}

/// The earliest hit among the first `n` edges, edges considered in order,
/// ties won by the earliest-considered edge.
pub open spec fn nearest_upto(p: Vec2, v: Vec2, edges: Seq<Edge>, n: int) -> Option<(Toi, Side)>
    decreases n,
{
    if n <= 0 {
        Option::None
    } else {
        earlier_of(nearest_upto(p, v, edges, n - 1), edge_candidate(p, v, edges[n - 1]))
    }
}

/// Bounds on the solver's numerator and denominator for in-range inputs.
pub proof fn lemma_coeff_bounds(p: Vec2, v: Vec2, a: Vec2, b: Vec2)
    requires
        in_range(p),
        in_range(v),
        in_range(a),
        in_range(b),
    ensures
        -DEN_BOUND <= lin_coeff(v, a, b) <= DEN_BOUND,
        -NUM_BOUND <= lin_const(p, a, b) <= NUM_BOUND,
        -NUM_BOUND <= crossing_num(p, v, a, b) <= NUM_BOUND,
        0 <= crossing_den(v, a, b) <= DEN_BOUND,
{
    lemma_mul_in_bounds(v.x as int, b.y - a.y, MAX_COORD as int, 2 * MAX_COORD as int);
    lemma_mul_in_bounds(v.y as int, b.x - a.x, MAX_COORD as int, 2 * MAX_COORD as int);
    lemma_mul_in_bounds(p.x - a.x, b.y - a.y, 2 * MAX_COORD as int, 2 * MAX_COORD as int);
    lemma_mul_in_bounds(p.y - a.y, b.x - a.x, 2 * MAX_COORD as int, 2 * MAX_COORD as int);
}

/// Crossing times of a moving point against the segment `edge_start ..
/// edge_end`, as a list of at most two optional times.
///
/// The crossing equation is linear, so at most one time exists; it is
/// reported in the first slot and the second slot is always empty. A
/// parallel trajectory (zero coefficient) reports no time at all: the
/// caller's overlap handling deals with motion along the edge's line.
pub fn edge_crossing_times(point: Vec2, v: Vec2, edge_start: Vec2, edge_end: Vec2) -> (r: Vec<
    Option<Toi>,
>)
    requires
        in_range(point),
        in_range(v),
        in_range(edge_start),
        in_range(edge_end),
    ensures
        r@.len() == 2,
        r@[1] is None,
        lin_coeff(v, edge_start, edge_end) == 0 ==> r@[0] is None,
        lin_coeff(v, edge_start, edge_end) != 0 ==> r@[0] == Option::Some(
            crossing_toi(point, v, edge_start, edge_end),
        ),
        r@[0] matches Some(t) ==> t.wf(),
{
    proof {
        lemma_coeff_bounds(point, v, edge_start, edge_end);
        lemma_mul_in_bounds(v.x as int, edge_end.y - edge_start.y, MAX_COORD as int, 2 * MAX_COORD as int);
        lemma_mul_in_bounds(v.y as int, edge_end.x - edge_start.x, MAX_COORD as int, 2 * MAX_COORD as int);
        lemma_mul_in_bounds(point.x - edge_start.x, edge_end.y - edge_start.y, 2 * MAX_COORD as int, 2 * MAX_COORD as int);
        lemma_mul_in_bounds(point.y - edge_start.y, edge_end.x - edge_start.x, 2 * MAX_COORD as int, 2 * MAX_COORD as int);
    }
    let ex: i64 = edge_end.x - edge_start.x;
    let ey: i64 = edge_end.y - edge_start.y;
    let la: i128 = (v.x as i128) * (ey as i128) - (v.y as i128) * (ex as i128);
    let lb: i128 = ((point.x - edge_start.x) as i128) * (ey as i128) - ((point.y
        - edge_start.y) as i128) * (ex as i128);
    let mut r: Vec<Option<Toi>> = Vec::new();
    if la == 0 {
        r.push(None);
    } else if la > 0 {
        r.push(Some(Toi { num: -lb, den: la }));
    } else {
        r.push(Some(Toi { num: lb, den: -la }));
    }
    r.push(None);
    r
}

/// Does the point `p + (t.num/t.den)*v` lie within the bounding box of the
/// segment `a..b`?
fn within_segment_check(p: Vec2, v: Vec2, t: &Toi, a: Vec2, b: Vec2) -> (r: bool)
    requires
        in_range(p),
        in_range(v),
        in_range(a),
        in_range(b),
        t.wf(),
    ensures
        r == within_at(p, v, t.num as int, t.den as int, a, b),
{
    proof {
        lemma_mul_in_bounds(p.x as int, t.den as int, MAX_COORD as int, DEN_BOUND as int);
        lemma_mul_in_bounds(p.y as int, t.den as int, MAX_COORD as int, DEN_BOUND as int);
        lemma_mul_in_bounds(t.num as int, v.x as int, NUM_BOUND as int, MAX_COORD as int);
        lemma_mul_in_bounds(t.num as int, v.y as int, NUM_BOUND as int, MAX_COORD as int);
        lemma_mul_in_bounds(a.x as int, t.den as int, MAX_COORD as int, DEN_BOUND as int);
        lemma_mul_in_bounds(b.x as int, t.den as int, MAX_COORD as int, DEN_BOUND as int);
        lemma_mul_in_bounds(a.y as int, t.den as int, MAX_COORD as int, DEN_BOUND as int);
        lemma_mul_in_bounds(b.y as int, t.den as int, MAX_COORD as int, DEN_BOUND as int);
    }
    let minx: i64 = if a.x <= b.x {
        a.x
    } else {
        b.x
    };
    let maxx: i64 = if a.x <= b.x {
        b.x
    } else {
        a.x
    };
    let miny: i64 = if a.y <= b.y {
        a.y
    } else {
        b.y
    };
    let maxy: i64 = if a.y <= b.y {
        b.y
    } else {
        a.y
    };
    let px: i128 = (p.x as i128) * t.den + t.num * (v.x as i128);
    let py: i128 = (p.y as i128) * t.den + t.num * (v.y as i128);
    (minx as i128) * t.den <= px && px <= (maxx as i128) * t.den && (miny as i128) * t.den <= py
        && py <= (maxy as i128) * t.den
}

/// The earliest positive crossing of a moving point against a list of
/// tagged edges: the edges are tried in order, every candidate time must be
/// strictly positive and land within its segment, and among candidates the
/// strictly smallest time wins, the earliest-listed edge taking exact ties.
pub fn check_collide_point_nearest_edge(point: Vec2, v: Vec2, edges: &Vec<Edge>) -> (r: Option<
    (Toi, Side),
>)
    requires
        in_range(point),
        in_range(v),
        forall|i: int| 0 <= i < edges@.len() ==> edge_in_range(#[trigger] edges@[i]),
    ensures
        r == nearest_upto(point, v, edges@, edges@.len() as int),
        r matches Some(h) ==> h.0.wf() && h.0.is_positive(),
{
    let mut nearest: Option<(Toi, Side)> = None;
    let mut i: usize = 0;
    while i < edges.len()
        invariant
            0 <= i <= edges@.len(),
            in_range(point),
            in_range(v),
            forall|k: int| 0 <= k < edges@.len() ==> edge_in_range(#[trigger] edges@[k]),
            nearest == nearest_upto(point, v, edges@, i as int),
            nearest matches Some(h) ==> h.0.wf() && h.0.is_positive(),
        decreases edges@.len() - i,
    {
        let e = edges[i];
        proof {
            lemma_coeff_bounds(point, v, e.a, e.b);
        }
        let times = edge_crossing_times(point, v, e.a, e.b);
        // The crossing equation is linear, so the solver's contract says the
        // second slot is always empty: only the first needs inspection.
        if let Some(t) = times[0] {
            if t.positive() && within_segment_check(point, v, &t, e.a, e.b) {
                let replace: bool = match &nearest {
                    Some((best, _)) => t.lt(best),
                    None => true,
                };
                if replace {
                    nearest = Some((t, e.side));
                }
            }
        }
        i = i + 1;
    }
    nearest
}

} // verus!
