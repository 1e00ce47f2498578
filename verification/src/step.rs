//! Caller-side integration of the sweep over one simulation step.
//!
//! The velocity handed to these functions is the body's displacement for
//! one full step, so a crossing time of 1 means "exactly at the end of the
//! step". One step proceeds as the sweep's caller contract demands: find
//! the earliest hit with time at most 1 over all live obstacles, advance
//! the body to the hit, mark a destructible obstacle destroyed, reflect the
//! velocity component the struck side indicates, and re-run the search for
//! the remainder of the step with the reflected, shrunken displacement —
//! rather than treating the step as fully consumed by its first collision.
//! Positions are integers, so each advance rounds the exact crossing point
//! towards the starting position; the rounding is pinned exactly in the
//! contracts.

use vstd::prelude::*;
use vstd::arithmetic::div_mod::{
    lemma_div_is_ordered, lemma_div_multiples_vanish, lemma_fundamental_div_mod, lemma_mod_bound,
};
use vstd::math::abs;
use crate::geom::{in_body_range, lemma_mul_in_bounds, within, Vec2, MAX_BODY_COORD};
use crate::toi::Toi;
use crate::collide::Side;
use crate::sweep::{radius_in_range, size_in_range, sweep_circle_vs_rect, sweep_spec};

verus! {

/// A static rectangular obstacle, with its destruction state.
///
/// A destructible obstacle (a brick) is destroyed by the first hit and
/// ignored from then on; an indestructible one (a wall block) reflects
/// every hit.
#[derive(Clone, Copy, PartialEq, Eq, Structural, Debug)]
pub struct Obstacle {
    pub rect: Vec2,
    pub size: Vec2,
    pub destructible: bool,
    pub destroyed: bool,
}

/// The obstacle's center and size are acceptable sweep inputs.
pub open spec fn obstacle_in_range(o: Obstacle) -> bool {
    in_body_range(o.rect) && size_in_range(o.size)
}

/// Every obstacle of the sequence is acceptable.
pub open spec fn obstacles_in_range(obs: Seq<Obstacle>) -> bool {
    forall|i: int| 0 <= i < obs.len() ==> obstacle_in_range(#[trigger] obs[i])
}

/// Two axis-aligned rectangles, given by center and full size, overlap;
/// rectangles that merely touch do not count. Compared in doubled
/// coordinates so half-extents stay exact.
pub open spec fn aabb_overlap_spec(a_pos: Vec2, a_size: Vec2, b_pos: Vec2, b_size: Vec2) -> bool {
    &&& 2 * a_pos.x - a_size.x < 2 * b_pos.x + b_size.x
    &&& 2 * b_pos.x - b_size.x < 2 * a_pos.x + a_size.x
    &&& 2 * a_pos.y - a_size.y < 2 * b_pos.y + b_size.y
    &&& 2 * b_pos.y - b_size.y < 2 * a_pos.y + a_size.y
}

/// Do two axis-aligned rectangles overlap? The caller's broad phase uses
/// this to skip obstacles far from a body's swept box before running the
/// exact sweep, and to detect discrete overlaps (a paddle catching a
/// falling reward).
pub fn aabb_overlap(a_pos: Vec2, a_size: Vec2, b_pos: Vec2, b_size: Vec2) -> (r: bool)
    requires
        in_body_range(a_pos),
        in_body_range(a_size),
        in_body_range(b_pos),
        in_body_range(b_size),
    ensures
        r == aabb_overlap_spec(a_pos, a_size, b_pos, b_size),
{
    2 * a_pos.x - a_size.x < 2 * b_pos.x + b_size.x && 2 * b_pos.x - b_size.x < 2 * a_pos.x
        + a_size.x && 2 * a_pos.y - a_size.y < 2 * b_pos.y + b_size.y && 2 * b_pos.y - b_size.y < 2
        * a_pos.y + a_size.y
}

/// What one obstacle contributes to the step: its sweep result, kept only
/// if the obstacle is still live and the hit falls within this step.
pub open spec fn obstacle_candidate(circle: Vec2, radius: i64, v: Vec2, o: Obstacle) -> Option<
    (Toi, Side),
> {
    if o.destroyed {
        Option::None
    } else {
        match sweep_spec(circle, radius, v, o.rect, o.size) {
            Option::Some((t, s)) => if t.num <= t.den {
                Option::Some((t, s))
            } else {
                Option::None
            },
            Option::None => Option::None,
        }
    }
}

/// The earliest hit among the first `n` obstacles, together with the index
/// of the obstacle struck; ties are won by the earliest-listed obstacle.
pub open spec fn first_hit_upto(
    circle: Vec2,
    radius: i64,
    v: Vec2,
    obs: Seq<Obstacle>,
    n: int,
) -> Option<(Toi, Side, int)>
    decreases n,
{
    if n <= 0 {
        Option::None
    } else {
        let prev = first_hit_upto(circle, radius, v, obs, n - 1);
        let cur = obstacle_candidate(circle, radius, v, obs[n - 1]);
        match (prev, cur) {
            (Option::None, Option::None) => Option::None,
            (Option::None, Option::Some((t, s))) => Option::Some((t, s, n - 1)),
            (Option::Some(p), Option::None) => Option::Some(p),
            (Option::Some((tp, sp, ip)), Option::Some((tc, sc))) => if tc.lt_spec(tp) {
                Option::Some((tc, sc, n - 1))
            } else {
                Option::Some((tp, sp, ip))
            },
        }
    }
}

/// The earliest hit of the moving circle against the live obstacles within
/// this step: the minimum crossing time at most 1, the struck side, and
/// the index of the struck obstacle, the earliest-listed obstacle winning
/// exact ties.
pub fn find_first_hit(circle: Vec2, radius: i64, v: Vec2, obstacles: &Vec<Obstacle>) -> (r: Option<
    (Toi, Side, usize),
>)
    requires
        in_body_range(circle),
        radius_in_range(radius),
        in_body_range(v),
        obstacles_in_range(obstacles@),
    ensures
        match r {
            Option::None => first_hit_upto(circle, radius, v, obstacles@, obstacles@.len() as int)
                is None,
            Option::Some((t, s, i)) => first_hit_upto(
                circle,
                radius,
                v,
                obstacles@,
                obstacles@.len() as int,
            ) == Option::Some((t, s, i as int)) && i < obstacles@.len() && t.wf()
                && t.is_positive() && t.num <= t.den,
        },
{
    let mut best: Option<(Toi, Side, usize)> = None;
    let mut i: usize = 0;
    while i < obstacles.len()
        invariant
            0 <= i <= obstacles@.len(),
            in_body_range(circle),
            radius_in_range(radius),
            in_body_range(v),
            obstacles_in_range(obstacles@),
            match best {
                Option::None => first_hit_upto(circle, radius, v, obstacles@, i as int) is None,
                Option::Some((t, s, k)) => first_hit_upto(circle, radius, v, obstacles@, i as int)
                    == Option::Some((t, s, k as int)) && k < i && t.wf() && t.is_positive()
                    && t.num <= t.den,
            },
        decreases obstacles@.len() - i,
    {
        let o = obstacles[i];
        if !o.destroyed {
            if let Some((t, s)) = sweep_circle_vs_rect(circle, radius, v, o.rect, o.size) {
                if t.le_one() {
                    let replace: bool = match &best {
                        Some((tb, _, _)) => t.lt(tb),
                        None => true,
                    };
                    if replace {
                        best = Some((t, s, i));
                    }
                }
            }
        }
        i = i + 1;
    }
    best
}

/// Velocity after striking side `s` of an obstacle from outside: the
/// component aimed at the struck face is negated, a component already
/// moving away is left alone, and `Inside` resolves to no reflection.
pub open spec fn reflect_outer_spec(v: Vec2, s: Side) -> Vec2 {
    match s {
        Side::Left => if v.x > 0 {
            Vec2 { x: (-v.x) as i64, y: v.y }
        } else {
            v
        },
        Side::Right => if v.x < 0 {
            Vec2 { x: (-v.x) as i64, y: v.y }
        } else {
            v
        },
        Side::Top => if v.y < 0 {
            Vec2 { x: v.x, y: (-v.y) as i64 }
        } else {
            v
        },
        Side::Bottom => if v.y > 0 {
            Vec2 { x: v.x, y: (-v.y) as i64 }
        } else {
            v
        },
        Side::Inside => v,
    }
}

/// Velocity after striking side `s` of an enclosing arena rectangle from
/// inside: the component aimed at the struck wall is negated. The bottom
/// side reflects nothing — the caller treats a body that reaches it as out
/// of play instead.
pub open spec fn reflect_inner_spec(v: Vec2, s: Side) -> Vec2 {
    match s {
        Side::Left => if v.x < 0 {
            Vec2 { x: (-v.x) as i64, y: v.y }
        } else {
            v
        },
        Side::Right => if v.x > 0 {
            Vec2 { x: (-v.x) as i64, y: v.y }
        } else {
            v
        },
        Side::Top => if v.y > 0 {
            Vec2 { x: v.x, y: (-v.y) as i64 }
        } else {
            v
        },
        Side::Bottom => v,
        Side::Inside => v,
    }
}

/// Reflect a velocity off side `s` of an obstacle hit from outside.
pub fn reflect_velocity(v: Vec2, s: Side) -> (r: Vec2)
    requires
        in_body_range(v),
    ensures
        r == reflect_outer_spec(v, s),
        in_body_range(r),
{
    match s {
        Side::Left => if v.x > 0 {
            Vec2 { x: -v.x, y: v.y }
        } else {
            v
        },
        Side::Right => if v.x < 0 {
            Vec2 { x: -v.x, y: v.y }
        } else {
            v
        },
        Side::Top => if v.y < 0 {
            Vec2 { x: v.x, y: -v.y }
        } else {
            v
        },
        Side::Bottom => if v.y > 0 {
            Vec2 { x: v.x, y: -v.y }
        } else {
            v
        },
        Side::Inside => v,
    }
}

/// Reflect a velocity off side `s` of an enclosing arena hit from inside.
pub fn reflect_velocity_inner(v: Vec2, s: Side) -> (r: Vec2)
    requires
        in_body_range(v),
    ensures
        r == reflect_inner_spec(v, s),
        in_body_range(r),
{
    match s {
        Side::Left => if v.x < 0 {
            Vec2 { x: -v.x, y: v.y }
        } else {
            v
        },
        Side::Right => if v.x > 0 {
            Vec2 { x: -v.x, y: v.y }
        } else {
            v
        },
        Side::Top => if v.y > 0 {
            Vec2 { x: v.x, y: -v.y }
        } else {
            v
        },
        Side::Bottom => v,
        Side::Inside => v,
    }
}

/// `c` scaled by the fraction `num / den`, rounded towards zero.
pub open spec fn scale_trunc(c: int, num: int, den: int) -> int {
    if c * num >= 0 {
        (c * num) / den
    } else {
        -((-(c * num)) / den)
    }
}

/// Scaling by a fraction at most 1 rounds towards zero and never grows the
/// magnitude.
proof fn lemma_scale_trunc_le(c: int, num: int, den: int)
    requires
        0 <= num <= den,
        0 < den,
    ensures
        c >= 0 ==> 0 <= scale_trunc(c, num, den) <= c,
        c < 0 ==> c <= scale_trunc(c, num, den) <= 0,
{
    if c >= 0 {
        assert(c * num >= 0) by (nonlinear_arith)
            requires
                c >= 0,
                num >= 0,
        ;
        assert(c * num <= den * c) by (nonlinear_arith)
            requires
                0 <= c,
                0 <= num <= den,
        ;
        lemma_div_is_ordered(0, c * num, den);
        lemma_div_is_ordered(c * num, den * c, den);
        lemma_div_multiples_vanish(c, den);
    } else {
        assert(c * num <= 0 && 0 <= -(c * num) && -(c * num) <= den * (-c)) by (nonlinear_arith)
            requires
                c < 0,
                0 <= num <= den,
        ;
        if c * num >= 0 {
            assert(c * num == 0);
            assert((c * num) / den == 0) by {
                lemma_div_multiples_vanish(0, den);
            }
        } else {
            lemma_div_is_ordered(0, -(c * num), den);
            lemma_div_is_ordered(-(c * num), den * (-c), den);
            lemma_div_multiples_vanish(-c, den);
        }
    }
}

/// One component of `v` scaled by the crossing time, rounded towards the
/// start of the motion.
fn scale_component(c: i64, num: i128, den: i128) -> (q: i64)
    requires
        -MAX_BODY_COORD <= c <= MAX_BODY_COORD,
        0 < den,
        0 <= num <= den,
        den <= 0x4000_0000_0000_0000,
    ensures
        q == scale_trunc(c as int, num as int, den as int),
        c >= 0 ==> 0 <= q <= c,
        c < 0 ==> c <= q <= 0,
{
    proof {
        lemma_mul_in_bounds(c as int, num as int, MAX_BODY_COORD as int, 0x4000_0000_0000_0000);
        lemma_scale_trunc_le(c as int, num as int, den as int);
    }
    let p: i128 = (c as i128) * num;
    if p >= 0 {
        let q: u128 = (p as u128) / (den as u128);
        q as i64
    } else {
        let q: u128 = ((-p) as u128) / (den as u128);
        -(q as i64)
    }
}

/// Negating the scaled value negates the scaling, for any fraction.
proof fn lemma_scale_trunc_neg(c: int, n: int, d: int)
    requires
        0 <= n <= d,
        0 < d,
    ensures
        scale_trunc(-c, n, d) == -scale_trunc(c, n, d),
{
    assert((-c) * n == -(c * n)) by (nonlinear_arith);
    if c * n == 0 {
        assert(c * n == d * 0) by (nonlinear_arith)
            requires
                c * n == 0,
        ;
        lemma_div_multiples_vanish(0, d);
    }
}

/// The advanced part and the remaining part of a displacement component
/// never add up to more than the component itself.
proof fn lemma_trunc_split(c: int, n: int, d: int)
    requires
        0 <= c,
        0 <= n <= d,
        0 < d,
    ensures
        (c * n) / d + (c * (d - n)) / d <= c,
{
    let a = c * n;
    let b = c * (d - n);
    lemma_fundamental_div_mod(a, d);
    lemma_fundamental_div_mod(b, d);
    lemma_mod_bound(a, d);
    lemma_mod_bound(b, d);
    assert(a >= 0 && b >= 0 && a + b == c * d) by (nonlinear_arith)
        requires
            0 <= c,
            0 <= n <= d,
            a == c * n,
            b == c * (d - n),
    ;
    assert((a / d) + (b / d) <= c) by (nonlinear_arith)
        requires
            a == d * (a / d) + a % d,
            b == d * (b / d) + b % d,
            0 <= a % d,
            0 <= b % d,
            a + b == c * d,
            0 < d,
    ;
}

/// Splitting a nonnegative component at a crossing time keeps the two
/// truncated parts within the component's magnitude.
proof fn lemma_advance_split(c: int, n: int, d: int)
    requires
        0 <= c,
        0 <= n <= d,
        0 < d,
    ensures
        scale_trunc(c, n, d) + scale_trunc(c, d - n, d) <= c,
        0 <= scale_trunc(c, n, d),
        0 <= scale_trunc(c, d - n, d),
{
    lemma_scale_trunc_le(c, n, d);
    lemma_scale_trunc_le(c, d - n, d);
    lemma_trunc_split(c, n, d);
    assert(c * n >= 0 && c * (d - n) >= 0) by (nonlinear_arith)
        requires
            0 <= c,
            0 <= n <= d,
    ;
}

/// The position advanced by `v` scaled by the crossing time `t`, each
/// component rounded towards the starting position.
pub open spec fn advance_spec(pos: Vec2, v: Vec2, t: Toi) -> Vec2 {
    Vec2 {
        x: (pos.x + scale_trunc(v.x as int, t.num as int, t.den as int)) as i64,
        y: (pos.y + scale_trunc(v.y as int, t.num as int, t.den as int)) as i64,
    }
}

/// Advance `pos` along the per-step displacement `v` up to the crossing
/// time `t` (a fraction of the step, at most 1).
pub fn advance(pos: Vec2, v: Vec2, t: &Toi) -> (r: Vec2)
    requires
        within(pos, 2 * MAX_BODY_COORD as int),
        in_body_range(v),
        t.wf(),
        0 <= t.num <= t.den,
    ensures
        r == advance_spec(pos, v, *t),
        abs(r.x - pos.x) <= abs(v.x as int),
        abs(r.y - pos.y) <= abs(v.y as int),
{
    let qx = scale_component(v.x, t.num, t.den);
    let qy = scale_component(v.y, t.num, t.den);
    Vec2 { x: pos.x + qx, y: pos.y + qy }
}

/// One full simulation step with re-sweeping, as a function of the inputs.
///
/// `vel` is the body's full per-step displacement, kept up to date through
/// reflections so the caller can reuse it next step; `rem` is what is left
/// of this step's displacement. Each round finds the earliest hit of `rem`
/// against the live obstacles; on a hit the body advances to the crossing,
/// a destructible obstacle is marked destroyed, both velocities reflect off
/// the struck side, and the remainder shrinks by the consumed fraction of
/// the step. `fuel` caps the number of rounds; a step that would bounce
/// more often than that simply stops at the last resolved hit. The result
/// is the final position, the final full velocity, the obstacles after the
/// step, and the number of hits resolved.
pub open spec fn tick_rec(
    pos: Vec2,
    radius: i64,
    vel: Vec2,
    rem: Vec2,
    obs: Seq<Obstacle>,
    fuel: nat,
) -> (Vec2, Vec2, Seq<Obstacle>, nat)
    decreases fuel,
{
    if fuel == 0 {
        (pos, vel, obs, 0)
    } else {
        match first_hit_upto(pos, radius, rem, obs, obs.len() as int) {
            Option::None => (
                Vec2 { x: (pos.x + rem.x) as i64, y: (pos.y + rem.y) as i64 },
                vel,
                obs,
                0,
            ),
            Option::Some((t, s, i)) => {
                let pos2 = advance_spec(pos, rem, t);
                let vel2 = reflect_outer_spec(vel, s);
                let remr = reflect_outer_spec(rem, s);
                let rem2 = Vec2 {
                    x: scale_trunc(remr.x as int, t.den - t.num, t.den as int) as i64,
                    y: scale_trunc(remr.y as int, t.den - t.num, t.den as int) as i64,
                };
                let obs2 = if obs[i].destructible {
                    obs.update(
                        i,
                        Obstacle {
                            rect: obs[i].rect,
                            size: obs[i].size,
                            destructible: obs[i].destructible,
                            destroyed: true,
                        },
                    )
                } else {
                    obs
                };
                let rec = tick_rec(pos2, radius, vel2, rem2, obs2, (fuel - 1) as nat);
                (rec.0, rec.1, rec.2, rec.3 + 1)
            },
        }
    }
}

fn tick_go(
    pos: Vec2,
    radius: i64,
    vel: Vec2,
    rem: Vec2,
    obstacles: &mut Vec<Obstacle>,
    fuel: u32,
) -> (r: (Vec2, Vec2, u32))
    requires
        radius_in_range(radius),
        in_body_range(vel),
        abs(pos.x as int) + abs(rem.x as int) <= MAX_BODY_COORD as int,
        abs(pos.y as int) + abs(rem.y as int) <= MAX_BODY_COORD as int,
        obstacles_in_range(old(obstacles)@),
    ensures
        ({
            let g = tick_rec(pos, radius, vel, rem, old(obstacles)@, fuel as nat);
            r.0 == g.0 && r.1 == g.1 && final(obstacles)@ == g.2 && r.2 == g.3
        }),
        r.2 <= fuel,
    decreases fuel,
{
    if fuel == 0 {
        return (pos, vel, 0);
    }
    match find_first_hit(pos, radius, rem, obstacles) {
        None => (Vec2 { x: pos.x + rem.x, y: pos.y + rem.y }, vel, 0),
        Some((t, s, i)) => {
            let pos2 = advance(pos, rem, &t);
            let vel2 = reflect_velocity(vel, s);
            let remr = reflect_velocity(rem, s);
            let rem2 = Vec2 {
                x: scale_component(remr.x, t.den - t.num, t.den),
                y: scale_component(remr.y, t.den - t.num, t.den),
            };
            let o = obstacles[i];
            if o.destructible {
                obstacles[i] = Obstacle {
                    rect: o.rect,
                    size: o.size,
                    destructible: o.destructible,
                    destroyed: true,
                };
            }
            proof {
                let n = t.num as int;
                let d = t.den as int;
                lemma_scale_trunc_neg(rem.x as int, n, d);
                lemma_scale_trunc_neg(rem.y as int, n, d);
                lemma_scale_trunc_neg(rem.x as int, d - n, d);
                lemma_scale_trunc_neg(rem.y as int, d - n, d);
                if rem.x >= 0 {
                    lemma_advance_split(rem.x as int, n, d);
                } else {
                    lemma_advance_split(-(rem.x as int), n, d);
                }
                if rem.y >= 0 {
                    lemma_advance_split(rem.y as int, n, d);
                } else {
                    lemma_advance_split(-(rem.y as int), n, d);
                }
            }
            let rec = tick_go(pos2, radius, vel2, rem2, obstacles, fuel - 1);
            (rec.0, rec.1, rec.2 + 1)
        },
    }
}

/// Run one full simulation step: sweep, advance, destroy, reflect, and
/// re-sweep the remainder, up to `max_bounces` resolutions.
///
/// Takes the body's position, radius and per-step displacement and the
/// live obstacle set; destroys every destructible obstacle that is hit;
/// returns the body's position and velocity after the step and how many
/// hits were resolved. The bound on the position leaves the body room to
/// travel: a step may shift each coordinate by at most the matching
/// velocity component, so every intermediate position stays in range.
pub fn simulate_tick(
    pos: Vec2,
    radius: i64,
    vel: Vec2,
    obstacles: &mut Vec<Obstacle>,
    max_bounces: u32,
) -> (r: (Vec2, Vec2, u32))
    requires
        within(pos, MAX_BODY_COORD as int / 2),
        within(vel, MAX_BODY_COORD as int / 2),
        radius_in_range(radius),
        obstacles_in_range(old(obstacles)@),
    ensures
        ({
            let g = tick_rec(pos, radius, vel, vel, old(obstacles)@, max_bounces as nat);
            r.0 == g.0 && r.1 == g.1 && final(obstacles)@ == g.2 && r.2 == g.3
        }),
        r.2 <= max_bounces,
{
    tick_go(pos, radius, vel, vel, obstacles, max_bounces)
}

} // verus!
