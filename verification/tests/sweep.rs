use swept_collision::collide::Side;
use swept_collision::geom::Vec2;
use swept_collision::sweep::{isqrt64, sweep_circle_vs_rect};

#[test]
fn head_on_hit_reports_left_side_and_exact_time() {
    // A circle at the origin, radius 4, moving right at 10 per step,
    // against a rectangle centered at (100, 0) of size 10 x 20: the near
    // face is at x = 95, so the time is (95 - 4) / 10 = 91/10.
    let hit = sweep_circle_vs_rect(
        Vec2::new(0, 0),
        4,
        Vec2::new(10, 0),
        Vec2::new(100, 0),
        Vec2::new(10, 20),
    );
    let (t, side) = hit.expect("a head-on approach hits");
    assert_eq!(side, Side::Left);
    assert_eq!(t.num * 10, 91 * t.den);
    assert!(t.num > 0 && t.den > 0);
}

#[test]
fn zero_velocity_reports_nothing() {
    // A stationary circle cannot newly collide, wherever it stands.
    let configs = [
        (Vec2::new(0, 0), 4, Vec2::new(10, 10), Vec2::new(4, 4)),
        (Vec2::new(10, 10), 100, Vec2::new(10, 10), Vec2::new(4, 4)),
        (Vec2::new(-3, 7), 0, Vec2::new(0, 0), Vec2::new(0, 0)),
    ];
    for (circle, radius, rect, size) in configs {
        let hit = sweep_circle_vs_rect(circle, radius, Vec2::new(0, 0), rect, size);
        assert!(hit.is_none());
    }
}

#[test]
fn corner_hit_resolves_deterministically() {
    // The trajectory passes exactly through the rectangle's bottom-left
    // corner at (8, 8). Both adjacent sides cross there at time 8; the
    // solver deterministically picks the earlier-listed side, Left.
    let hit = sweep_circle_vs_rect(
        Vec2::new(0, 0),
        0,
        Vec2::new(1, 1),
        Vec2::new(10, 10),
        Vec2::new(4, 4),
    );
    let (t, side) = hit.expect("the corner is on the trajectory");
    assert!(t.eq_int(8));
    assert_eq!(side, Side::Left);
    for _ in 0..10 {
        let again = sweep_circle_vs_rect(
            Vec2::new(0, 0),
            0,
            Vec2::new(1, 1),
            Vec2::new(10, 10),
            Vec2::new(4, 4),
        );
        assert_eq!(again, hit);
    }
}

#[test]
fn vertical_approach_hits_bottom_at_ninety_five() {
    // Circle at (0, -100), radius 4, moving up by 1 per unit time, against
    // a 2 x 2 rectangle at the origin: the leading point starts at -96,
    // the near face is at -1, so the time of impact is 95, side Bottom.
    let hit = sweep_circle_vs_rect(
        Vec2::new(0, -100),
        4,
        Vec2::new(0, 1),
        Vec2::new(0, 0),
        Vec2::new(2, 2),
    );
    let (t, side) = hit.expect("the rectangle sits on the path");
    assert!(t.eq_int(95));
    assert_eq!(side, Side::Bottom);
}

#[test]
fn moving_away_reports_nothing() {
    // Velocity points away from the obstacle: no collision, however close
    // the circle already stands.
    let far = sweep_circle_vs_rect(
        Vec2::new(0, 0),
        4,
        Vec2::new(-5, 0),
        Vec2::new(100, 0),
        Vec2::new(10, 20),
    );
    assert!(far.is_none());
    let near = sweep_circle_vs_rect(
        Vec2::new(90, 0),
        4,
        Vec2::new(-5, 0),
        Vec2::new(100, 0),
        Vec2::new(10, 20),
    );
    assert!(near.is_none());
    let below = sweep_circle_vs_rect(
        Vec2::new(0, -10),
        4,
        Vec2::new(0, -3),
        Vec2::new(0, 0),
        Vec2::new(4, 4),
    );
    assert!(below.is_none());
}

#[test]
fn diagonal_approach_hits_with_positive_finite_time() {
    // An oblique approach: whatever representative point wins, the
    // reported time is strictly positive with a positive denominator.
    let hit = sweep_circle_vs_rect(
        Vec2::new(0, 0),
        4,
        Vec2::new(30, 40),
        Vec2::new(60, 80),
        Vec2::new(20, 20),
    );
    let (t, _) = hit.expect("the path leads into the rectangle");
    assert!(t.num > 0);
    assert!(t.den > 0);
}

#[test]
fn zero_size_rectangle_reports_nothing() {
    // A zero-size rectangle degenerates every edge: no crossing, no fault.
    let hit = sweep_circle_vs_rect(
        Vec2::new(0, 0),
        4,
        Vec2::new(10, 10),
        Vec2::new(50, 50),
        Vec2::new(0, 0),
    );
    assert!(hit.is_none());
}

#[test]
fn integer_square_root_matches_squares() {
    assert_eq!(isqrt64(0), 0);
    assert_eq!(isqrt64(1), 1);
    assert_eq!(isqrt64(3), 1);
    assert_eq!(isqrt64(4), 2);
    assert_eq!(isqrt64(15), 3);
    assert_eq!(isqrt64(16), 4);
    assert_eq!(isqrt64(24), 4);
    assert_eq!(isqrt64(25), 5);
    assert_eq!(isqrt64(u64::MAX), 4294967295);
}
