use swept_collision::collide::Side;
use swept_collision::geom::Vec2;
use swept_collision::step::{
    aabb_overlap, advance, find_first_hit, reflect_velocity, reflect_velocity_inner,
    simulate_tick, Obstacle,
};
use swept_collision::toi::Toi;

fn brick(x: i64, y: i64, w: i64, h: i64) -> Obstacle {
    Obstacle { rect: Vec2::new(x, y), size: Vec2::new(w, h), destructible: true, destroyed: false }
}

#[test]
fn nearer_of_two_obstacles_wins() {
    // Two rectangles straddling the path at different distances: the sweep
    // with minimum-tracking selects the nearer one, whatever the order.
    let near = brick(0, 30, 10, 10);
    let far = brick(0, 50, 10, 10);
    let circle = Vec2::new(0, 0);
    let v = Vec2::new(0, 60);

    let obstacles = vec![near, far];
    let (t, side, index) =
        find_first_hit(circle, 4, v, &obstacles).expect("both rectangles lie on the path");
    assert_eq!(index, 0);
    assert_eq!(side, Side::Bottom);
    // Near face at 25, leading point at 4: time (25 - 4) / 60 = 21/60.
    assert_eq!(t.num * 60, 21 * t.den);

    let swapped = vec![far, near];
    let (t2, side2, index2) =
        find_first_hit(circle, 4, v, &swapped).expect("both rectangles lie on the path");
    assert_eq!(index2, 1);
    assert_eq!(side2, Side::Bottom);
    assert_eq!(t2.num * 60, 21 * t2.den);
}

#[test]
fn destroyed_obstacles_are_skipped() {
    let mut gone = brick(0, 30, 10, 10);
    gone.destroyed = true;
    let behind = brick(0, 50, 10, 10);
    let obstacles = vec![gone, behind];
    let (_, _, index) = find_first_hit(Vec2::new(0, 0), 4, Vec2::new(0, 60), &obstacles)
        .expect("the second rectangle is still live");
    assert_eq!(index, 1);
}

#[test]
fn hits_beyond_the_step_are_ignored() {
    // The rectangle is on the path but too far to reach within one step.
    let obstacles = vec![brick(0, 200, 10, 10)];
    assert!(find_first_hit(Vec2::new(0, 0), 4, Vec2::new(0, 60), &obstacles).is_none());
}

#[test]
fn tick_advances_reflects_and_destroys() {
    // Ball at the origin, radius 1, moving up 10 per step; a brick at
    // (0, 5) of size 2 x 2. Hit at 3/10 of the step: the ball advances to
    // (0, 3), the brick dies, the velocity reflects to (0, -10), and the
    // remaining 7/10 of the step carries the ball down to (0, -4).
    let mut obstacles = vec![brick(0, 5, 2, 2)];
    let (pos, vel, hits) = simulate_tick(Vec2::new(0, 0), 1, Vec2::new(0, 10), &mut obstacles, 8);
    assert_eq!(hits, 1);
    assert_eq!((pos.x, pos.y), (0, -4));
    assert_eq!((vel.x, vel.y), (0, -10));
    assert!(obstacles[0].destroyed);
}

#[test]
fn tick_on_a_wall_reflects_without_destroying() {
    let wall = Obstacle {
        rect: Vec2::new(0, 5),
        size: Vec2::new(2, 2),
        destructible: false,
        destroyed: false,
    };
    let mut obstacles = vec![wall];
    let (pos, vel, hits) = simulate_tick(Vec2::new(0, 0), 1, Vec2::new(0, 10), &mut obstacles, 8);
    assert_eq!(hits, 1);
    assert_eq!((pos.x, pos.y), (0, -4));
    assert_eq!((vel.x, vel.y), (0, -10));
    assert!(!obstacles[0].destroyed);
}

#[test]
fn tick_without_obstacles_moves_the_full_step() {
    let mut obstacles: Vec<Obstacle> = Vec::new();
    let (pos, vel, hits) =
        simulate_tick(Vec2::new(3, -7), 4, Vec2::new(20, 30), &mut obstacles, 8);
    assert_eq!(hits, 0);
    assert_eq!((pos.x, pos.y), (23, 23));
    assert_eq!((vel.x, vel.y), (20, 30));
}

#[test]
fn tick_resolves_two_bounces_in_one_step() {
    // A corridor of two walls: the ball bounces off the upper wall, then
    // off the lower wall, within a single step.
    let upper = Obstacle {
        rect: Vec2::new(0, 6),
        size: Vec2::new(20, 2),
        destructible: false,
        destroyed: false,
    };
    let lower = Obstacle {
        rect: Vec2::new(0, -6),
        size: Vec2::new(20, 2),
        destructible: false,
        destroyed: false,
    };
    let mut obstacles = vec![upper, lower];
    // From (0, 0) with radius 1 and velocity (0, 20): up 4 to the upper
    // wall's face at 5, down 8 to the lower face at -5, and the last 8
    // back up, grazing the upper face exactly at the end of the step.
    let (pos, vel, hits) = simulate_tick(Vec2::new(0, 0), 1, Vec2::new(0, 20), &mut obstacles, 8);
    assert_eq!(hits, 3);
    assert_eq!((pos.x, pos.y), (0, 4));
    assert_eq!((vel.x, vel.y), (0, -20));
}

#[test]
fn reflection_flips_only_the_component_aimed_at_the_face() {
    let v = Vec2::new(3, -4);
    let left = reflect_velocity(v, Side::Left);
    assert_eq!((left.x, left.y), (-3, -4));
    let right = reflect_velocity(v, Side::Right);
    assert_eq!((right.x, right.y), (3, -4));
    let top = reflect_velocity(v, Side::Top);
    assert_eq!((top.x, top.y), (3, 4));
    let bottom = reflect_velocity(v, Side::Bottom);
    assert_eq!((bottom.x, bottom.y), (3, -4));
    let inside = reflect_velocity(v, Side::Inside);
    assert_eq!((inside.x, inside.y), (3, -4));
}

#[test]
fn inner_reflection_mirrors_the_arena_walls() {
    let v = Vec2::new(-3, 4);
    let left = reflect_velocity_inner(v, Side::Left);
    assert_eq!((left.x, left.y), (3, 4));
    let top = reflect_velocity_inner(v, Side::Top);
    assert_eq!((top.x, top.y), (-3, -4));
    // The bottom of the arena reflects nothing: the ball is out of play.
    let bottom = reflect_velocity_inner(v, Side::Bottom);
    assert_eq!((bottom.x, bottom.y), (-3, 4));
}

#[test]
fn advance_rounds_towards_the_start() {
    // Two thirds of (10, -10): exactly (6.66.., -6.66..), rounded to
    // (6, -6) towards the starting position.
    let t = Toi::new(2, 3);
    let moved = advance(Vec2::new(100, 100), Vec2::new(10, -10), &t);
    assert_eq!((moved.x, moved.y), (106, 94));
}

#[test]
fn aabb_overlap_is_strict() {
    let a = Vec2::new(0, 0);
    let a_size = Vec2::new(10, 10);
    assert!(aabb_overlap(a, a_size, Vec2::new(9, 0), Vec2::new(10, 10)));
    // Touching edges do not overlap.
    assert!(!aabb_overlap(a, a_size, Vec2::new(10, 0), Vec2::new(10, 10)));
    assert!(!aabb_overlap(a, a_size, Vec2::new(0, 11), Vec2::new(10, 10)));
    assert!(aabb_overlap(a, a_size, Vec2::new(7, -7), Vec2::new(5, 5)));
}
