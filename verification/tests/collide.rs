use swept_collision::collide::{check_collide_point_nearest_edge, Edge, Side};
use swept_collision::geom::{cross2d, Vec2};
use swept_collision::sweep::sweep_circle_vs_rect;

#[test]
fn test_time_of_vetex_edge_parallel() {
    // A point at (0, -5) moving up at unit speed towards the segment from
    // (-1, 0) to (1, 0): the unique crossing time is 5.
    let result = swept_collision::collide::edge_crossing_times(
        Vec2::new(0, -5),
        Vec2::new(0, 1),
        Vec2::new(-1, 0),
        Vec2::new(1, 0),
    );
    println!("result: {:?}", result);
    assert_eq!(result.len(), 2);
    let t = result[0].expect("a non-parallel trajectory has a crossing time");
    assert!(t.eq_int(5));
    assert!(result[1].is_none());
}

#[test]
fn test_time_of_collide_circle_rect() {
    // A fast ball just below a 10 x 10 brick, wound back a quarter step
    // along its velocity, in fixed-point units of 1/500000.
    let vx: i64 = -4747641; // -9.495282
    let vy: i64 = 141341650; // 282.6833
    let v = Vec2::new(vx, vy);
    let circle = Vec2::new(
        13794645 - (vx * 625) / 10000, // 27.58929 - v.x * 0.015625 * 4.0
        2173352 - (vy * 625) / 10000, // 4.3467054 - v.y * 0.015625 * 4.0
    );
    let radius: i64 = 2000000; // 4.0

    let rect = Vec2::new(15000000, 3000000); // (30.0, 6.0)
    let rect_size = Vec2::new(5000000, 5000000); // (10.0, 10.0)

    let collision = sweep_circle_vs_rect(circle, radius, v, rect, rect_size);
    println!("result:{:?}", collision);

    // The sweep is a pure function: a second identical query agrees.
    let again = sweep_circle_vs_rect(circle, radius, v, rect, rect_size);
    assert_eq!(collision, again);
    if let Some((t, _)) = collision {
        assert!(t.num > 0);
        assert!(t.den > 0);
    }
}

#[test]
fn cross_product_signs_orientation() {
    assert_eq!(cross2d(Vec2::new(1, 0), Vec2::new(0, 1)), 1);
    assert_eq!(cross2d(Vec2::new(0, 1), Vec2::new(1, 0)), -1);
    assert_eq!(cross2d(Vec2::new(3, 4), Vec2::new(6, 8)), 0);
    assert_eq!(cross2d(Vec2::new(2, 5), Vec2::new(7, 3)), 2 * 3 - 5 * 7);
}

#[test]
fn parallel_trajectory_reports_no_crossing() {
    // Motion parallel to the segment: no single crossing time exists.
    let result = swept_collision::collide::edge_crossing_times(
        Vec2::new(0, -5),
        Vec2::new(1, 0),
        Vec2::new(-1, 0),
        Vec2::new(1, 0),
    );
    assert_eq!(result.len(), 2);
    assert!(result[0].is_none());
    assert!(result[1].is_none());
}

#[test]
fn nearest_edge_picks_smallest_positive_time() {
    // Two segments across the path at different heights: the nearer wins;
    // a segment behind the start (negative time) is ignored.
    let edges = vec![
        Edge { a: Vec2::new(-10, 8), b: Vec2::new(10, 8), side: Side::Top },
        Edge { a: Vec2::new(-10, 3), b: Vec2::new(10, 3), side: Side::Bottom },
        Edge { a: Vec2::new(-10, -4), b: Vec2::new(10, -4), side: Side::Inside },
    ];
    let hit = check_collide_point_nearest_edge(Vec2::new(0, 0), Vec2::new(0, 1), &edges);
    let (t, side) = hit.expect("the path crosses two segments ahead");
    assert!(t.eq_int(3));
    assert_eq!(side, Side::Bottom);
}

#[test]
fn nearest_edge_ignores_crossings_outside_segment() {
    // The crossing with the segment's line lands beyond its endpoints.
    let edges = vec![
        Edge { a: Vec2::new(5, 8), b: Vec2::new(10, 8), side: Side::Top },
    ];
    let hit = check_collide_point_nearest_edge(Vec2::new(0, 0), Vec2::new(0, 1), &edges);
    assert!(hit.is_none());
}
