use vectorcade::{line_aabb_intersect, line_circle_intersect, Aabb, Circle, Vec2Fx, FX_ONE};

fn v(x: i64, y: i64) -> Vec2Fx {
    Vec2Fx::new(x, y)
}

#[test]
fn aabb_overlap() {
    let a = Aabb::from_center(v(0, 0), Vec2Fx::splat(FX_ONE));
    let b = Aabb::from_center(v(3 * FX_ONE / 2, 0), Vec2Fx::splat(FX_ONE));
    assert!(a.overlaps(&b));

    let c = Aabb::from_center(v(3 * FX_ONE, 0), Vec2Fx::splat(FX_ONE));
    assert!(!a.overlaps(&c));
}

#[test]
fn circle_overlap() {
    let a = Circle::new(v(0, 0), FX_ONE);
    let b = Circle::new(v(3 * FX_ONE / 2, 0), FX_ONE);
    assert!(a.overlaps_circle(&b));

    let c = Circle::new(v(3 * FX_ONE, 0), FX_ONE);
    assert!(!a.overlaps_circle(&c));
}

#[test]
fn circle_aabb_overlap() {
    let circle = Circle::new(v(2 * FX_ONE, 0), FX_ONE / 2);
    let aabb = Aabb::from_center(v(0, 0), Vec2Fx::splat(2 * FX_ONE));
    assert!(circle.overlaps_aabb(&aabb));
}

#[test]
fn line_aabb() {
    let aabb = Aabb::from_center(v(0, 0), Vec2Fx::splat(FX_ONE));
    assert!(line_aabb_intersect(v(-2 * FX_ONE, 0), v(2 * FX_ONE, 0), &aabb));
    assert!(!line_aabb_intersect(v(-2 * FX_ONE, 2 * FX_ONE), v(2 * FX_ONE, 2 * FX_ONE), &aabb));
}

#[test]
fn line_circle() {
    let circle = Circle::new(v(0, 0), FX_ONE);
    assert!(line_circle_intersect(v(-2 * FX_ONE, 0), v(2 * FX_ONE, 0), &circle));
    assert!(!line_circle_intersect(v(-2 * FX_ONE, 2 * FX_ONE), v(2 * FX_ONE, 2 * FX_ONE), &circle));
}

#[test]
fn segment_inside_circle_intersects() {
    let circle = Circle::new(v(0, 0), 10 * FX_ONE);
    assert!(line_circle_intersect(v(-FX_ONE, 0), v(FX_ONE, 0), &circle));
}

#[test]
fn vertical_segment_outside_box_is_rejected() {
    let aabb = Aabb::from_center(v(0, 0), Vec2Fx::splat(FX_ONE));
    assert!(!line_aabb_intersect(v(3 * FX_ONE, -2 * FX_ONE), v(3 * FX_ONE, 2 * FX_ONE), &aabb));
    assert!(line_aabb_intersect(v(0, -2 * FX_ONE), v(0, 2 * FX_ONE), &aabb));
}

#[test]
fn touching_shapes_count_as_overlap() {
    let a = Aabb::from_center(v(0, 0), Vec2Fx::splat(FX_ONE));
    let b = Aabb::from_center(v(2 * FX_ONE, 0), Vec2Fx::splat(FX_ONE));
    assert!(a.overlaps(&b));

    let c1 = Circle::new(v(0, 0), FX_ONE);
    let c2 = Circle::new(v(2 * FX_ONE, 0), FX_ONE);
    assert!(c1.overlaps_circle(&c2));
}

#[test]
fn aabb_accessors() {
    let a = Aabb::from_min_max(v(-FX_ONE, 0), v(3 * FX_ONE, 2 * FX_ONE));
    assert_eq!(a.center(), v(FX_ONE, FX_ONE));
    assert_eq!(a.half_extents(), v(2 * FX_ONE, FX_ONE));
    assert!(a.contains_point(v(0, FX_ONE)));
    assert!(!a.contains_point(v(-2 * FX_ONE, FX_ONE)));
    let e = a.expand(FX_ONE);
    assert_eq!(e.min, v(-2 * FX_ONE, -FX_ONE));
    assert_eq!(e.max, v(4 * FX_ONE, 3 * FX_ONE));
}

#[test]
fn circle_contains_point_closed() {
    let c = Circle::new(v(0, 0), FX_ONE);
    assert!(c.contains_point(v(FX_ONE, 0)));
    assert!(!c.contains_point(v(FX_ONE, FX_ONE)));
}
