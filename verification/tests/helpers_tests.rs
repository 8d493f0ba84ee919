use vectorcade::{
    angle_diff, depth_intensity, inv_lerp, lerp, normalize_angle, remap, wrap_position,
    wrap_range, wrap_signed_unit, Vec2Fx, FX_ONE, FX_PI,
};

#[test]
fn lerp_endpoints_and_midpoint() {
    assert_eq!(lerp(0, 10 * FX_ONE, 0), 0);
    assert_eq!(lerp(0, 10 * FX_ONE, FX_ONE), 10 * FX_ONE);
    assert_eq!(lerp(0, 10 * FX_ONE, FX_ONE / 2), 5 * FX_ONE);
    assert_eq!(lerp(10 * FX_ONE, 0, FX_ONE / 2), 5 * FX_ONE);
}

#[test]
fn inv_lerp_recovers_parameter() {
    assert_eq!(inv_lerp(0, 10 * FX_ONE, 5 * FX_ONE), FX_ONE / 2);
    assert_eq!(inv_lerp(0, 10 * FX_ONE, 0), 0);
    assert_eq!(inv_lerp(0, 10 * FX_ONE, 10 * FX_ONE), FX_ONE);
    // Coincident endpoints degrade to zero.
    assert_eq!(inv_lerp(FX_ONE, FX_ONE, 5 * FX_ONE), 0);
    // Decreasing ranges work too.
    assert_eq!(inv_lerp(10 * FX_ONE, 0, 5 * FX_ONE), FX_ONE / 2);
}

#[test]
fn remap_between_ranges() {
    // 5 in [0,10] maps to 150 in [100,200].
    assert_eq!(
        remap(5 * FX_ONE, 0, 10 * FX_ONE, 100 * FX_ONE, 200 * FX_ONE),
        150 * FX_ONE
    );
}

#[test]
fn wrap_range_behavior() {
    // Inside stays put; outside wraps by whole periods; empty range
    // degrades to the lower bound.
    assert_eq!(wrap_range(5, 0, 10), 5);
    assert_eq!(wrap_range(15, 0, 10), 5);
    assert_eq!(wrap_range(-3, 0, 10), 7);
    assert_eq!(wrap_range(123, 9, 9), 9);
    assert_eq!(wrap_range(123, 9, 3), 9);
}

#[test]
fn normalize_angle_large_input() {
    assert_eq!(normalize_angle(10 * FX_PI), 0);
    assert_eq!(normalize_angle(3 * FX_PI), -FX_PI);
    assert_eq!(normalize_angle(FX_PI / 2), FX_PI / 2);
}

#[test]
fn angle_diff_shortest_delta() {
    assert_eq!(angle_diff(0, FX_PI / 2), FX_PI / 2);
    assert_eq!(angle_diff(FX_PI / 2, 0), -FX_PI / 2);
    assert_eq!(angle_diff(0, 3 * FX_PI), -FX_PI);
}

#[test]
fn depth_intensity_falloff() {
    let near = 10 * FX_ONE;
    let far = 20 * FX_ONE;
    assert_eq!(depth_intensity(5 * FX_ONE, near, far), FX_ONE);
    assert_eq!(depth_intensity(near, near, far), FX_ONE);
    assert_eq!(depth_intensity(far, near, far), 0);
    assert_eq!(depth_intensity(25 * FX_ONE, near, far), 0);
    assert_eq!(depth_intensity(15 * FX_ONE, near, far), FX_ONE / 2);
}

#[test]
fn wrap_position_wraps_both_axes() {
    let p = Vec2Fx::new(FX_ONE + FX_ONE / 10, -FX_ONE - FX_ONE / 10);
    let w = wrap_position(p);
    assert_eq!(w.x, p.x - 2 * FX_ONE);
    assert_eq!(w.y, p.y + 2 * FX_ONE);
}

#[test]
fn wrap_handles_huge_inputs() {
    let big: i64 = (1 << 40) + 12345;
    let r = normalize_angle(big);
    assert!(-FX_PI <= r && r < FX_PI);
    assert_eq!((big - r) % (2 * FX_PI), 0);

    let s = wrap_signed_unit(-(1 << 31) - 7);
    assert!(-FX_ONE <= s && s < FX_ONE);
    assert_eq!((-(1i64 << 31) - 7 - s) % (2 * FX_ONE), 0);
}
