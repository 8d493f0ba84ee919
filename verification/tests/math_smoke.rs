use vectorcade::{clamp, wrap_signed_unit, FX_ONE};

#[test]
fn clamp_works() {
    assert_eq!(clamp(2 * FX_ONE, 0, FX_ONE), FX_ONE);
    assert_eq!(clamp(-FX_ONE, 0, FX_ONE), 0);
    assert_eq!(clamp(FX_ONE / 2, 0, FX_ONE), FX_ONE / 2);
}

#[test]
fn wrap_unit_works() {
    // 1.1 wraps to -0.9 and -1.1 wraps to 0.9, one full period apart.
    let one_point_one = FX_ONE + FX_ONE / 10;
    assert_eq!(wrap_signed_unit(one_point_one), one_point_one - 2 * FX_ONE);
    assert_eq!(wrap_signed_unit(-one_point_one), -one_point_one + 2 * FX_ONE);
}
