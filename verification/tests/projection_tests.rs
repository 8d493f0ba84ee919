use vectorcade::{project_line_3d, project_persp, rotate_point_y, Vec3Fx, FX_ONE};

// A 90 degree vertical field of view has a focal scale of exactly one.
const FOCAL: i64 = FX_ONE;
const ASPECT: i64 = FX_ONE;

fn v3(x: i64, y: i64, z: i64) -> Vec3Fx {
    Vec3Fx::new(x, y, z)
}

#[test]
fn project_point_in_front() {
    let p = v3(0, 0, -10 * FX_ONE);
    let result = project_persp(p, FOCAL, ASPECT);
    assert!(result.is_some());
    let projected = result.unwrap();
    assert_eq!(projected.x, 0);
    assert_eq!(projected.y, 0);
}

#[test]
fn project_point_behind() {
    let p = v3(0, 0, 10 * FX_ONE);
    let result = project_persp(p, FOCAL, ASPECT);
    assert!(result.is_none());
}

#[test]
fn project_line_both_in_front() {
    let a = v3(-FX_ONE, 0, -5 * FX_ONE);
    let b = v3(FX_ONE, 0, -5 * FX_ONE);
    let result = project_line_3d(a, b, FOCAL, ASPECT);
    assert!(result.is_some());
}

#[test]
fn project_line_both_behind() {
    let a = v3(-FX_ONE, 0, 5 * FX_ONE);
    let b = v3(FX_ONE, 0, 5 * FX_ONE);
    let result = project_line_3d(a, b, FOCAL, ASPECT);
    assert!(result.is_none());
}

#[test]
fn project_line_one_behind_clips() {
    let a = v3(0, 0, -5 * FX_ONE);
    let b = v3(0, 0, 5 * FX_ONE);
    let result = project_line_3d(a, b, FOCAL, ASPECT);
    assert!(result.is_some());
}

#[test]
fn project_line_keeps_endpoint_order() {
    // `a` behind, `b` in front: the front image must sit in the second
    // slot, matching project_persp on `b` exactly.
    let a = v3(0, FX_ONE, 5 * FX_ONE);
    let b = v3(0, FX_ONE, -5 * FX_ONE);
    let pair = project_line_3d(a, b, FOCAL, ASPECT).unwrap();
    let pb = project_persp(b, FOCAL, ASPECT).unwrap();
    assert_eq!(pair.1, pb);
}

#[test]
fn project_near_plane_boundary() {
    // Depth exactly at the near plane is rejected; one step past it is
    // projectable.
    assert!(project_persp(v3(0, 0, -66), FOCAL, ASPECT).is_none());
    assert!(project_persp(v3(0, 0, -67), FOCAL, ASPECT).is_some());
}

#[test]
fn rotate_point_y_90_degrees() {
    let p = v3(FX_ONE, 0, 0);
    // sin and cos of a quarter turn, exactly representable.
    let rotated = rotate_point_y(p, FX_ONE, 0);
    assert_eq!(rotated.x, 0);
    assert_eq!(rotated.y, 0);
    assert_eq!(rotated.z, -FX_ONE);
}

#[test]
fn rotate_point_y_180_degrees() {
    let p = v3(FX_ONE, 2 * FX_ONE, 0);
    let rotated = rotate_point_y(p, 0, -FX_ONE);
    assert_eq!(rotated.x, -FX_ONE);
    assert_eq!(rotated.y, 2 * FX_ONE);
    assert_eq!(rotated.z, 0);
}
