use vectorcade::{update_projectiles_3d, Projectile2D, Projectile3D, Vec2Fx, Vec3Fx, FX_ONE};

fn v2(x: i64, y: i64) -> Vec2Fx {
    Vec2Fx::new(x, y)
}

fn v3(x: i64, y: i64, z: i64) -> Vec3Fx {
    Vec3Fx::new(x, y, z)
}

#[test]
fn projectile_3d_moves() {
    let mut p = Projectile3D::new(v3(0, 0, 0), v3(0, 0, FX_ONE), 10 * FX_ONE, 100 * FX_ONE);
    p.update(FX_ONE);
    assert_eq!(p.pos.z, 10 * FX_ONE);
    assert_eq!(p.traveled, 10 * FX_ONE);
    assert!(p.alive);
}

#[test]
fn projectile_3d_despawns_at_max_dist() {
    let mut p = Projectile3D::new(v3(0, 0, 0), v3(FX_ONE, 0, 0), 100 * FX_ONE, 50 * FX_ONE);
    p.update(FX_ONE);
    assert!(!p.alive);
}

#[test]
fn projectile_3d_hits_sphere() {
    let p = Projectile3D::new(v3(FX_ONE, 0, 0), v3(FX_ONE, 0, 0), 10 * FX_ONE, 100 * FX_ONE);
    assert!(p.hits_sphere(v3(3 * FX_ONE / 2, 0, 0), FX_ONE));
    assert!(!p.hits_sphere(v3(10 * FX_ONE, 0, 0), FX_ONE));
}

#[test]
fn projectile_2d_moves() {
    let mut p = Projectile2D::new(v2(0, 0), v2(5 * FX_ONE, 0), 0);
    p.update(2 * FX_ONE);
    assert_eq!(p.pos.x, 10 * FX_ONE);
    assert!(p.alive);
}

#[test]
fn projectile_2d_despawns_on_lifetime() {
    let mut p = Projectile2D::new(v2(0, 0), v2(FX_ONE, 0), FX_ONE);
    p.update(FX_ONE / 2);
    assert!(p.alive);
    p.update(FX_ONE * 6 / 10);
    assert!(!p.alive);
}

#[test]
fn projectile_2d_hits_circle() {
    let p = Projectile2D::new(v2(FX_ONE, 0), v2(FX_ONE, 0), 5 * FX_ONE);
    assert!(p.hits_circle(v2(3 * FX_ONE / 2, 0), FX_ONE));
    assert!(!p.hits_circle(v2(10 * FX_ONE, 0), FX_ONE));
}

#[test]
fn update_projectiles_removes_dead() {
    let mut projectiles = vec![
        Projectile3D::new(v3(0, 0, 0), v3(FX_ONE, 0, 0), 100 * FX_ONE, 10 * FX_ONE),
        Projectile3D::new(v3(0, 0, 0), v3(0, FX_ONE, 0), 10 * FX_ONE, 100 * FX_ONE),
    ];
    update_projectiles_3d(&mut projectiles, FX_ONE);
    assert_eq!(projectiles.len(), 1);
    assert!(projectiles[0].alive);
}

#[test]
fn dead_projectiles_never_hit() {
    let mut p3 = Projectile3D::new(v3(0, 0, 0), v3(FX_ONE, 0, 0), 100 * FX_ONE, 10 * FX_ONE);
    p3.update(FX_ONE);
    assert!(!p3.alive);
    // Geometrically right on top of the target, still no hit.
    assert!(!p3.hits_sphere(p3.pos, 10 * FX_ONE));

    let mut p2 = Projectile2D::new(v2(0, 0), v2(FX_ONE, 0), FX_ONE);
    p2.update(2 * FX_ONE);
    assert!(!p2.alive);
    assert!(!p2.hits_circle(p2.pos, 10 * FX_ONE));
}

#[test]
fn dead_projectile_update_is_noop() {
    let mut p = Projectile3D::new(v3(0, 0, 0), v3(FX_ONE, 0, 0), 100 * FX_ONE, 10 * FX_ONE);
    p.update(FX_ONE);
    let snapshot = p;
    p.update(FX_ONE);
    assert_eq!(p, snapshot);
}

#[test]
fn compaction_preserves_survivor_order() {
    let mut projectiles = vec![
        Projectile3D::new(v3(FX_ONE, 0, 0), v3(0, 0, 0), 0, FX_ONE),
        Projectile3D::new(v3(0, 0, 0), v3(FX_ONE, 0, 0), 100 * FX_ONE, 10 * FX_ONE),
        Projectile3D::new(v3(2 * FX_ONE, 0, 0), v3(0, 0, 0), 0, FX_ONE),
    ];
    update_projectiles_3d(&mut projectiles, FX_ONE);
    assert_eq!(projectiles.len(), 2);
    assert_eq!(projectiles[0].pos.x, FX_ONE);
    assert_eq!(projectiles[1].pos.x, 2 * FX_ONE);
}

#[test]
fn degenerate_direction_normalizes_to_zero() {
    let p = Projectile3D::new(v3(0, 0, 0), v3(0, 0, 0), 10 * FX_ONE, 100 * FX_ONE);
    assert_eq!(p.dir, v3(0, 0, 0));
}
