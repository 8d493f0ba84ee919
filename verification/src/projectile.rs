//! Projectile kinematics for 2D and 3D shooter games.
//!
//! Both projectile kinds follow the same one-way state machine: alive
//! until expiry, then dead for good. Dead projectiles ignore further
//! updates and never register hits. The 3D kind expires by cumulative
//! traveled distance, the 2D kind by a countdown lifetime where zero
//! means it never expires on its own.

use vstd::prelude::*;
use crate::fx::{
    div_trunc, fits_coord, lemma_div_trunc_abs_le, lemma_div_trunc_le, lemma_mul_bound,
    lemma_mul_congr, COORD_LIMIT, FX_ONE,
};
use crate::collision::sq;
use crate::linear::{Vec2Fx, Vec3Fx};

verus! {

/// Largest position magnitude the update helpers accept; far beyond any
/// play field, while keeping one more step free of overflow.
pub const FX_POS_LIMIT: i64 = 0x2000_0000_0000;

/// A position coordinate within the working range of the updates.
pub open spec fn fits_pos(v: int) -> bool {
    -FX_POS_LIMIT <= v <= FX_POS_LIMIT
}

/// `r` is `d` scaled to unit length in fixed point, with `len` the
/// integer square root of `d`'s squared length.
pub open spec fn is_scaled_unit(r: Vec3Fx, d: Vec3Fx, len: int) -> bool {
    &&& 1 <= len
    &&& len * len <= sq(d.x as int) + sq(d.y as int) + sq(d.z as int)
    &&& sq(d.x as int) + sq(d.y as int) + sq(d.z as int) < (len + 1) * (len + 1)
    &&& r.x == div_trunc(d.x * FX_ONE, len)
    &&& r.y == div_trunc(d.y * FX_ONE, len)
    &&& r.z == div_trunc(d.z * FX_ONE, len)
}

/// Integer square root by bisection: the largest value whose square does
/// not exceed `n`.
fn isqrt(n: u64) -> (r: u64)
    ensures
        r * r <= n,
        n < (r + 1) * (r + 1),
        r <= 0xFFFF_FFFF,
{
    let mut lo: u64 = 0;
    let mut hi: u64 = 0xFFFF_FFFF;
    proof {
        assert((0xFFFF_FFFFu64 + 1) * (0xFFFF_FFFFu64 + 1) > n as int);
    }
    while lo < hi
        invariant
            lo <= hi,
            hi <= 0xFFFF_FFFF,
            lo * lo <= n,
            n < (hi + 1) * (hi + 1),
        decreases hi - lo,
    {
        let mid: u64 = lo + (hi - lo + 1) / 2;
        proof {
            lemma_mul_bound(mid as int, mid as int, 0xFFFF_FFFF, 0xFFFF_FFFF);
        }
        if mid * mid <= n {
            lo = mid;
        } else {
            hi = mid - 1;
        }
    }
    lo
}

/// A 3D projectile: position, unit direction, speed, and distance-based
/// expiry.
#[derive(Clone, Copy, Debug, PartialEq, Eq, Structural)]
pub struct Projectile3D {
    /// Current position in world space.
    pub pos: Vec3Fx,
    /// Direction of travel, scaled to unit length; zero if the spawning
    /// direction was degenerate.
    pub dir: Vec3Fx,
    /// Speed in units per second.
    pub speed: i64,
    /// Maximum travel distance before despawn.
    pub max_dist: i64,
    /// Distance traveled so far.
    pub traveled: i64,
    /// Whether the projectile is still active.
    pub alive: bool,
}

/// One update step of a 3D projectile: a no-op when dead; otherwise the
/// position advances along the direction by `speed * dt`, the traveled
/// total grows by the same distance, and the projectile dies the moment
/// the total reaches its maximum.
pub open spec fn spec_step3(p: Projectile3D, dt: int) -> Projectile3D {
    if !p.alive {
        p
    } else {
        let distance = div_trunc(p.speed * dt, FX_ONE as int);
        let traveled2 = p.traveled + distance;
        Projectile3D {
            pos: Vec3Fx {
                x: (p.pos.x + div_trunc(p.dir.x * distance, FX_ONE as int)) as i64,
                y: (p.pos.y + div_trunc(p.dir.y * distance, FX_ONE as int)) as i64,
                z: (p.pos.z + div_trunc(p.dir.z * distance, FX_ONE as int)) as i64,
            },
            dir: p.dir,
            speed: p.speed,
            max_dist: p.max_dist,
            traveled: traveled2 as i64,
            alive: traveled2 < p.max_dist,
        }
    }
}

/// Survivors of updating every entry of a list and dropping the dead,
/// in their original relative order.
pub open spec fn spec_survivors3(s: Seq<Projectile3D>, dt: int) -> Seq<Projectile3D>
    decreases s.len(),
{
    if s.len() == 0 {
        Seq::empty()
    } else {
        let prior = spec_survivors3(s.drop_last(), dt);
        let u = spec_step3(s.last(), dt);
        if u.alive {
            prior.push(u)
        } else {
            prior
        }
    }
}

impl Projectile3D {
    /// Magnitude bounds that keep one update step free of overflow,
    /// together with the expiry invariant: a live projectile has not yet
    /// passed its maximum distance.
    pub open spec fn wf(self) -> bool {
        &&& -2 * FX_ONE <= self.dir.x <= 2 * FX_ONE
        &&& -2 * FX_ONE <= self.dir.y <= 2 * FX_ONE
        &&& -2 * FX_ONE <= self.dir.z <= 2 * FX_ONE
        &&& 0 <= self.speed <= COORD_LIMIT
        &&& 0 <= self.max_dist <= COORD_LIMIT
        &&& 0 <= self.traveled <= 5 * COORD_LIMIT
        &&& self.alive ==> self.traveled <= self.max_dist
    }

    /// Spawn a projectile at `origin`, flying along `direction` (scaled
    /// to unit length, or zero if degenerate) with the given speed and
    /// maximum travel distance.
    pub fn new(origin: Vec3Fx, direction: Vec3Fx, speed: i64, max_dist: i64) -> (r: Projectile3D)
        requires
            direction.fits(),
            0 <= speed <= COORD_LIMIT,
            0 <= max_dist <= COORD_LIMIT,
        ensures
            r.pos == origin,
            r.speed == speed,
            r.max_dist == max_dist,
            r.traveled == 0,
            r.alive,
            r.wf(),
            direction.x == 0 && direction.y == 0 && direction.z == 0 ==> r.dir == (Vec3Fx {
                x: 0i64,
                y: 0i64,
                z: 0i64,
            }),
            !(direction.x == 0 && direction.y == 0 && direction.z == 0) ==> exists|len: int|
                is_scaled_unit(r.dir, direction, len),
    {
        let dir = normalize_or_zero(direction);
        Projectile3D { pos: origin, dir, speed, max_dist, traveled: 0, alive: true }
    }

    /// Advance the projectile by one time step. Dead projectiles are
    /// left untouched; a projectile that reaches its maximum distance
    /// during the step ends it dead.
    pub fn update(&mut self, dt: i64)
        requires
            old(self).wf(),
            0 <= dt <= 4 * FX_ONE,
            fits_pos(old(self).pos.x as int),
            fits_pos(old(self).pos.y as int),
            fits_pos(old(self).pos.z as int),
        ensures
            *final(self) == spec_step3(*old(self), dt as int),
            final(self).wf(),
    {
        if !self.alive {
            return;
        }
        let sw: i128 = self.speed as i128;
        let dw: i128 = dt as i128;
        proof {
            lemma_mul_bound(sw as int, dw as int, COORD_LIMIT as int, 4 * FX_ONE as int);
            assert(0 <= sw as int * dw as int) by (nonlinear_arith)
                requires
                    0 <= sw as int,
                    0 <= dw as int,
            ;
            assert(sw as int * dw as int <= (4 * COORD_LIMIT as int) * (FX_ONE as int))
                by (nonlinear_arith)
                requires
                    0 <= sw as int <= COORD_LIMIT as int,
                    0 <= dw as int <= 4 * FX_ONE as int,
            ;
            lemma_div_trunc_le(sw as int * dw as int, 4 * COORD_LIMIT as int, FX_ONE as int);
            lemma_mul_congr(sw as int, dw as int, self.speed as int, dt as int);
        }
        let distance: i64 = ((sw * dw) / (FX_ONE as i128)) as i64;
        let mvx = scaled_component(self.dir.x, distance);
        let mvy = scaled_component(self.dir.y, distance);
        let mvz = scaled_component(self.dir.z, distance);
        self.pos = Vec3Fx { x: self.pos.x + mvx, y: self.pos.y + mvy, z: self.pos.z + mvz };
        self.traveled = self.traveled + distance;
        if self.traveled >= self.max_dist {
            self.alive = false;
        }
    }

    /// Whether the projectile currently hits a spherical hitbox: a dead
    /// projectile never hits, whatever the geometry says.
    pub fn hits_sphere(&self, center: Vec3Fx, radius: i64) -> (r: bool)
        requires
            fits_pos(self.pos.x as int),
            fits_pos(self.pos.y as int),
            fits_pos(self.pos.z as int),
            center.fits(),
            fits_coord(radius as int),
        ensures
            r == (self.alive && sq(self.pos.x - center.x) + sq(self.pos.y - center.y) + sq(
                self.pos.z - center.z,
            ) <= sq(radius as int)),
            !self.alive ==> !r,
    {
        if !self.alive {
            return false;
        }
        let dx: i128 = (self.pos.x as i128) - (center.x as i128);
        let dy: i128 = (self.pos.y as i128) - (center.y as i128);
        let dz: i128 = (self.pos.z as i128) - (center.z as i128);
        let rw: i128 = radius as i128;
        proof {
            let lim: int = 2 * FX_POS_LIMIT as int;
            lemma_mul_bound(dx as int, dx as int, lim, lim);
            lemma_mul_bound(dy as int, dy as int, lim, lim);
            lemma_mul_bound(dz as int, dz as int, lim, lim);
            lemma_mul_bound(rw as int, rw as int, COORD_LIMIT as int, COORD_LIMIT as int);
        }
        dx * dx + dy * dy + dz * dz <= rw * rw
    }
}

/// One coordinate of the movement `dir * distance`, scaled back from the
/// fixed-point product.
fn scaled_component(dir_c: i64, distance: i64) -> (r: i64)
    requires
        -2 * FX_ONE <= dir_c <= 2 * FX_ONE,
        0 <= distance <= 4 * COORD_LIMIT,
    ensures
        r == div_trunc(dir_c * distance, FX_ONE as int),
        -8 * COORD_LIMIT <= r <= 8 * COORD_LIMIT,
{
    let cw: i128 = dir_c as i128;
    let dw: i128 = distance as i128;
    proof {
        lemma_mul_bound(cw as int, dw as int, 2 * FX_ONE as int, 4 * COORD_LIMIT as int);
        lemma_div_trunc_abs_le(cw as int * dw as int, 8 * COORD_LIMIT as int, FX_ONE as int);
        lemma_mul_congr(cw as int, dw as int, dir_c as int, distance as int);
    }
    ((cw * dw) / (FX_ONE as i128)) as i64
}

/// Scale a direction vector to unit length in fixed point, or to zero
/// when it has no direction at all.
fn normalize_or_zero(direction: Vec3Fx) -> (r: Vec3Fx)
    requires
        direction.fits(),
    ensures
        -FX_ONE <= r.x <= FX_ONE,
        -FX_ONE <= r.y <= FX_ONE,
        -FX_ONE <= r.z <= FX_ONE,
        direction.x == 0 && direction.y == 0 && direction.z == 0 ==> r == (Vec3Fx {
            x: 0i64,
            y: 0i64,
            z: 0i64,
        }),
        !(direction.x == 0 && direction.y == 0 && direction.z == 0) ==> exists|len: int|
            is_scaled_unit(r, direction, len),
{
    if direction.x == 0 && direction.y == 0 && direction.z == 0 {
        return Vec3Fx { x: 0, y: 0, z: 0 };
    }
    let xw: i128 = direction.x as i128;
    let yw: i128 = direction.y as i128;
    let zw: i128 = direction.z as i128;
    proof {
        let lim: int = COORD_LIMIT as int;
        lemma_mul_bound(xw as int, xw as int, lim, lim);
        lemma_mul_bound(yw as int, yw as int, lim, lim);
        lemma_mul_bound(zw as int, zw as int, lim, lim);
        assert(xw as int * xw as int >= 0 && yw as int * yw as int >= 0 && zw as int * zw as int
            >= 0) by (nonlinear_arith);
    }
    let sum: i128 = xw * xw + yw * yw + zw * zw;
    let sumu: u64 = sum as u64;
    let lenu: u64 = isqrt(sumu);
    proof {
        assert(sumu as int == sum as int);
        assert(lenu * lenu <= sumu && sumu < (lenu + 1) * (lenu + 1));
    }
    let len: i64 = lenu as i64;
    proof {
        assert(len as int == lenu as int);
        lemma_mul_congr(len as int, len as int, lenu as int, lenu as int);
        lemma_mul_congr(len as int + 1, len as int + 1, lenu as int + 1, lenu as int + 1);
        if len == 0 {
            assert(sum as int == 0);
            assert(xw as int == 0 && yw as int == 0 && zw as int == 0) by (nonlinear_arith)
                requires
                    xw as int * xw as int >= 0,
                    yw as int * yw as int >= 0,
                    zw as int * zw as int >= 0,
                    xw as int * xw as int + yw as int * yw as int + zw as int * zw as int == 0,
            ;
            assert(false);
        }
        assert(-(len as int) <= xw as int <= len as int) by (nonlinear_arith)
            requires
                xw as int * xw as int <= sum as int,
                (sum as int) < ((len as int + 1) * (len as int + 1)),
                0 <= len as int,
        ;
        assert(-(len as int) <= yw as int <= len as int) by (nonlinear_arith)
            requires
                yw as int * yw as int <= sum as int,
                (sum as int) < ((len as int + 1) * (len as int + 1)),
                0 <= len as int,
        ;
        assert(-(len as int) <= zw as int <= len as int) by (nonlinear_arith)
            requires
                zw as int * zw as int <= sum as int,
                (sum as int) < ((len as int + 1) * (len as int + 1)),
                0 <= len as int,
        ;
        lemma_mul_congr(xw as int, xw as int, direction.x as int, direction.x as int);
        lemma_mul_congr(yw as int, yw as int, direction.y as int, direction.y as int);
        lemma_mul_congr(zw as int, zw as int, direction.z as int, direction.z as int);
    }
    let nx = unit_component(direction.x, len);
    let ny = unit_component(direction.y, len);
    let nz = unit_component(direction.z, len);
    let result = Vec3Fx { x: nx, y: ny, z: nz };
    proof {
        assert(is_scaled_unit(result, direction, len as int));
    }
    result
}

/// One coordinate of a normalized vector: the coordinate scaled by
/// `FX_ONE` over the vector's length. Because no coordinate exceeds the
/// length, the result is at most one in fixed point.
fn unit_component(c: i64, len: i64) -> (r: i64)
    requires
        fits_coord(c as int),
        1 <= len,
        -len <= c <= len,
    ensures
        r == div_trunc(c * FX_ONE, len as int),
        -FX_ONE <= r <= FX_ONE,
{
    let cw: i128 = c as i128;
    let ow: i128 = FX_ONE as i128;
    proof {
        lemma_mul_bound(cw as int, ow as int, COORD_LIMIT as int, FX_ONE as int);
        lemma_mul_congr(cw as int, ow as int, c as int, FX_ONE as int);
        assert(-(FX_ONE as int * len as int) <= cw as int * ow as int <= FX_ONE as int * len
            as int) by (nonlinear_arith)
            requires
                -(len as int) <= cw as int <= len as int,
                ow as int == FX_ONE as int,
                1 <= len as int,
        ;
        lemma_div_trunc_abs_le(cw as int * ow as int, FX_ONE as int, len as int);
    }
    ((cw * ow) / (len as i128)) as i64
}

/// Update every projectile in the list, then remove the dead ones,
/// keeping the survivors in their original relative order.
pub fn update_projectiles_3d(projectiles: &mut Vec<Projectile3D>, dt: i64)
    requires
        forall|j: int| 0 <= j < old(projectiles)@.len() ==> (#[trigger] old(projectiles)@[j]).wf()
            && fits_pos(old(projectiles)@[j].pos.x as int) && fits_pos(
            old(projectiles)@[j].pos.y as int,
        ) && fits_pos(old(projectiles)@[j].pos.z as int),
        0 <= dt <= 4 * FX_ONE,
    ensures
        final(projectiles)@ == spec_survivors3(old(projectiles)@, dt as int),
{
    let mut out: Vec<Projectile3D> = Vec::new();
    let n = projectiles.len();
    let mut i: usize = 0;
    while i < n
        invariant
            i <= n,
            n == projectiles@.len(),
            *projectiles == *old(projectiles),
            0 <= dt <= 4 * FX_ONE,
            forall|j: int| 0 <= j < projectiles@.len() ==> (#[trigger] projectiles@[j]).wf()
                && fits_pos(projectiles@[j].pos.x as int) && fits_pos(
                projectiles@[j].pos.y as int,
            ) && fits_pos(projectiles@[j].pos.z as int),
            out@ == spec_survivors3(projectiles@.take(i as int), dt as int),
        decreases n - i,
    {
        let mut p = projectiles[i];
        p.update(dt);
        if p.alive {
            out.push(p);
        }
        proof {
            assert(projectiles@.take(i as int + 1).drop_last() =~= projectiles@.take(i as int));
            assert(projectiles@.take(i as int + 1).last() == projectiles@[i as int]);
        }
        i = i + 1;
    }
    proof {
        assert(projectiles@.take(projectiles@.len() as int) =~= projectiles@);
    }
    *projectiles = out;
}

/// A 2D projectile: position, velocity, and time-based expiry.
#[derive(Clone, Copy, Debug, PartialEq, Eq, Structural)]
pub struct Projectile2D {
    /// Current position in world space.
    pub pos: Vec2Fx,
    /// Velocity: direction and speed combined, units per second.
    pub vel: Vec2Fx,
    /// Whether the projectile is still active.
    pub alive: bool,
    /// Remaining lifetime in seconds; zero means it never expires on
    /// its own.
    pub lifetime: i64,
}

/// One update step of a 2D projectile: a no-op when dead; otherwise the
/// position advances by `vel * dt`, and a strictly positive lifetime
/// counts down, killing the projectile when it runs out.
pub open spec fn spec_step2(p: Projectile2D, dt: int) -> Projectile2D {
    if !p.alive {
        p
    } else {
        let pos2 = Vec2Fx {
            x: (p.pos.x + div_trunc(p.vel.x * dt, FX_ONE as int)) as i64,
            y: (p.pos.y + div_trunc(p.vel.y * dt, FX_ONE as int)) as i64,
        };
        if p.lifetime > 0 {
            Projectile2D {
                pos: pos2,
                vel: p.vel,
                alive: p.lifetime - dt > 0,
                lifetime: (p.lifetime - dt) as i64,
            }
        } else {
            Projectile2D { pos: pos2, vel: p.vel, alive: true, lifetime: p.lifetime }
        }
    }
}

impl Projectile2D {
    /// Magnitude bounds that keep one update step free of overflow.
    pub open spec fn wf(self) -> bool {
        &&& self.vel.fits()
        &&& -2 * COORD_LIMIT <= self.lifetime <= COORD_LIMIT
    }

    /// Spawn a projectile with a velocity and a lifetime; a lifetime of
    /// zero never expires on its own.
    pub fn new(pos: Vec2Fx, vel: Vec2Fx, lifetime: i64) -> (r: Projectile2D)
        ensures
            r == (Projectile2D { pos, vel, alive: true, lifetime }),
    {
        Projectile2D { pos, vel, alive: true, lifetime }
    }

    /// Advance the projectile by one time step. Dead projectiles are
    /// left untouched; a positive lifetime that runs out during the step
    /// leaves the projectile dead.
    pub fn update(&mut self, dt: i64)
        requires
            old(self).wf(),
            0 <= dt <= 4 * FX_ONE,
            fits_pos(old(self).pos.x as int),
            fits_pos(old(self).pos.y as int),
        ensures
            *final(self) == spec_step2(*old(self), dt as int),
            final(self).wf(),
    {
        if !self.alive {
            return;
        }
        let mvx = vel_component(self.vel.x, dt);
        let mvy = vel_component(self.vel.y, dt);
        self.pos = Vec2Fx { x: self.pos.x + mvx, y: self.pos.y + mvy };
        if self.lifetime > 0 {
            self.lifetime = self.lifetime - dt;
            if self.lifetime <= 0 {
                self.alive = false;
            }
        }
    }

    /// Whether the projectile currently hits a circular hitbox: a dead
    /// projectile never hits, whatever the geometry says.
    pub fn hits_circle(&self, center: Vec2Fx, radius: i64) -> (r: bool)
        requires
            fits_pos(self.pos.x as int),
            fits_pos(self.pos.y as int),
            center.fits(),
            fits_coord(radius as int),
        ensures
            r == (self.alive && sq(self.pos.x - center.x) + sq(self.pos.y - center.y) <= sq(
                radius as int,
            )),
            !self.alive ==> !r,
    {
        if !self.alive {
            return false;
        }
        let dx: i128 = (self.pos.x as i128) - (center.x as i128);
        let dy: i128 = (self.pos.y as i128) - (center.y as i128);
        let rw: i128 = radius as i128;
        proof {
            let lim: int = 2 * FX_POS_LIMIT as int;
            lemma_mul_bound(dx as int, dx as int, lim, lim);
            lemma_mul_bound(dy as int, dy as int, lim, lim);
            lemma_mul_bound(rw as int, rw as int, COORD_LIMIT as int, COORD_LIMIT as int);
        }
        dx * dx + dy * dy <= rw * rw
    }
}

/// One coordinate of the movement `vel * dt`, scaled back from the
/// fixed-point product.
fn vel_component(vel_c: i64, dt: i64) -> (r: i64)
    requires
        fits_coord(vel_c as int),
        0 <= dt <= 4 * FX_ONE,
    ensures
        r == div_trunc(vel_c * dt, FX_ONE as int),
        -4 * COORD_LIMIT <= r <= 4 * COORD_LIMIT,
{
    let cw: i128 = vel_c as i128;
    let dw: i128 = dt as i128;
    proof {
        lemma_mul_bound(cw as int, dw as int, COORD_LIMIT as int, 4 * FX_ONE as int);
        lemma_div_trunc_abs_le(cw as int * dw as int, 4 * COORD_LIMIT as int, FX_ONE as int);
        lemma_mul_congr(cw as int, dw as int, vel_c as int, dt as int);
    }
    ((cw * dw) / (FX_ONE as i128)) as i64
}

} // verus!
