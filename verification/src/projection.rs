//! Perspective projection with near-plane clipping, and rotation about
//! the vertical axis.
//!
//! The camera looks down the negative Z axis. A point is projectable when
//! its camera-space depth `-z` exceeds the near plane. The focal scale
//! (the reciprocal tangent of half the vertical field of view) and the
//! aspect ratio arrive as fixed-point scalars: the library works in exact
//! integers and leaves trigonometry to the caller.

use vstd::prelude::*;
use crate::fx::{
    div_trunc, lemma_div_trunc_abs_le, lemma_div_trunc_bounds, lemma_div_trunc_le,
    lemma_mul_bound, lemma_mul_congr, lerp, FX_ONE,
};
use crate::linear::{Vec2Fx, Vec3Fx};

verus! {

/// Minimum camera-space depth for projection, about a thousandth of a
/// unit in fixed point.
pub const FX_NEAR_PLANE: i64 = 66;

/// Clipped endpoints are placed this far beyond the near plane so that
/// they stay strictly projectable: one representable step.
pub const FX_CLIP_OFFSET: i64 = 1;

/// Largest coordinate magnitude the projection helpers accept; keeps the
/// products with the focal scale inside 128 bits and the results inside
/// 64 bits.
pub const FX_PROJ_LIMIT: i64 = 0x200_0000;

/// A value within the working range of the projection helpers.
pub open spec fn fits_proj(v: int) -> bool {
    -FX_PROJ_LIMIT <= v <= FX_PROJ_LIMIT
}

/// All three coordinates within the working range of the projection.
pub open spec fn vec3_fits_proj(p: Vec3Fx) -> bool {
    fits_proj(p.x as int) && fits_proj(p.y as int) && fits_proj(p.z as int)
}

/// Screen X of a projected point: `x * focal / aspect / z`, each division
/// truncated, with `z` the camera-space depth `-p.z`.
pub open spec fn spec_project_x(p: Vec3Fx, focal: int, aspect: int) -> int {
    div_trunc(div_trunc(p.x * focal, aspect) * FX_ONE, -p.z)
}

/// Screen Y of a projected point: `y * focal / z`, truncated.
pub open spec fn spec_project_y(p: Vec3Fx, focal: int) -> int {
    div_trunc(p.y * focal, -p.z)
}

/// `v` is the projection of `p` under the given focal scale and aspect.
pub open spec fn is_projection(v: Vec2Fx, p: Vec3Fx, focal: int, aspect: int) -> bool {
    v.x == spec_project_x(p, focal, aspect) && v.y == spec_project_y(p, focal)
}

/// Project a 3D point to 2D screen coordinates, or `None` when the point
/// is at or behind the near plane.
pub fn project_persp(p: Vec3Fx, focal: i64, aspect: i64) -> (r: Option<Vec2Fx>)
    requires
        vec3_fits_proj(p),
        1 <= focal <= FX_PROJ_LIMIT,
        1 <= aspect <= FX_PROJ_LIMIT,
    ensures
        r is Some <==> -p.z > FX_NEAR_PLANE,
        r matches Some(v) ==> is_projection(v, p, focal as int, aspect as int),
{
    let z: i64 = -p.z;
    if z <= FX_NEAR_PLANE {
        return None;
    }
    let xw: i128 = p.x as i128;
    let yw: i128 = p.y as i128;
    let fw: i128 = focal as i128;
    proof {
        let lim: int = FX_PROJ_LIMIT as int;
        lemma_mul_bound(xw as int, fw as int, lim, lim);
        lemma_mul_bound(yw as int, fw as int, lim, lim);
    }
    let xf: i128 = xw * fw;
    let yf: i128 = yw * fw;
    let tx: i128 = xf / (aspect as i128);
    proof {
        lemma_div_trunc_bounds(xf as int, aspect as int);
        lemma_mul_bound(
            tx as int,
            FX_ONE as int,
            (FX_PROJ_LIMIT as int) * (FX_PROJ_LIMIT as int),
            FX_ONE as int,
        );
    }
    let txs: i128 = tx * (FX_ONE as i128);
    proof {
        let m: int = 0x1000_0000_0000_0000;
        assert(m * 67 <= m * (z as int)) by (nonlinear_arith)
            requires
                67 <= z as int,
                0 <= m,
        ;
        lemma_div_trunc_abs_le(txs as int, m, z as int);
        lemma_div_trunc_bounds(yf as int, z as int);
    }
    let x: i128 = txs / (z as i128);
    let y: i128 = yf / (z as i128);
    let v = Vec2Fx { x: x as i64, y: y as i64 };
    proof {
        lemma_mul_congr(xw as int, fw as int, p.x as int, focal as int);
        lemma_mul_congr(yw as int, fw as int, p.y as int, focal as int);
        lemma_mul_congr(
            tx as int,
            FX_ONE as int,
            div_trunc(p.x * focal, aspect as int),
            FX_ONE as int,
        );
        assert(v.x == spec_project_x(p, focal as int, aspect as int));
        assert(v.y == spec_project_y(p, focal as int));
    }
    Some(v)
}

/// The interpolation parameter at which a segment from depth `zf` (in
/// front) toward depth `zb` (behind) crosses the clip plane.
pub open spec fn spec_clip_t(zf: int, zb: int) -> int {
    div_trunc((zf - (FX_NEAR_PLANE + FX_CLIP_OFFSET)) * FX_ONE, zf - zb)
}

/// The clipped replacement for the endpoint behind the camera: the
/// segment point at the clip parameter, whose depth is exactly the near
/// plane plus the clip offset.
pub open spec fn spec_clip_point(front: Vec3Fx, behind: Vec3Fx) -> Vec3Fx {
    let t = spec_clip_t(-front.z, -behind.z);
    Vec3Fx {
        x: (front.x + div_trunc((behind.x - front.x) * t, FX_ONE as int)) as i64,
        y: (front.y + div_trunc((behind.y - front.y) * t, FX_ONE as int)) as i64,
        z: (-(FX_NEAR_PLANE + FX_CLIP_OFFSET)) as i64,
    }
}

/// Project a 3D line segment to 2D, clipping it against the near plane.
///
/// Both endpoints behind the camera yield `None`; both in front project
/// independently; with exactly one behind, that endpoint is replaced by
/// the segment's crossing of the clip plane, and the pair keeps the
/// original endpoint order.
pub fn project_line_3d(a: Vec3Fx, b: Vec3Fx, focal: i64, aspect: i64) -> (r: Option<
    (Vec2Fx, Vec2Fx),
>)
    requires
        vec3_fits_proj(a),
        vec3_fits_proj(b),
        1 <= focal <= FX_PROJ_LIMIT,
        1 <= aspect <= FX_PROJ_LIMIT,
    ensures
        r is Some <==> (-a.z > FX_NEAR_PLANE || -b.z > FX_NEAR_PLANE),
        -a.z > FX_NEAR_PLANE && -b.z > FX_NEAR_PLANE ==> (r matches Some(pr) && is_projection(
            pr.0,
            a,
            focal as int,
            aspect as int,
        ) && is_projection(pr.1, b, focal as int, aspect as int)),
        -a.z > FX_NEAR_PLANE && -b.z <= FX_NEAR_PLANE ==> (r matches Some(pr) && is_projection(
            pr.0,
            a,
            focal as int,
            aspect as int,
        ) && is_projection(pr.1, spec_clip_point(a, b), focal as int, aspect as int)),
        -a.z <= FX_NEAR_PLANE && -b.z > FX_NEAR_PLANE ==> (r matches Some(pr) && is_projection(
            pr.0,
            spec_clip_point(b, a),
            focal as int,
            aspect as int,
        ) && is_projection(pr.1, b, focal as int, aspect as int)),
{
    let za: i64 = -a.z;
    let zb: i64 = -b.z;
    if za <= FX_NEAR_PLANE && zb <= FX_NEAR_PLANE {
        return None;
    }
    if za > FX_NEAR_PLANE && zb > FX_NEAR_PLANE {
        let pa = match project_persp(a, focal, aspect) {
            Some(v) => v,
            None => {
                return None;
            },
        };
        let pb = match project_persp(b, focal, aspect) {
            Some(v) => v,
            None => {
                return None;
            },
        };
        return Some((pa, pb));
    }
    let a_in_front = za > FX_NEAR_PLANE;
    let front = if a_in_front {
        a
    } else {
        b
    };
    let behind = if a_in_front {
        b
    } else {
        a
    };
    let clipped = clip_to_near_plane(front, behind);
    let p_front = match project_persp(front, focal, aspect) {
        Some(v) => v,
        None => {
            return None;
        },
    };
    let p_clipped = match project_persp(clipped, focal, aspect) {
        Some(v) => v,
        None => {
            return None;
        },
    };
    if a_in_front {
        Some((p_front, p_clipped))
    } else {
        Some((p_clipped, p_front))
    }
}

/// Replace the endpoint behind the camera with the segment's crossing of
/// the clip plane, one step beyond the near plane. The depth is set
/// exactly, so the result is always projectable; the lateral coordinates
/// are interpolated and stay between the endpoints'.
fn clip_to_near_plane(front: Vec3Fx, behind: Vec3Fx) -> (r: Vec3Fx)
    requires
        vec3_fits_proj(front),
        vec3_fits_proj(behind),
        -front.z > FX_NEAR_PLANE,
        -behind.z <= FX_NEAR_PLANE,
    ensures
        r == spec_clip_point(front, behind),
        vec3_fits_proj(r),
        -r.z == FX_NEAR_PLANE + FX_CLIP_OFFSET,
{
    let zf: i64 = -front.z;
    let zback: i64 = -behind.z;
    let num: i64 = zf - (FX_NEAR_PLANE + FX_CLIP_OFFSET);
    let den: i64 = zf - zback;
    let nw: i128 = num as i128;
    let ow: i128 = FX_ONE as i128;
    proof {
        lemma_mul_bound(nw as int, ow as int, 2 * FX_PROJ_LIMIT as int, FX_ONE as int);
    }
    let tw: i128 = nw * ow;
    let t128: i128 = tw / (den as i128);
    proof {
        lemma_mul_congr(nw as int, ow as int, num as int, FX_ONE as int);
        assert(num * FX_ONE <= FX_ONE * (den as int)) by (nonlinear_arith)
            requires
                0 <= num,
                num <= den as int,
        ;
        assert(0 <= num * FX_ONE) by (nonlinear_arith)
            requires
                0 <= num,
        ;
        lemma_div_trunc_le(tw as int, FX_ONE as int, den as int);
    }
    let t: i64 = t128 as i64;
    let cx: i64 = lerp(front.x, behind.x, t);
    let cy: i64 = lerp(front.y, behind.y, t);
    proof {
        lemma_lerp_between(front.x as int, behind.x as int, t as int);
        lemma_lerp_between(front.y as int, behind.y as int, t as int);
    }
    Vec3Fx { x: cx, y: cy, z: -(FX_NEAR_PLANE + FX_CLIP_OFFSET) }
}

/// With an interpolation parameter in `[0, FX_ONE]`, the interpolated
/// value stays between the endpoints.
proof fn lemma_lerp_between(a: int, b: int, t: int)
    requires
        0 <= t <= FX_ONE,
    ensures
        a <= b ==> a <= a + div_trunc((b - a) * t, FX_ONE as int) <= b,
        b <= a ==> b <= a + div_trunc((b - a) * t, FX_ONE as int) <= a,
{
    if a <= b {
        assert(0 <= (b - a) * t) by (nonlinear_arith)
            requires
                a <= b,
                0 <= t,
        ;
        assert((b - a) * t <= (b - a) * FX_ONE) by (nonlinear_arith)
            requires
                a <= b,
                t <= FX_ONE,
        ;
        lemma_div_trunc_le((b - a) * t, b - a, FX_ONE as int);
    } else {
        assert(0 <= (a - b) * t) by (nonlinear_arith)
            requires
                b <= a,
                0 <= t,
        ;
        assert((a - b) * t <= (a - b) * FX_ONE) by (nonlinear_arith)
            requires
                b <= a,
                t <= FX_ONE,
        ;
        lemma_div_trunc_le((a - b) * t, a - b, FX_ONE as int);
        assert((b - a) * t == -((a - b) * t)) by (nonlinear_arith);
    }
}

/// Rotate a point about the vertical (Y) axis by the angle whose sine
/// and cosine are given in fixed point: positive angles turn
/// counter-clockwise seen from above.
pub fn rotate_point_y(p: Vec3Fx, sin_fx: i64, cos_fx: i64) -> (r: Vec3Fx)
    requires
        p.fits(),
        -FX_ONE <= sin_fx <= FX_ONE,
        -FX_ONE <= cos_fx <= FX_ONE,
    ensures
        r.x == div_trunc(p.x * cos_fx + p.z * sin_fx, FX_ONE as int),
        r.y == p.y,
        r.z == div_trunc(p.z * cos_fx - p.x * sin_fx, FX_ONE as int),
{
    let xw: i128 = p.x as i128;
    let zw: i128 = p.z as i128;
    let sw: i128 = sin_fx as i128;
    let cw: i128 = cos_fx as i128;
    proof {
        let lim: int = crate::fx::COORD_LIMIT as int;
        lemma_mul_bound(xw as int, cw as int, lim, FX_ONE as int);
        lemma_mul_bound(zw as int, sw as int, lim, FX_ONE as int);
        lemma_mul_bound(zw as int, cw as int, lim, FX_ONE as int);
        lemma_mul_bound(xw as int, sw as int, lim, FX_ONE as int);
    }
    let xc: i128 = xw * cw;
    let zs: i128 = zw * sw;
    let zc: i128 = zw * cw;
    let xs: i128 = xw * sw;
    let xsum: i128 = xc + zs;
    let zsum: i128 = zc - xs;
    proof {
        let lim: int = crate::fx::COORD_LIMIT as int;
        lemma_div_trunc_abs_le(xsum as int, 2 * lim, FX_ONE as int);
        lemma_div_trunc_abs_le(zsum as int, 2 * lim, FX_ONE as int);
    }
    let x: i128 = xsum / (FX_ONE as i128);
    let z: i128 = zsum / (FX_ONE as i128);
    proof {
        lemma_mul_congr(xw as int, cw as int, p.x as int, cos_fx as int);
        lemma_mul_congr(zw as int, sw as int, p.z as int, sin_fx as int);
        lemma_mul_congr(zw as int, cw as int, p.z as int, cos_fx as int);
        lemma_mul_congr(xw as int, sw as int, p.x as int, sin_fx as int);
    }
    Vec3Fx { x: x as i64, y: p.y, z: z as i64 }
}

} // verus!
