//! Collision primitives: axis-aligned boxes, circles, and exact
//! segment-intersection tests.
//!
//! All tests use closed comparisons, so shapes that merely touch count as
//! overlapping. Coordinates are exact integers, which lets the contracts
//! state real geometric facts: the segment tests are proved equivalent to
//! the existence of a rational parameter `p / q` in `[0, 1]` at which the
//! segment point lies inside the shape.

use vstd::prelude::*;
use crate::fx::{fits_coord, lemma_mul_bound, lemma_sq_nonneg, spec_clamp, COORD_LIMIT};
use crate::linear::Vec2Fx;

verus! {

/// The square of an integer.
pub open spec fn sq(v: int) -> int {
    v * v
}

/// Axis-aligned bounding box given by two corners.
///
/// Callers maintain `min.x <= max.x` and `min.y <= max.y`; the tests that
/// depend on that order require it. [`Aabb::from_center`] establishes it
/// from non-negative half-extents.
#[derive(Clone, Copy, Debug, PartialEq, Eq, Structural)]
pub struct Aabb {
    pub min: Vec2Fx,
    pub max: Vec2Fx,
}

/// A circle given by its center and radius.
#[derive(Clone, Copy, Debug, PartialEq, Eq, Structural)]
pub struct Circle {
    pub center: Vec2Fx,
    pub radius: i64,
}

/// The point `(px, py)` lies inside the box (closed on all sides).
pub open spec fn aabb_contains_pt(b: Aabb, px: int, py: int) -> bool {
    &&& b.min.x <= px <= b.max.x
    &&& b.min.y <= py <= b.max.y
}

/// The point `(px, py)` lies inside the circle (closed boundary).
pub open spec fn circle_contains_pt(c: Circle, px: int, py: int) -> bool {
    sq(px - c.center.x) + sq(py - c.center.y) <= sq(c.radius as int)
}

impl Aabb {
    /// The box's corner order invariant together with the coordinate range
    /// the exact tests work in.
    pub open spec fn wf(self) -> bool {
        &&& self.min.fits()
        &&& self.max.fits()
        &&& self.min.x <= self.max.x
        &&& self.min.y <= self.max.y
    }

    /// Build a box from its center and half-extents; non-negative
    /// half-extents give a well-formed box.
    pub fn from_center(center: Vec2Fx, half: Vec2Fx) -> (r: Aabb)
        requires
            center.fits(),
            half.fits(),
        ensures
            r.min.x == center.x - half.x,
            r.min.y == center.y - half.y,
            r.max.x == center.x + half.x,
            r.max.y == center.y + half.y,
    {
        Aabb {
            min: Vec2Fx { x: center.x - half.x, y: center.y - half.y },
            max: Vec2Fx { x: center.x + half.x, y: center.y + half.y },
        }
    }

    /// Build a box directly from its corners.
    pub fn from_min_max(min: Vec2Fx, max: Vec2Fx) -> (r: Aabb)
        ensures
            r == (Aabb { min, max }),
    {
        Aabb { min, max }
    }

    /// Center point of the box, rounded toward zero per coordinate.
    pub fn center(&self) -> (r: Vec2Fx)
        requires
            self.min.fits(),
            self.max.fits(),
        ensures
            r.x == crate::fx::div_trunc(self.min.x + self.max.x, 2),
            r.y == crate::fx::div_trunc(self.min.y + self.max.y, 2),
    {
        Vec2Fx { x: (self.min.x + self.max.x) / 2, y: (self.min.y + self.max.y) / 2 }
    }

    /// Half width and half height, rounded toward zero.
    pub fn half_extents(&self) -> (r: Vec2Fx)
        requires
            self.min.fits(),
            self.max.fits(),
        ensures
            r.x == crate::fx::div_trunc(self.max.x - self.min.x, 2),
            r.y == crate::fx::div_trunc(self.max.y - self.min.y, 2),
    {
        Vec2Fx { x: (self.max.x - self.min.x) / 2, y: (self.max.y - self.min.y) / 2 }
    }

    /// Whether the point lies inside the box.
    pub fn contains_point(&self, p: Vec2Fx) -> (r: bool)
        ensures
            r == aabb_contains_pt(*self, p.x as int, p.y as int),
    {
        p.x >= self.min.x && p.x <= self.max.x && p.y >= self.min.y && p.y <= self.max.y
    }

    /// Whether two boxes overlap; touching edges count.
    pub fn overlaps(&self, other: &Aabb) -> (r: bool)
        ensures
            r == (self.min.x <= other.max.x && self.max.x >= other.min.x
                && self.min.y <= other.max.y && self.max.y >= other.min.y),
    {
        self.min.x <= other.max.x && self.max.x >= other.min.x && self.min.y <= other.max.y
            && self.max.y >= other.min.y
    }

    /// Grow the box by a margin on all four sides.
    pub fn expand(&self, margin: i64) -> (r: Aabb)
        requires
            self.min.fits(),
            self.max.fits(),
            fits_coord(margin as int),
        ensures
            r.min.x == self.min.x - margin,
            r.min.y == self.min.y - margin,
            r.max.x == self.max.x + margin,
            r.max.y == self.max.y + margin,
    {
        Aabb {
            min: Vec2Fx { x: self.min.x - margin, y: self.min.y - margin },
            max: Vec2Fx { x: self.max.x + margin, y: self.max.y + margin },
        }
    }
}

impl Circle {
    /// Coordinate ranges the exact tests work in; the radius may be any
    /// magnitude in range, and only its square enters the tests.
    pub open spec fn wf(self) -> bool {
        &&& self.center.fits()
        &&& fits_coord(self.radius as int)
    }

    /// Build a circle from its center and radius.
    pub fn new(center: Vec2Fx, radius: i64) -> (r: Circle)
        ensures
            r == (Circle { center, radius }),
    {
        Circle { center, radius }
    }

    /// Whether the point lies inside the circle (closed boundary).
    pub fn contains_point(&self, p: Vec2Fx) -> (r: bool)
        requires
            self.wf(),
            p.fits(),
        ensures
            r == circle_contains_pt(*self, p.x as int, p.y as int),
    {
        let dx: i128 = (p.x as i128) - (self.center.x as i128);
        let dy: i128 = (p.y as i128) - (self.center.y as i128);
        let rr: i128 = self.radius as i128;
        proof {
            lemma_mul_bound(dx as int, dx as int, 2 * COORD_LIMIT as int, 2 * COORD_LIMIT as int);
            lemma_mul_bound(dy as int, dy as int, 2 * COORD_LIMIT as int, 2 * COORD_LIMIT as int);
            lemma_mul_bound(rr as int, rr as int, COORD_LIMIT as int, COORD_LIMIT as int);
        }
        dx * dx + dy * dy <= rr * rr
    }

    /// Whether two circles overlap; touching counts.
    pub fn overlaps_circle(&self, other: &Circle) -> (r: bool)
        requires
            self.wf(),
            other.wf(),
        ensures
            r == (sq(self.center.x - other.center.x) + sq(self.center.y - other.center.y)
                <= sq(self.radius + other.radius)),
    {
        let dx: i128 = (self.center.x as i128) - (other.center.x as i128);
        let dy: i128 = (self.center.y as i128) - (other.center.y as i128);
        let rsum: i128 = (self.radius as i128) + (other.radius as i128);
        proof {
            lemma_mul_bound(dx as int, dx as int, 2 * COORD_LIMIT as int, 2 * COORD_LIMIT as int);
            lemma_mul_bound(dy as int, dy as int, 2 * COORD_LIMIT as int, 2 * COORD_LIMIT as int);
            lemma_mul_bound(
                rsum as int,
                rsum as int,
                2 * COORD_LIMIT as int,
                2 * COORD_LIMIT as int,
            );
        }
        dx * dx + dy * dy <= rsum * rsum
    }

    /// Whether the circle overlaps the box: true exactly when some point
    /// of the box lies inside the circle. Decided by clamping the center
    /// into the box, which yields the nearest box point.
    pub fn overlaps_aabb(&self, aabb: &Aabb) -> (r: bool)
        requires
            self.wf(),
            aabb.wf(),
        ensures
            r == exists|px: int, py: int|
                aabb_contains_pt(*aabb, px, py) && circle_contains_pt(*self, px, py),
    {
        let closest = Vec2Fx {
            x: crate::fx::clamp(self.center.x, aabb.min.x, aabb.max.x),
            y: crate::fx::clamp(self.center.y, aabb.min.y, aabb.max.y),
        };
        let hit = self.contains_point(closest);
        proof {
            if hit {
                assert(aabb_contains_pt(*aabb, closest.x as int, closest.y as int));
            } else {
                assert forall|px: int, py: int|
                    aabb_contains_pt(*aabb, px, py) implies !circle_contains_pt(
                    *self,
                    px,
                    py,
                ) by {
                    lemma_clamp_nearest(
                        self.center.x as int,
                        aabb.min.x as int,
                        aabb.max.x as int,
                        px,
                    );
                    lemma_clamp_nearest(
                        self.center.y as int,
                        aabb.min.y as int,
                        aabb.max.y as int,
                        py,
                    );
                }
            }
        }
        hit
    }
}

/// Clamping a coordinate into an interval yields the point of the interval
/// nearest to it: no interval point is closer, per axis, in squared
/// distance.
proof fn lemma_clamp_nearest(c: int, lo: int, hi: int, p: int)
    requires
        lo <= hi,
        lo <= p <= hi,
    ensures
        sq(spec_clamp(c, lo, hi) - c) <= sq(p - c),
{
    let cl = spec_clamp(c, lo, hi);
    assert(sq(cl - c) <= sq(p - c)) by (nonlinear_arith)
        requires
            lo <= p <= hi,
            (c < lo ==> cl == lo) && (c > hi ==> cl == hi) && (lo <= c <= hi ==> cl == c),
    ;
}


/// The segment point at rational parameter `p / q` satisfies one axis of
/// a box test: `lo <= av + (p/q) dv <= hi`, multiplied through by `q`.
pub open spec fn axis_hits(av: int, dv: int, lo: int, hi: int, p: int, q: int) -> bool {
    q * lo <= q * av + p * dv && q * av + p * dv <= q * hi
}

/// The point of segment `a..b` at rational parameter `p / q` lies inside
/// the box (closed on all sides).
pub open spec fn seg_hits_aabb_at(a: Vec2Fx, b: Vec2Fx, bx: Aabb, p: int, q: int) -> bool {
    &&& axis_hits(a.x as int, b.x - a.x, bx.min.x as int, bx.max.x as int, p, q)
    &&& axis_hits(a.y as int, b.y - a.y, bx.min.y as int, bx.max.y as int, p, q)
}

/// Ordering of fractions with positive denominators is transitive; stated
/// over cross-multiplied comparisons.
proof fn lemma_frac_le_trans(n1: int, d1: int, n2: int, d2: int, n3: int, d3: int)
    requires
        d1 >= 1,
        d2 >= 1,
        d3 >= 1,
        n1 * d2 <= n2 * d1,
        n2 * d3 <= n3 * d2,
    ensures
        n1 * d3 <= n3 * d1,
{
    assert(n1 * d2 * d3 <= n2 * d1 * d3) by (nonlinear_arith)
        requires
            d3 >= 1,
            n1 * d2 <= n2 * d1,
    ;
    assert(n2 * d3 * d1 <= n3 * d2 * d1) by (nonlinear_arith)
        requires
            d1 >= 1,
            n2 * d3 <= n3 * d2,
    ;
    assert(n1 * d2 * d3 == n1 * d3 * d2 && n2 * d1 * d3 == n2 * d3 * d1 && n3 * d2 * d1 == n3 * d1
        * d2) by (nonlinear_arith);
    assert(n1 * d3 <= n3 * d1) by (nonlinear_arith)
        requires
            d2 >= 1,
            n1 * d3 * d2 <= n3 * d1 * d2,
    ;
}

/// For a positive direction component, the axis test is the sandwich of
/// the parameter between the entry and exit fractions.
proof fn lemma_axis_sandwich_pos(av: int, dv: int, lo: int, hi: int, p: int, q: int)
    ensures
        axis_hits(av, dv, lo, hi, p, q) <==> ((lo - av) * q <= p * dv && p * dv <= (hi - av) * q),
{
    assert((q * lo <= q * av + p * dv) == ((lo - av) * q <= p * dv)) by (nonlinear_arith);
    assert((q * av + p * dv <= q * hi) == (p * dv <= (hi - av) * q)) by (nonlinear_arith);
}

/// For a negative direction component, entry and exit swap: the same
/// sandwich holds after negating the direction.
proof fn lemma_axis_sandwich_neg(av: int, dv: int, lo: int, hi: int, p: int, q: int)
    ensures
        axis_hits(av, dv, lo, hi, p, q) <==> ((av - hi) * q <= p * (-dv) && p * (-dv) <= (av - lo)
            * q),
{
    assert((q * av + p * dv <= q * hi) == ((av - hi) * q <= p * (-dv))) by (nonlinear_arith);
    assert((q * lo <= q * av + p * dv) == (p * (-dv) <= (av - lo) * q)) by (nonlinear_arith);
}

/// The running parameter window of the slab test: the fractions
/// `lon / lod` and `hin / hid` bound the parameters still admissible.
struct Window {
    lon: i128,
    lod: i128,
    hin: i128,
    hid: i128,
}

impl Window {
    /// Denominators are positive and everything is small enough that
    /// cross products stay inside 128 bits.
    spec fn wf(self) -> bool {
        &&& 1 <= self.lod <= 0x8000_0000
        &&& 1 <= self.hid <= 0x8000_0000
        &&& -0x8000_0000 <= self.lon <= 0x8000_0000
        &&& -0x8000_0000 <= self.hin <= 0x8000_0000
    }

    /// The parameter `p / q` lies inside the window.
    spec fn admits(self, p: int, q: int) -> bool {
        self.lon * q <= p * self.lod && p * self.hid <= self.hin * q
    }
}

/// Narrow the parameter window by one axis of the box test. `None` means
/// the segment runs parallel to this slab outside of it, so no parameter
/// at all passes the axis.
fn narrow_axis(win: Window, av: i64, dv: i64, lo: i64, hi: i64) -> (r: Option<Window>)
    requires
        win.wf(),
        fits_coord(av as int),
        fits_coord(lo as int),
        fits_coord(hi as int),
        -2 * COORD_LIMIT <= dv,
        dv <= 2 * COORD_LIMIT,
    ensures
        r is None ==> forall|p: int, q: int|
            1 <= q ==> !axis_hits(av as int, dv as int, lo as int, hi as int, p, q),
        r matches Some(w2) ==> w2.wf() && forall|p: int, q: int|
            1 <= q ==> (w2.admits(p, q) <==> (win.admits(p, q) && axis_hits(
                av as int,
                dv as int,
                lo as int,
                hi as int,
                p,
                q,
            ))),
{
    if dv == 0 {
        if av < lo || av > hi {
            proof {
                assert forall|p: int, q: int| 1 <= q implies !axis_hits(
                    av as int,
                    dv as int,
                    lo as int,
                    hi as int,
                    p,
                    q,
                ) by {
                    assert(av < lo ==> q * lo > q * av + p * 0) by (nonlinear_arith)
                        requires
                            1 <= q,
                    ;
                    assert(av > hi ==> q * av + p * 0 > q * hi) by (nonlinear_arith)
                        requires
                            1 <= q,
                    ;
                }
            }
            return None;
        }
        proof {
            assert forall|p: int, q: int| 1 <= q implies (win.admits(p, q) <==> (win.admits(p, q)
                && axis_hits(av as int, dv as int, lo as int, hi as int, p, q))) by {
                assert(q * lo <= q * av && q * av <= q * hi) by (nonlinear_arith)
                    requires
                        1 <= q,
                        lo <= av <= hi,
                ;
                assert(q * av + p * 0 == q * av) by (nonlinear_arith);
            }
        }
        return Some(win);
    }
    let aln: i128;
    let ald: i128;
    let ahn: i128;
    let ahd: i128;
    if dv > 0 {
        aln = (lo as i128) - (av as i128);
        ald = dv as i128;
        ahn = (hi as i128) - (av as i128);
        ahd = dv as i128;
    } else {
        aln = (av as i128) - (hi as i128);
        ald = -(dv as i128);
        ahn = (av as i128) - (lo as i128);
        ahd = -(dv as i128);
    }
    proof {
        let lim: int = 0x8000_0000;
        lemma_mul_bound(aln as int, win.lod as int, lim, lim);
        lemma_mul_bound(win.lon as int, ald as int, lim, lim);
        lemma_mul_bound(ahn as int, win.hid as int, lim, lim);
        lemma_mul_bound(win.hin as int, ahd as int, lim, lim);
    }
    let take_axis_lo = aln * win.lod > win.lon * ald;
    let take_axis_hi = ahn * win.hid < win.hin * ahd;
    let w2 = Window {
        lon: if take_axis_lo { aln } else { win.lon },
        lod: if take_axis_lo { ald } else { win.lod },
        hin: if take_axis_hi { ahn } else { win.hin },
        hid: if take_axis_hi { ahd } else { win.hid },
    };
    proof {
        assert forall|p: int, q: int| 1 <= q implies (w2.admits(p, q) <==> (win.admits(p, q)
            && axis_hits(av as int, dv as int, lo as int, hi as int, p, q))) by {
            if dv > 0 {
                lemma_axis_sandwich_pos(av as int, dv as int, lo as int, hi as int, p, q);
            } else {
                lemma_axis_sandwich_neg(av as int, dv as int, lo as int, hi as int, p, q);
            }
            if take_axis_lo {
                if aln * q <= p * ald {
                    lemma_frac_le_trans(
                        win.lon as int,
                        win.lod as int,
                        aln as int,
                        ald as int,
                        p,
                        q,
                    );
                }
            } else {
                if win.lon * q <= p * win.lod {
                    lemma_frac_le_trans(
                        aln as int,
                        ald as int,
                        win.lon as int,
                        win.lod as int,
                        p,
                        q,
                    );
                }
            }
            if take_axis_hi {
                if p * ahd <= ahn * q {
                    lemma_frac_le_trans(p, q, ahn as int, ahd as int, win.hin as int, win.hid as int);
                }
            } else {
                if p * win.hid <= win.hin * q {
                    lemma_frac_le_trans(p, q, win.hin as int, win.hid as int, ahn as int, ahd as int);
                }
            }
        }
    }
    Some(w2)
}

/// Whether the line segment from `a` to `b` intersects the box: true
/// exactly when some point of the segment, at a rational parameter
/// `p / q` in `[0, 1]`, lies inside the box. Decided by an exact slab
/// test; a segment parallel to a slab it lies outside of is rejected.
pub fn line_aabb_intersect(a: Vec2Fx, b: Vec2Fx, aabb: &Aabb) -> (r: bool)
    requires
        a.fits(),
        b.fits(),
        aabb.wf(),
    ensures
        r == exists|p: int, q: int|
            0 <= p <= q && 1 <= q && seg_hits_aabb_at(a, b, *aabb, p, q),
{
    if aabb.contains_point(a) {
        proof {
            assert(seg_hits_aabb_at(a, b, *aabb, 0, 1)) by {
                assert(1 * (aabb.min.x as int) <= 1 * (a.x as int) + 0 * (b.x - a.x));
                assert(axis_hits(a.x as int, b.x - a.x, aabb.min.x as int, aabb.max.x as int, 0, 1));
                assert(axis_hits(a.y as int, b.y - a.y, aabb.min.y as int, aabb.max.y as int, 0, 1));
            }
        }
        return true;
    }
    if aabb.contains_point(b) {
        proof {
            assert(seg_hits_aabb_at(a, b, *aabb, 1, 1)) by {
                assert(1 * (a.x as int) + 1 * (b.x - a.x) == b.x as int);
                assert(axis_hits(a.x as int, b.x - a.x, aabb.min.x as int, aabb.max.x as int, 1, 1));
                assert(axis_hits(a.y as int, b.y - a.y, aabb.min.y as int, aabb.max.y as int, 1, 1));
            }
        }
        return true;
    }
    let w0 = Window { lon: 0, lod: 1, hin: 1, hid: 1 };
    let dx: i64 = b.x - a.x;
    let dy: i64 = b.y - a.y;
    let w1 = match narrow_axis(w0, a.x, dx, aabb.min.x, aabb.max.x) {
        Some(w) => w,
        None => {
            return false;
        },
    };
    let w2 = match narrow_axis(w1, a.y, dy, aabb.min.y, aabb.max.y) {
        Some(w) => w,
        None => {
            return false;
        },
    };
    proof {
        let lim: int = 0x8000_0000;
        lemma_mul_bound(w2.lon as int, w2.hid as int, lim, lim);
        lemma_mul_bound(w2.hin as int, w2.lod as int, lim, lim);
    }
    let hit = w2.lon * w2.hid <= w2.hin * w2.lod;
    proof {
        if hit {
            let wp = w2.lon as int;
            let wq = w2.lod as int;
            assert(w2.admits(wp, wq));
            assert(w1.admits(wp, wq) && axis_hits(
                a.y as int,
                dy as int,
                aabb.min.y as int,
                aabb.max.y as int,
                wp,
                wq,
            ));
            assert(w0.admits(wp, wq) && axis_hits(
                a.x as int,
                dx as int,
                aabb.min.x as int,
                aabb.max.x as int,
                wp,
                wq,
            ));
            assert(w0.lon as int == 0 && w0.lod as int == 1 && w0.hin as int == 1 && w0.hid
                as int == 1);
            assert(0 * wq <= wp * 1 && wp * 1 <= 1 * wq);
            assert(0 <= wp);
            assert(wp <= wq);
            assert(1 <= wq);
            assert(dx as int == b.x - a.x);
            assert(axis_hits(a.x as int, b.x - a.x, aabb.min.x as int, aabb.max.x as int, wp, wq));
            assert(axis_hits(a.y as int, b.y - a.y, aabb.min.y as int, aabb.max.y as int, wp, wq));
            assert(seg_hits_aabb_at(a, b, *aabb, wp, wq));
        } else {
            assert forall|p: int, q: int|
                0 <= p <= q && 1 <= q implies !seg_hits_aabb_at(a, b, *aabb, p, q) by {
                if seg_hits_aabb_at(a, b, *aabb, p, q) {
                    assert(axis_hits(
                        a.x as int,
                        dx as int,
                        aabb.min.x as int,
                        aabb.max.x as int,
                        p,
                        q,
                    ));
                    assert(axis_hits(
                        a.y as int,
                        dy as int,
                        aabb.min.y as int,
                        aabb.max.y as int,
                        p,
                        q,
                    ));
                    assert(0 * q <= p * 1 && p * 1 <= 1 * q);
                    assert(w0.admits(p, q));
                    assert(w1.admits(p, q));
                    assert(w2.admits(p, q));
                    lemma_frac_le_trans(
                        w2.lon as int,
                        w2.lod as int,
                        p,
                        q,
                        w2.hin as int,
                        w2.hid as int,
                    );
                }
            }
        }
    }
    hit
}

/// The squared distance from the circle's center to the segment point at
/// rational parameter `p / q`, minus the squared radius, multiplied
/// through by `q * q`: non-positive exactly when that point is inside.
pub open spec fn circle_poly(ux: int, uy: int, dx: int, dy: int, rr: int, p: int, q: int) -> int {
    (q * ux + p * dx) * (q * ux + p * dx) + (q * uy + p * dy) * (q * uy + p * dy) - (q * q) * (rr
        * rr)
}

/// The point of segment `a..b` at rational parameter `p / q` lies inside
/// the circle (closed boundary).
pub open spec fn seg_hits_circle_at(a: Vec2Fx, b: Vec2Fx, c: Circle, p: int, q: int) -> bool {
    circle_poly(
        a.x - c.center.x,
        a.y - c.center.y,
        b.x - a.x,
        b.y - a.y,
        c.radius as int,
        p,
        q,
    ) <= 0
}

/// Expanding [`circle_poly`] sorts it into a quadratic in `p` and `q`
/// whose coefficients are the classic line-versus-circle values.
proof fn lemma_circle_poly_expand(ux: int, uy: int, dx: int, dy: int, rr: int, p: int, q: int)
    ensures
        circle_poly(ux, uy, dx, dy, rr, p, q) == (dx * dx + dy * dy) * (p * p) + (2 * (ux * dx
            + uy * dy)) * (p * q) + (ux * ux + uy * uy - rr * rr) * (q * q),
{
    broadcast use vstd::arithmetic::mul::group_mul_properties;

}

/// A quadratic with positive leading coefficient that is non-positive
/// somewhere on `[0, 1]` is non-positive at an end point, or has its
/// vertex inside the interval with a non-negative discriminant.
proof fn lemma_quad_nonpos_cases(ga: int, gb: int, gc: int, p: int, q: int)
    requires
        ga >= 1,
        1 <= q,
        0 <= p <= q,
        ga * (p * p) + gb * (p * q) + gc * (q * q) <= 0,
    ensures
        gc <= 0 || ga + gb + gc <= 0 || (gb <= 0 && -gb <= 2 * ga && gb * gb - 4 * ga * gc >= 0),
{
    if gc > 0 && ga + gb + gc > 0 {
        assert(gb <= 0) by (nonlinear_arith)
            requires
                ga >= 1,
                1 <= q,
                0 <= p <= q,
                gc > 0,
                ga * (p * p) + gb * (p * q) + gc * (q * q) <= 0,
        ;
        if -gb > 2 * ga {
            assert(ga * (p * p) + gb * (p * q) + gc * (q * q) - (ga + gb + gc) * (q * q) == (p
                - q) * (ga * (p + q) + gb * q)) by {
                broadcast use vstd::arithmetic::mul::group_mul_properties;

            }
            assert((p - q) * (ga * (p + q) + gb * q) >= 0) by (nonlinear_arith)
                requires
                    ga >= 1,
                    1 <= q,
                    0 <= p <= q,
                    2 * ga + gb < 0,
            ;
            assert((ga + gb + gc) * (q * q) >= ga + gb + gc) by (nonlinear_arith)
                requires
                    1 <= q,
                    ga + gb + gc > 0,
            ;
            assert(false);
        }
        assert(4 * ga * (ga * (p * p) + gb * (p * q) + gc * (q * q)) == (2 * ga * p + gb * q) * (2
            * ga * p + gb * q) - (gb * gb - 4 * ga * gc) * (q * q)) by {
            broadcast use vstd::arithmetic::mul::group_mul_properties;

        }
        assert(4 * ga * (ga * (p * p) + gb * (p * q) + gc * (q * q)) <= 0) by (nonlinear_arith)
            requires
                ga >= 1,
                ga * (p * p) + gb * (p * q) + gc * (q * q) <= 0,
        ;
        assert((gb * gb - 4 * ga * gc) * (q * q) >= (2 * ga * p + gb * q) * (2 * ga * p + gb * q));
        assert((2 * ga * p + gb * q) * (2 * ga * p + gb * q) >= 0) by (nonlinear_arith);
        assert(gb * gb - 4 * ga * gc >= 0) by (nonlinear_arith)
            requires
                1 <= q,
                (gb * gb - 4 * ga * gc) * (q * q) >= 0,
        ;
    }
}

/// At the vertex `p / q = -gb / (2 ga)` the quadratic evaluates to
/// `-ga` times the discriminant, hence is non-positive when the
/// discriminant is non-negative.
proof fn lemma_quad_vertex(ga: int, gb: int, gc: int)
    requires
        ga >= 1,
        gb * gb - 4 * ga * gc >= 0,
    ensures
        ga * ((-gb) * (-gb)) + gb * ((-gb) * (2 * ga)) + gc * ((2 * ga) * (2 * ga)) <= 0,
{
    assert(ga * ((-gb) * (-gb)) + gb * ((-gb) * (2 * ga)) + gc * ((2 * ga) * (2 * ga)) == -ga * (gb
        * gb - 4 * ga * gc)) by (nonlinear_arith);
    assert(-ga * (gb * gb - 4 * ga * gc) <= 0) by (nonlinear_arith)
        requires
            ga >= 1,
            gb * gb - 4 * ga * gc >= 0,
    ;
}

/// Whether the line segment from `a` to `b` intersects the circle:
/// true exactly when some point of the segment, at a rational parameter
/// `p / q` in `[0, 1]`, lies inside the circle. Decided by the exact
/// quadratic test, including the case of a segment that lies entirely
/// inside the circle.
pub fn line_circle_intersect(a: Vec2Fx, b: Vec2Fx, circle: &Circle) -> (r: bool)
    requires
        a.fits(),
        b.fits(),
        circle.wf(),
    ensures
        r == exists|p: int, q: int|
            0 <= p <= q && 1 <= q && seg_hits_circle_at(a, b, *circle, p, q),
{
    let ux: i128 = (a.x as i128) - (circle.center.x as i128);
    let uy: i128 = (a.y as i128) - (circle.center.y as i128);
    let dx: i128 = (b.x as i128) - (a.x as i128);
    let dy: i128 = (b.y as i128) - (a.y as i128);
    let rr: i128 = circle.radius as i128;
    proof {
        let lim: int = 2 * COORD_LIMIT as int;
        lemma_mul_bound(dx as int, dx as int, lim, lim);
        lemma_mul_bound(dy as int, dy as int, lim, lim);
        lemma_mul_bound(ux as int, ux as int, lim, lim);
        lemma_mul_bound(uy as int, uy as int, lim, lim);
        lemma_mul_bound(ux as int, dx as int, lim, lim);
        lemma_mul_bound(uy as int, dy as int, lim, lim);
        lemma_mul_bound(rr as int, rr as int, lim, lim);
    }
    let qa: i128 = dx * dx + dy * dy;
    let qb: i128 = 2 * (ux * dx + uy * dy);
    let qc: i128 = ux * ux + uy * uy - rr * rr;
    if qa == 0 {
        let hit = qc <= 0;
        proof {
            lemma_sq_nonneg(dx as int);
            lemma_sq_nonneg(dy as int);
            assert(dx as int == 0 && dy as int == 0) by (nonlinear_arith)
                requires
                    (dx as int) * (dx as int) + (dy as int) * (dy as int) == 0,
                    (dx as int) * (dx as int) >= 0,
                    (dy as int) * (dy as int) >= 0,
            ;
            if hit {
                lemma_circle_poly_expand(
                    ux as int,
                    uy as int,
                    dx as int,
                    dy as int,
                    rr as int,
                    0,
                    1,
                );
                assert(seg_hits_circle_at(a, b, *circle, 0, 1));
            } else {
                assert forall|p: int, q: int|
                    0 <= p <= q && 1 <= q implies !seg_hits_circle_at(a, b, *circle, p, q) by {
                    lemma_circle_poly_expand(
                        ux as int,
                        uy as int,
                        dx as int,
                        dy as int,
                        rr as int,
                        p,
                        q,
                    );
                    assert((qc as int) * (q * q) > 0) by (nonlinear_arith)
                        requires
                            qc as int >= 1,
                            q >= 1,
                    ;
                }
            }
        }
        return hit;
    }
    let hit_start = qc <= 0;
    let hit_end = qa + qb + qc <= 0;
    proof {
        let lim2: int = 0x4000_0000_0000_0000;
        lemma_mul_bound(qb as int, qb as int, lim2, lim2);
        lemma_mul_bound(qa as int, qc as int, lim2, lim2);
        lemma_sq_nonneg(dx as int);
        lemma_sq_nonneg(dy as int);
        assert(qa as int >= 1);
    }
    let vertex_hit = qb <= 0 && -qb <= 2 * qa && qb * qb - 4 * (qa * qc) >= 0;
    let hit = hit_start || hit_end || vertex_hit;
    proof {
        let ga = qa as int;
        let gb = qb as int;
        let gc = qc as int;
        assert(4 * (ga * gc) == 4 * ga * gc) by (nonlinear_arith);
        if hit_start {
            lemma_circle_poly_expand(ux as int, uy as int, dx as int, dy as int, rr as int, 0, 1);
            assert(seg_hits_circle_at(a, b, *circle, 0, 1));
        } else if hit_end {
            lemma_circle_poly_expand(ux as int, uy as int, dx as int, dy as int, rr as int, 1, 1);
            assert(seg_hits_circle_at(a, b, *circle, 1, 1));
        } else if vertex_hit {
            lemma_circle_poly_expand(
                ux as int,
                uy as int,
                dx as int,
                dy as int,
                rr as int,
                -gb,
                2 * ga,
            );
            lemma_quad_vertex(ga, gb, gc);
            assert(seg_hits_circle_at(a, b, *circle, -gb, 2 * ga));
        } else {
            assert forall|p: int, q: int|
                0 <= p <= q && 1 <= q implies !seg_hits_circle_at(a, b, *circle, p, q) by {
                if seg_hits_circle_at(a, b, *circle, p, q) {
                    lemma_circle_poly_expand(
                        ux as int,
                        uy as int,
                        dx as int,
                        dy as int,
                        rr as int,
                        p,
                        q,
                    );
                    lemma_quad_nonpos_cases(ga, gb, gc, p, q);
                }
            }
        }
    }
    hit
}

} // verus!
