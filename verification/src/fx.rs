//! Fixed-point scalar helpers.
//!
//! All fractional quantities in this crate are 64-bit fixed-point numbers:
//! [`FX_ONE`] units represent the real value one, so a scalar `v` stands for
//! the real number `v / FX_ONE`. Angles are such scalars measured in
//! radians, with [`FX_PI`] the nearest representable value of pi.
//!
//! The helpers here are the exact integer counterparts of the usual
//! interpolation, clamping and wrapping utilities of a game math library.

use vstd::prelude::*;
use vstd::arithmetic::div_mod::{
    lemma_div_basics_4, lemma_div_basics_5, lemma_div_is_ordered, lemma_div_multiples_vanish,
    lemma_mod_add_multiples_vanish, lemma_mod_self_0, lemma_mod_sub_multiples_vanish,
    lemma_small_mod,
};

verus! {

/// The fixed-point representation of one: values carry 16 fractional bits.
pub const FX_ONE: i64 = 65536;

/// Pi in fixed point, rounded to the nearest representable value.
pub const FX_PI: i64 = 205887;

/// Largest magnitude a coordinate or scalar may have in the geometric
/// helpers; keeps every intermediate product inside 128 bits.
pub const COORD_LIMIT: i64 = 0x2000_0000;

/// Largest magnitude the wrapping helpers accept. They form no products,
/// so only 64-bit sums limit them: far beyond any angle or position a
/// game accumulates.
pub const WRAP_LIMIT: i64 = 0x1000_0000_0000_0000;

/// Truncating division (round toward zero) by a positive divisor, the
/// rounding rule of the machine division instruction; `/` on `int` alone
/// is Euclidean.
pub open spec fn div_trunc(n: int, d: int) -> int
    recommends
        d >= 1,
{
    if n >= 0 {
        n / d
    } else {
        -((-n) / d)
    }
}

/// Truncating division never increases magnitude and never flips sign.
pub proof fn lemma_div_trunc_bounds(n: int, d: int)
    requires
        d >= 1,
    ensures
        n >= 0 ==> 0 <= div_trunc(n, d) <= n,
        n < 0 ==> n <= div_trunc(n, d) <= 0,
{
    if n >= 0 {
        lemma_div_basics_4(n, d);
        lemma_div_basics_5(n, d);
    } else {
        lemma_div_basics_4(-n, d);
        lemma_div_basics_5(-n, d);
    }
}

/// When `0 <= n <= m * d`, the truncated quotient `n / d` is at most `m`.
pub proof fn lemma_div_trunc_le(n: int, m: int, d: int)
    requires
        d >= 1,
        0 <= n,
        n <= m * d,
    ensures
        0 <= div_trunc(n, d) <= m,
{
    lemma_div_basics_4(n, d);
    lemma_div_is_ordered(n, m * d, d);
    lemma_div_multiples_vanish(m, d);
    assert(m * d == d * m) by (nonlinear_arith);
    assert(n / d <= (m * d) / d);
    assert((d * m) / d == m);
}

/// Magnitude bound for the truncated quotient: if the numerator is at
/// most `m * d` in magnitude, the quotient is at most `m`.
pub proof fn lemma_div_trunc_abs_le(n: int, m: int, d: int)
    requires
        d >= 1,
        0 <= m,
        -(m * d) <= n <= m * d,
    ensures
        -m <= div_trunc(n, d) <= m,
{
    if n >= 0 {
        lemma_div_trunc_le(n, m, d);
    } else {
        lemma_div_trunc_le(-n, m, d);
    }
}

/// Multiplication respects equality of its operands; spelled out because
/// equal products of merely equal (not identical) terms need nonlinear
/// reasoning.
pub proof fn lemma_mul_congr(x: int, y: int, x2: int, y2: int)
    requires
        x == x2,
        y == y2,
    ensures
        x * y == x2 * y2,
{
    assert(x * y == x2 * y2) by (nonlinear_arith)
        requires
            x == x2,
            y == y2,
    ;
}

/// A square is never negative.
pub proof fn lemma_sq_nonneg(x: int)
    ensures
        x * x >= 0,
{
    assert(x * x >= 0) by (nonlinear_arith);
}

/// Magnitude bound for a product, from magnitude bounds on the factors.
pub proof fn lemma_mul_bound(x: int, y: int, bx: int, by: int)
    requires
        -bx <= x <= bx,
        -by <= y <= by,
        0 <= bx,
        0 <= by,
    ensures
        -(bx * by) <= x * y <= bx * by,
{
    assert(-(bx * by) <= x * y <= bx * by) by (nonlinear_arith)
        requires
            -bx <= x <= bx,
            -by <= y <= by,
            0 <= bx,
            0 <= by,
    ;
}

/// A value within the working range of the geometric helpers.
pub open spec fn fits_coord(v: int) -> bool {
    -COORD_LIMIT <= v <= COORD_LIMIT
}

/// Clamp `x` into `[lo, hi]`: the lower bound is applied first, so an
/// inverted range yields `hi`.
pub open spec fn spec_clamp(x: int, lo: int, hi: int) -> int {
    let raised = if x < lo {
        lo
    } else {
        x
    };
    if raised > hi {
        hi
    } else {
        raised
    }
}

/// Clamp a value to the range `[lo, hi]`.
pub fn clamp(x: i64, lo: i64, hi: i64) -> (r: i64)
    ensures
        r == spec_clamp(x as int, lo as int, hi as int),
{
    let raised = if x < lo {
        lo
    } else {
        x
    };
    if raised > hi {
        hi
    } else {
        raised
    }
}

/// Wrap a value into `[lo, hi)` by repeatedly adding or subtracting the
/// range width. Returns `lo` when the range is empty or inverted.
///
/// The result is pinned exactly: it lies in `[lo, hi)` and differs from
/// the input by a whole number of range widths.
pub fn wrap_range(x: i64, lo: i64, hi: i64) -> (r: i64)
    requires
        -WRAP_LIMIT <= x <= WRAP_LIMIT,
        -WRAP_LIMIT <= lo <= WRAP_LIMIT,
        -WRAP_LIMIT <= hi <= WRAP_LIMIT,
    ensures
        hi <= lo ==> r == lo,
        lo < hi ==> lo <= r < hi && (x - r) % (hi - lo) == 0,
{
    if hi <= lo {
        return lo;
    }
    let range: i64 = hi - lo;
    let mut v: i64 = x;
    proof {
        lemma_mod_self_0(range as int);
        lemma_small_mod(0nat, range as nat);
    }
    while v < lo
        invariant
            lo < hi,
            -WRAP_LIMIT <= lo,
            hi <= WRAP_LIMIT,
            range == hi - lo,
            -WRAP_LIMIT <= v,
            v <= WRAP_LIMIT,
            (x - v) % (range as int) == 0,
        decreases lo + range - v,
    {
        proof {
            lemma_mod_sub_multiples_vanish(x - v, range as int);
            assert(x - (v + range) == (x - v) + (-(range as int)));
        }
        v = v + range;
    }
    while v >= hi
        invariant
            lo < hi,
            -WRAP_LIMIT <= lo,
            hi <= WRAP_LIMIT,
            range == hi - lo,
            lo <= v,
            v <= WRAP_LIMIT,
            (x - v) % (range as int) == 0,
        decreases v - lo,
    {
        proof {
            lemma_mod_add_multiples_vanish(x - v, range as int);
            assert(x - (v - range) == (range as int) + (x - v));
        }
        v = v - range;
    }
    v
}

/// Wrap a value into `[-FX_ONE, FX_ONE)`, the normalized screen range used
/// for toroidal, wrap-around play fields.
pub fn wrap_signed_unit(x: i64) -> (r: i64)
    requires
        -WRAP_LIMIT <= x <= WRAP_LIMIT,
    ensures
        -FX_ONE <= r < FX_ONE,
        (x - r) % (2 * FX_ONE as int) == 0,
{
    wrap_range(x, -FX_ONE, FX_ONE)
}

/// Normalize an angle into `[-FX_PI, FX_PI)`.
pub fn normalize_angle(angle: i64) -> (r: i64)
    requires
        -WRAP_LIMIT <= angle <= WRAP_LIMIT,
    ensures
        -FX_PI <= r < FX_PI,
        (angle - r) % (2 * FX_PI as int) == 0,
{
    wrap_range(angle, -FX_PI, FX_PI)
}

/// Shortest signed angular delta that rotates `from` onto `to`,
/// normalized into `[-FX_PI, FX_PI)`.
pub fn angle_diff(from: i64, to: i64) -> (r: i64)
    requires
        -WRAP_LIMIT <= 2 * from <= WRAP_LIMIT,
        -WRAP_LIMIT <= 2 * to <= WRAP_LIMIT,
    ensures
        -FX_PI <= r < FX_PI,
        ((to - from) - r) % (2 * FX_PI as int) == 0,
{
    normalize_angle(to - from)
}

/// Linear interpolation `a + (b - a) * t` with `t` in fixed point:
/// `t == 0` gives `a` and `t == FX_ONE` gives `b`; values outside
/// `[0, FX_ONE]` extrapolate.
pub fn lerp(a: i64, b: i64, t: i64) -> (r: i64)
    requires
        fits_coord(a as int),
        fits_coord(b as int),
        fits_coord(t as int),
    ensures
        r == a + div_trunc((b - a) * t, FX_ONE as int),
{
    proof {
        lemma_mul_bound(b - a, t as int, 2 * COORD_LIMIT as int, COORD_LIMIT as int);
    }
    let prod: i128 = ((b as i128) - (a as i128)) * (t as i128);
    let scaled: i128 = prod / (FX_ONE as i128);
    proof {
        lemma_div_trunc_bounds(prod as int, FX_ONE as int);
    }
    ((a as i128) + scaled) as i64
}

/// The value of [`inv_lerp`] as a mathematical function: the quotient
/// `(v - a) / (b - a)` in fixed point, truncated toward zero.
pub open spec fn spec_inv_lerp(a: int, b: int, v: int) -> int {
    if a == b {
        0
    } else if b > a {
        div_trunc((v - a) * FX_ONE, b - a)
    } else {
        div_trunc((a - v) * FX_ONE, a - b)
    }
}

/// Inverse linear interpolation: the fixed-point `t` with
/// `lerp(a, b, t) ~~ v`, truncated toward zero. Returns zero when the
/// endpoints coincide and no such `t` exists.
pub fn inv_lerp(a: i64, b: i64, v: i64) -> (r: i64)
    requires
        fits_coord(a as int),
        fits_coord(b as int),
        fits_coord(v as int),
    ensures
        r == spec_inv_lerp(a as int, b as int, v as int),
{
    if a == b {
        return 0;
    }
    proof {
        lemma_mul_bound(v - a, FX_ONE as int, 2 * COORD_LIMIT as int, FX_ONE as int);
        lemma_mul_bound(a - v, FX_ONE as int, 2 * COORD_LIMIT as int, FX_ONE as int);
    }
    let num: i128 = if b > a {
        ((v as i128) - (a as i128)) * (FX_ONE as i128)
    } else {
        ((a as i128) - (v as i128)) * (FX_ONE as i128)
    };
    let den: i128 = if b > a {
        (b as i128) - (a as i128)
    } else {
        (a as i128) - (b as i128)
    };
    let q: i128 = num / den;
    proof {
        lemma_div_trunc_bounds(num as int, den as int);
    }
    q as i64
}

/// Remap `v` from the range `[from_lo, from_hi]` onto `[to_lo, to_hi]`:
/// inverse interpolation followed by interpolation.
pub fn remap(v: i64, from_lo: i64, from_hi: i64, to_lo: i64, to_hi: i64) -> (r: i64)
    requires
        fits_coord(v as int),
        fits_coord(from_lo as int),
        fits_coord(from_hi as int),
        fits_coord(to_lo as int),
        fits_coord(to_hi as int),
        fits_coord(spec_inv_lerp(from_lo as int, from_hi as int, v as int)),
    ensures
        r == to_lo + div_trunc(
            (to_hi - to_lo) * spec_inv_lerp(from_lo as int, from_hi as int, v as int),
            FX_ONE as int,
        ),
{
    let t = inv_lerp(from_lo, from_hi, v);
    lerp(to_lo, to_hi, t)
}

/// Depth-cue intensity: full brightness [`FX_ONE`] at or below `near`,
/// darkness at or beyond `far`, linear falloff in between. The result is
/// always within `[0, FX_ONE]`.
pub fn depth_intensity(distance: i64, near: i64, far: i64) -> (r: i64)
    requires
        fits_coord(distance as int),
        fits_coord(near as int),
        fits_coord(far as int),
    ensures
        distance <= near ==> r == FX_ONE,
        distance >= far && near < distance ==> r == 0,
        near < distance < far ==> r == FX_ONE - div_trunc(
            (distance - near) * FX_ONE,
            far - near,
        ),
        0 <= r <= FX_ONE,
{
    if distance <= near {
        FX_ONE
    } else if distance >= far {
        0
    } else {
        proof {
            lemma_mul_bound(distance - near, FX_ONE as int, 2 * COORD_LIMIT as int, FX_ONE as int);
        }
        let num: i128 = ((distance as i128) - (near as i128)) * (FX_ONE as i128);
        let den: i128 = (far as i128) - (near as i128);
        let q: i128 = num / den;
        proof {
            assert((distance - near) * FX_ONE <= (far - near) * FX_ONE) by (nonlinear_arith)
                requires
                    distance < far,
                    near < distance,
            ;
            lemma_div_trunc_le(num as int, FX_ONE as int, den as int);
        }
        FX_ONE - (q as i64)
    }
}

} // verus!
