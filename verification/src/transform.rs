//! 2D transformation matrix builders.
//!
//! These build the affine matrices that games push onto the draw-command
//! transform stack. Matrices are column-major. Rotation takes the sine and
//! cosine of the angle as fixed-point scalars, since the library works in
//! exact integers and leaves trigonometry to the caller.

use vstd::prelude::*;
use crate::fx::{fits_coord, FX_ONE};
use crate::linear::{Mat3Fx, Vec2Fx};

verus! {

/// A 2D rotation matrix: counter-clockwise by the angle whose sine and
/// cosine are given in fixed point.
pub fn rot2(sin_fx: i64, cos_fx: i64) -> (r: Mat3Fx)
    requires
        fits_coord(sin_fx as int),
        fits_coord(cos_fx as int),
    ensures
        r.cols@ == seq![
            cos_fx,
            sin_fx,
            0i64,
            ((-sin_fx) as i64),
            cos_fx,
            0i64,
            0i64,
            0i64,
            FX_ONE,
        ],
{
    let m = Mat3Fx { cols: [cos_fx, sin_fx, 0i64, -sin_fx, cos_fx, 0i64, 0i64, 0i64, FX_ONE] };
    proof {
        assert(m.cols@ =~= seq![
            cos_fx,
            sin_fx,
            0i64,
            ((-sin_fx) as i64),
            cos_fx,
            0i64,
            0i64,
            0i64,
            FX_ONE,
        ]);
    }
    m
}

/// A 2D translation matrix: applying it moves points by `t`.
pub fn translate2(t: Vec2Fx) -> (r: Mat3Fx)
    ensures
        r.cols@ == seq![FX_ONE, 0i64, 0i64, 0i64, FX_ONE, 0i64, t.x, t.y, FX_ONE],
{
    let m = Mat3Fx { cols: [FX_ONE, 0i64, 0i64, 0i64, FX_ONE, 0i64, t.x, t.y, FX_ONE] };
    proof {
        assert(m.cols@ =~= seq![FX_ONE, 0i64, 0i64, 0i64, FX_ONE, 0i64, t.x, t.y, FX_ONE]);
    }
    m
}

/// A 2D non-uniform scale matrix: `s.x` horizontally, `s.y` vertically.
pub fn scale2(s: Vec2Fx) -> (r: Mat3Fx)
    ensures
        r.cols@ == seq![s.x, 0i64, 0i64, 0i64, s.y, 0i64, 0i64, 0i64, FX_ONE],
{
    let m = Mat3Fx { cols: [s.x, 0i64, 0i64, 0i64, s.y, 0i64, 0i64, 0i64, FX_ONE] };
    proof {
        assert(m.cols@ =~= seq![s.x, 0i64, 0i64, 0i64, s.y, 0i64, 0i64, 0i64, FX_ONE]);
    }
    m
}

/// A uniform 2D scale matrix: the same factor on both axes.
pub fn scale2_uniform(s: i64) -> (r: Mat3Fx)
    ensures
        r.cols@ == seq![s, 0i64, 0i64, 0i64, s, 0i64, 0i64, 0i64, FX_ONE],
{
    scale2(Vec2Fx::splat(s))
}

} // verus!
