//! Fixed-point vectors and the 3x3 matrix used by the transform stack.
//!
//! Coordinates are the fixed-point scalars of [`crate::fx`]: plain 64-bit
//! integers carrying 16 fractional bits.

use vstd::prelude::*;
use crate::fx::{fits_coord, wrap_signed_unit, FX_ONE, WRAP_LIMIT};

verus! {

/// A 2D vector of fixed-point coordinates.
#[derive(Clone, Copy, Debug, PartialEq, Eq, Structural)]
pub struct Vec2Fx {
    pub x: i64,
    pub y: i64,
}

/// A 3D vector of fixed-point coordinates.
#[derive(Clone, Copy, Debug, PartialEq, Eq, Structural)]
pub struct Vec3Fx {
    pub x: i64,
    pub y: i64,
    pub z: i64,
}

/// A 3x3 matrix in column-major order, representing a 2D affine transform
/// in homogeneous coordinates.
#[derive(Clone, Copy, Debug, PartialEq)]
pub struct Mat3Fx {
    pub cols: [i64; 9],
}

impl Vec2Fx {
    /// Build a vector from its coordinates.
    pub fn new(x: i64, y: i64) -> (r: Vec2Fx)
        ensures
            r == (Vec2Fx { x, y }),
    {
        Vec2Fx { x, y }
    }

    /// A vector with both coordinates equal.
    pub fn splat(v: i64) -> (r: Vec2Fx)
        ensures
            r == (Vec2Fx { x: v, y: v }),
    {
        Vec2Fx { x: v, y: v }
    }

    /// Both coordinates lie within the working range of the geometry.
    pub open spec fn fits(self) -> bool {
        fits_coord(self.x as int) && fits_coord(self.y as int)
    }
}

impl Vec3Fx {
    /// Build a vector from its coordinates.
    pub fn new(x: i64, y: i64, z: i64) -> (r: Vec3Fx)
        ensures
            r == (Vec3Fx { x, y, z }),
    {
        Vec3Fx { x, y, z }
    }

    /// All three coordinates lie within the working range of the geometry.
    pub open spec fn fits(self) -> bool {
        fits_coord(self.x as int) && fits_coord(self.y as int) && fits_coord(self.z as int)
    }
}

/// Wrap a 2D position so both coordinates stay within one screen unit,
/// for toroidal wrap-around play fields.
pub fn wrap_position(p: Vec2Fx) -> (r: Vec2Fx)
    requires
        -WRAP_LIMIT <= p.x <= WRAP_LIMIT,
        -WRAP_LIMIT <= p.y <= WRAP_LIMIT,
    ensures
        -FX_ONE <= r.x < FX_ONE,
        -FX_ONE <= r.y < FX_ONE,
        (p.x - r.x) % (2 * FX_ONE as int) == 0,
        (p.y - r.y) % (2 * FX_ONE as int) == 0,
{
    Vec2Fx { x: wrap_signed_unit(p.x), y: wrap_signed_unit(p.y) }
}

} // verus!
