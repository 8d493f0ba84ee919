//! RGBA colors with fixed-point components.
//!
//! A component of [`FX_ONE`](crate::fx::FX_ONE) is full intensity; zero is
//! none. Classic vector-display palettes are built from the constructors
//! here.

use vstd::prelude::*;
use crate::fx::{div_trunc, fits_coord, FX_ONE};

verus! {

/// An RGBA color: red, green, blue and alpha components in fixed point.
#[derive(Clone, Copy, Debug, PartialEq, Eq, Structural)]
pub struct Rgba(pub i64, pub i64, pub i64, pub i64);

impl Rgba {
    /// A color from RGB components with full alpha.
    pub fn rgb(r: i64, g: i64, b: i64) -> (c: Rgba)
        ensures
            c == (Rgba(r, g, b, FX_ONE)),
    {
        Rgba(r, g, b, FX_ONE)
    }

    /// A copy of this color with the alpha replaced.
    pub fn with_a(self, a: i64) -> (c: Rgba)
        ensures
            c == (Rgba(self.0, self.1, self.2, a)),
    {
        Rgba(self.0, self.1, self.2, a)
    }

    /// Opaque white.
    pub fn white() -> (c: Rgba)
        ensures
            c == (Rgba(FX_ONE, FX_ONE, FX_ONE, FX_ONE)),
    {
        Rgba(FX_ONE, FX_ONE, FX_ONE, FX_ONE)
    }

    /// Opaque black.
    pub fn black() -> (c: Rgba)
        ensures
            c == (Rgba(0i64, 0i64, 0i64, FX_ONE)),
    {
        Rgba(0, 0, 0, FX_ONE)
    }

    /// Opaque green, the classic vector monitor color.
    pub fn green() -> (c: Rgba)
        ensures
            c == (Rgba(0i64, FX_ONE, 0i64, FX_ONE)),
    {
        Rgba(0, FX_ONE, 0, FX_ONE)
    }

    /// Linear interpolation between two colors, component by component.
    pub fn lerp(self, other: Rgba, t: i64) -> (c: Rgba)
        requires
            fits_coord(self.0 as int),
            fits_coord(self.1 as int),
            fits_coord(self.2 as int),
            fits_coord(self.3 as int),
            fits_coord(other.0 as int),
            fits_coord(other.1 as int),
            fits_coord(other.2 as int),
            fits_coord(other.3 as int),
            fits_coord(t as int),
        ensures
            c.0 == self.0 + div_trunc((other.0 - self.0) * t, FX_ONE as int),
            c.1 == self.1 + div_trunc((other.1 - self.1) * t, FX_ONE as int),
            c.2 == self.2 + div_trunc((other.2 - self.2) * t, FX_ONE as int),
            c.3 == self.3 + div_trunc((other.3 - self.3) * t, FX_ONE as int),
    {
        Rgba(
            crate::fx::lerp(self.0, other.0, t),
            crate::fx::lerp(self.1, other.1, t),
            crate::fx::lerp(self.2, other.2, t),
            crate::fx::lerp(self.3, other.3, t),
        )
    }
}

impl Default for Rgba {
    /// Opaque white.
    fn default() -> (c: Rgba)
        ensures
            c == (Rgba(FX_ONE, FX_ONE, FX_ONE, FX_ONE)),
    {
        Rgba::white()
    }
}

} // verus!
