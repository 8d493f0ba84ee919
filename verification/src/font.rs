//! Identifiers for stroke-based vector font styles.
//!
//! The library does not rasterize text: a draw command only tags a string
//! with a style, and a font backend interprets the tag. Styles evoke the
//! aesthetics of different eras of vector arcade cabinets.

use vstd::prelude::*;

verus! {

/// Identifier for a font style. Zero is the backend's default; small
/// numbers name the well-known aesthetics a backend may support.
#[derive(Clone, Copy, Debug, PartialEq, Eq, Hash, Structural)]
pub struct FontStyleId(pub u32);

impl FontStyleId {
    /// The backend's default style.
    pub fn default_style() -> (r: FontStyleId)
        ensures
            r == (FontStyleId(0u32)),
    {
        FontStyleId(0)
    }
}

} // verus!
