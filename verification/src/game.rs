//! Capability traits a host hands to games.
//!
//! The full game lifecycle (fixed-timestep update and render into a
//! display list) runs in the host layer; the library defines the narrow
//! capabilities that need no platform resources.

use vstd::prelude::*;

verus! {

/// Audio output: fire-and-forget sound effects by identifier. The
/// default implementation ignores the call, so running without an audio
/// backend is always valid.
pub trait AudioOut {
    /// Play a sound effect by identifier.
    fn beep(&self, _id: &'static str) {
    }
}

/// Asset loading capability; a placeholder with no requirements yet.
pub trait Assets {

}

} // verus!
