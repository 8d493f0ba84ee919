//! Input abstraction for keyboard and gamepad-style controls.
//!
//! Games read digital buttons and named virtual axes; platform backends
//! own the devices and fill these values in each tick.

use vstd::prelude::*;

verus! {

/// Keyboard keys commonly used in arcade-style games.
#[derive(Clone, Copy, Debug, PartialEq, Eq, Hash, Structural)]
pub enum Key {
    /// Left arrow or equivalent.
    Left,
    /// Right arrow or equivalent.
    Right,
    /// Up arrow or equivalent.
    Up,
    /// Down arrow or equivalent.
    Down,
    /// Spacebar, typically fire or action.
    Space,
    /// Enter key, typically start or confirm.
    Enter,
    /// Escape key, typically pause or menu.
    Escape,
    /// W key, alternate up.
    W,
    /// S key, alternate down.
    S,
    /// Z key, action button.
    Z,
    /// X key, action button.
    X,
    /// C key, action button.
    C,
}

/// Virtual axes for analog input such as gamepad sticks.
#[derive(Clone, Copy, Debug, PartialEq, Eq, Hash, Structural)]
pub enum Axis {
    /// Horizontal movement axis.
    MoveX,
    /// Vertical movement axis.
    MoveY,
    /// Horizontal aim axis.
    AimX,
    /// Vertical aim axis.
    AimY,
    /// Thrust or acceleration axis.
    Thrust,
}

/// State of a digital button for one tick.
#[derive(Clone, Copy, Debug, PartialEq, Eq, Structural)]
pub struct Button {
    /// The button is currently held down.
    pub is_down: bool,
    /// The button was pressed this tick.
    pub went_down: bool,
    /// The button was released this tick.
    pub went_up: bool,
}

impl Button {
    /// A button in the fully released state.
    pub fn up() -> (r: Button)
        ensures
            r == (Button { is_down: false, went_down: false, went_up: false }),
    {
        Button { is_down: false, went_down: false, went_up: false }
    }
}

} // verus!
