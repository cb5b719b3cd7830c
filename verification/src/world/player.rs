//! Behaviour of the entity the local player controls.

use vstd::prelude::*;

verus! {

/// An entity steered from the keyboard.
pub trait Player {
    /// Picks a heading from the held keys (see `control::keyboard_steering`).
    fn keyboard_controller(&mut self);
}

} // verus!
