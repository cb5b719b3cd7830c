//! Behaviour of computer-controlled entities.

use vstd::prelude::*;

verus! {

/// An entity that steers itself.
pub trait Enemy {
    /// Picks a new heading at random (see `control::random_ai_steering`).
    fn ai_controller(&mut self);
}

} // verus!
