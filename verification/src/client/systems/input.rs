//! Keyboard steering of the local player.

use vstd::prelude::*;

use crate::game::systems::input::{InputSystem as GameInput, spec_key_velocity};

verus! {

/// Player input handling.
pub struct InputSystem;

impl InputSystem {
    /// The player's velocity for the held keys: up, left, down and right in
    /// that order of precedence, no key no motion.
    pub fn control_player(up: bool, left: bool, down: bool, right: bool) -> (vel: (i32, i32))
        ensures
            vel == spec_key_velocity(up, left, down, right),
    {
        GameInput::control_player(up, left, down, right)
    }
}

} // verus!
