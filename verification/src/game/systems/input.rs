//! Keyboard steering of the player.

use vstd::prelude::*;

verus! {

/// The unit velocity the held keys ask for, checked in the order up, left,
/// down, right (screen coordinates: up is negative y); no key, no motion.
pub open spec fn spec_key_velocity(up: bool, left: bool, down: bool, right: bool) -> (i32, i32) {
    if up {
        (0i32, -1i32)
    } else if left {
        (-1i32, 0i32)
    } else if down {
        (0i32, 1i32)
    } else if right {
        (1i32, 0i32)
    } else {
        (0i32, 0i32)
    }
}

/// Player input handling.
pub struct InputSystem;

impl InputSystem {
    /// The player's velocity for the held keys (see `spec_key_velocity`);
    /// a nonzero velocity also sets the player's target one tile ahead.
    pub fn control_player(up: bool, left: bool, down: bool, right: bool) -> (vel: (i32, i32))
        ensures
            vel == spec_key_velocity(up, left, down, right),
    {
        if up {
            (0, -1)
        } else if left {
            (-1, 0)
        } else if down {
            (0, 1)
        } else if right {
            (1, 0)
        } else {
            (0, 0)
        }
    }
}

/// The keys steer along exactly one axis by one unit, or not at all.
pub proof fn law_key_velocity_is_axis_aligned(up: bool, left: bool, down: bool, right: bool)
    ensures
        ({
            let v = spec_key_velocity(up, left, down, right);
            (v.0 == 0 && -1 <= v.1 <= 1) || (v.1 == 0 && (v.0 == 1 || v.0 == -1))
        }),
        (up || left || down || right) <==> spec_key_velocity(up, left, down, right) != (0i32, 0i32),
{
}

} // verus!
