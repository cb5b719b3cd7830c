//! Wandering of monsters.

use vstd::prelude::*;

use crate::world::control::gen_range_i32;

verus! {

/// The velocity a roll picks: 0 up, 1 left, 2 down, 3 right, otherwise none.
pub open spec fn spec_roll_velocity(roll: i32) -> (i32, i32) {
    if roll == 0 {
        (0i32, -1i32)
    } else if roll == 1 {
        (-1i32, 0i32)
    } else if roll == 2 {
        (0i32, 1i32)
    } else if roll == 3 {
        (1i32, 0i32)
    } else {
        (0i32, 0i32)
    }
}

/// Monster behaviour.
pub struct AiSystem;

impl AiSystem {
    /// The velocity a roll picks (see `spec_roll_velocity`).
    pub fn roll_velocity(roll: i32) -> (vel: (i32, i32))
        ensures
            vel == spec_roll_velocity(roll),
    {
        match roll {
            0 => (0, -1),
            1 => (-1, 0),
            2 => (0, 1),
            3 => (1, 0),
            _ => (0, 0),
        }
    }

    /// A monster's new velocity: a roll in `0..3` picks up, left or down;
    /// a nonzero velocity also sets the monster's target one tile ahead.
    pub fn control_monsters() -> (vel: (i32, i32))
        ensures
            exists|roll: i32| 0 <= roll < 3 && vel == spec_roll_velocity(roll),
    {
        let roll = gen_range_i32(0, 3);
        Self::roll_velocity(roll)
    }
}

/// The rolls drawn from `0..3` never pick the rightward velocity nor a
/// standstill: a wandering monster always moves, up, left or down.
pub proof fn law_monsters_never_wander_right(roll: i32)
    requires
        0 <= roll < 3,
    ensures
        spec_roll_velocity(roll) != (1i32, 0i32),
        spec_roll_velocity(roll) != (0i32, 0i32),
{
}

} // verus!
