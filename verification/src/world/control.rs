//! How an entity of the isometric world picks its heading and animation,
//! from the keyboard or at random.

use vstd::prelude::*;

verus! {

/// The four isometric walking directions, or standing still.
#[derive(Clone, Copy, Debug, PartialEq, Eq, Structural)]
pub enum Heading {
    Still,
    UpRight,
    UpLeft,
    DownLeft,
    DownRight,
}

/// A heading and the animation (row of the sprite sheet) that goes with it.
#[derive(Clone, Copy, Debug, PartialEq, Eq, Structural)]
pub struct Steering {
    pub heading: Heading,
    pub animation: usize,
}

impl Heading {
    /// The velocity of the heading in half pixels per tick:
    /// `UpRight` is `(1, -0.5)` pixels, that is `(2, -1)` half pixels.
    pub open spec fn spec_velocity_halves(&self) -> (i32, i32) {
        match self {
            Heading::Still => (0i32, 0i32),
            Heading::UpRight => (2i32, -1i32),
            Heading::UpLeft => (-2i32, -1i32),
            Heading::DownLeft => (-2i32, 1i32),
            Heading::DownRight => (2i32, 1i32),
        }
    }

    /// The velocity of the heading in half pixels per tick.
    pub fn velocity_halves(&self) -> (v: (i32, i32))
        ensures
            v == self.spec_velocity_halves(),
    {
        match self {
            Heading::Still => (0, 0),
            Heading::UpRight => (2, -1),
            Heading::UpLeft => (-2, -1),
            Heading::DownLeft => (-2, 1),
            Heading::DownRight => (2, 1),
        }
    }
}

/// The idle animation that follows a walking animation: walking rows 4 to 7
/// fall back to idle rows 0 to 3; other rows have none.
pub open spec fn spec_idle_animation(current: usize) -> Option<usize> {
    if 4 <= current <= 7 {
        Some((current - 4) as usize)
    } else {
        None
    }
}

/// The walking steering for direction `d` (0 up-right, 1 up-left,
/// 2 down-left, 3 down-right).
pub open spec fn walking(d: int) -> Steering {
    if d == 0 {
        Steering { heading: Heading::UpRight, animation: 4 }
    } else if d == 1 {
        Steering { heading: Heading::UpLeft, animation: 5 }
    } else if d == 2 {
        Steering { heading: Heading::DownLeft, animation: 6 }
    } else {
        Steering { heading: Heading::DownRight, animation: 7 }
    }
}

/// Stopping: no velocity, and the idle animation of the current walk, if any.
pub open spec fn stopping(current: usize) -> Option<Steering> {
    match spec_idle_animation(current) {
        Some(a) => Some(Steering { heading: Heading::Still, animation: a }),
        None => None,
    }
}

/// The idle animation that follows the current animation, if any.
pub fn idle_animation(current: usize) -> (idle: Option<usize>)
    ensures
        idle == spec_idle_animation(current),
{
    if current >= 4 && current <= 7 {
        Some(current - 4)
    } else {
        None
    }
}

/// The steering a random roll in `0..21` asks for: rolls 0 to 3 start a walk
/// in one of the four directions, every other roll stops. `None` means the
/// entity keeps its steering (it stops while not walking).
pub open spec fn spec_ai_steering(roll: i32, current_animation: usize) -> Option<Steering> {
    if 0 <= roll <= 3 {
        Some(walking(roll as int))
    } else {
        stopping(current_animation)
    }
}

/// The steering the held keys ask for, checked in the order up, left, down,
/// right; with no key held the entity stops. `None` means the entity keeps
/// its steering.
pub open spec fn spec_keyboard_steering(up: bool, left: bool, down: bool, right: bool, current_animation: usize) -> Option<Steering> {
    if up {
        Some(walking(0))
    } else if left {
        Some(walking(1))
    } else if down {
        Some(walking(2))
    } else if right {
        Some(walking(3))
    } else {
        stopping(current_animation)
    }
}

fn stop(current: usize) -> (s: Option<Steering>)
    ensures
        s == stopping(current),
{
    match idle_animation(current) {
        Some(a) => Some(Steering { heading: Heading::Still, animation: a }),
        None => None,
    }
}

/// The steering a random roll asks for (see `spec_ai_steering`).
pub fn ai_steering(roll: i32, current_animation: usize) -> (s: Option<Steering>)
    ensures
        s == spec_ai_steering(roll, current_animation),
{
    match roll {
        0 => Some(Steering { heading: Heading::UpRight, animation: 4 }),
        1 => Some(Steering { heading: Heading::UpLeft, animation: 5 }),
        2 => Some(Steering { heading: Heading::DownLeft, animation: 6 }),
        3 => Some(Steering { heading: Heading::DownRight, animation: 7 }),
        _ => stop(current_animation),
    }
}

/// The steering the held keys ask for (see `spec_keyboard_steering`).
pub fn keyboard_steering(up: bool, left: bool, down: bool, right: bool, current_animation: usize) -> (s: Option<Steering>)
    ensures
        s == spec_keyboard_steering(up, left, down, right, current_animation),
{
    if up {
        Some(Steering { heading: Heading::UpRight, animation: 4 })
    } else if left {
        Some(Steering { heading: Heading::UpLeft, animation: 5 })
    } else if down {
        Some(Steering { heading: Heading::DownLeft, animation: 6 })
    } else if right {
        Some(Steering { heading: Heading::DownRight, animation: 7 })
    } else {
        stop(current_animation)
    }
}

/// Wraps `macroquad::rand::gen_range` on `i32` (quad-rand's global
/// generator): it scales a 32-bit random value into `[0, 1)`, maps it to
/// `low + (high - low) * r` in `f64` and truncates. For `0 <= low < high`
/// up to 2^20 that computation is exact, so the result lies in `[low, high)`.
/// Which value comes is not stated: it depends on the generator's state.
#[verifier::external_body]
pub(crate) fn gen_range_i32(low: i32, high: i32) -> (r: i32)
    requires
        0 <= low < high <= 0x10_0000,
    ensures
        low <= r < high,
{
    macroquad::rand::gen_range(low, high)
}

/// Draws a roll in `0..21` and returns the steering it asks for: each of the
/// four walks comes on one roll in 21.
pub fn random_ai_steering(current_animation: usize) -> (s: Option<Steering>)
    ensures
        exists|roll: i32| 0 <= roll < 21 && s == spec_ai_steering(roll, current_animation),
{
    let roll = gen_range_i32(0, 21);
    ai_steering(roll, current_animation)
}

/// Rolls that start a walk always start one; at most four rolls do.
pub proof fn law_walks_come_from_low_rolls(roll: i32, current_animation: usize)
    ensures
        0 <= roll <= 3 ==> (spec_ai_steering(roll, current_animation) matches Some(s) && s.heading != Heading::Still),
        roll > 3 ==> (spec_ai_steering(roll, current_animation) matches Some(s) ==> s.heading == Heading::Still),
{
}

/// Stopping always picks the idle row four below the walking row, and never
/// stops an entity that is not walking.
pub proof fn law_stop_keeps_direction(current_animation: usize)
    ensures
        stopping(current_animation) matches Some(s) ==> (s.animation + 4 == current_animation && 4 <= current_animation <= 7),
        !(4 <= current_animation <= 7) ==> stopping(current_animation) is None,
{
}

} // verus!
