//! Client-side game logic.

pub mod game;
pub mod map;
pub mod systems;

use vstd::prelude::*;

verus! {

/// Marks a creature entity.
pub struct Creature;

} // verus!
