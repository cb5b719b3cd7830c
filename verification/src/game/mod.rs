//! The top-down game's systems.

pub mod lobby;
pub mod systems;
