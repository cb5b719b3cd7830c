//! Decisions of the game systems.

pub mod ai;
pub mod input;
