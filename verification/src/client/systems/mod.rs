//! Decisions of the client systems.

pub mod input;
