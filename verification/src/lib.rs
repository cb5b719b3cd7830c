//! Game logic of the Dyrah tile-based multiplayer RPG: the tile map model,
//! collision grid, server-side lobby and movement rules, isometric projection
//! and the small decision procedures of the game systems.

pub mod shared;
pub mod server;
pub mod engine;
pub mod world;
pub mod protocol;
pub mod client;
pub mod game;
