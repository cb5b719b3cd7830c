//! The isometric world with its fixed 32 by 32 pixel tiles.

pub mod control;
pub mod enemy;
pub mod player;

use vstd::prelude::*;

use crate::engine::isometric::{self, RatVec2, TileSize, iso_to_map, iso_to_world, fits_point, same_point};

verus! {

/// Width and height of a world tile, in pixels.
pub const TILE_SIZE: i64 = 32;

/// Converts a world position to map (tile) coordinates, for 32 by 32 tiles.
pub fn world_to_map(world_pos: RatVec2) -> (map_pos: RatVec2)
    requires
        world_pos.den != 0,
        fits_point(iso_to_map(world_pos@, 32, 32)),
    ensures
        map_pos@ == iso_to_map(world_pos@, 32, 32),
        map_pos.den != 0,
{
    isometric::world_to_map(world_pos, TileSize { x: TILE_SIZE, y: TILE_SIZE })
}

/// Converts map (tile) coordinates to a world position, for 32 by 32 tiles.
pub fn map_to_world(map_pos: RatVec2) -> (world_pos: RatVec2)
    requires
        map_pos.den != 0,
        fits_point(iso_to_world(map_pos@, 32, 32)),
    ensures
        world_pos@ == iso_to_world(map_pos@, 32, 32),
        world_pos.den != 0,
{
    isometric::map_to_world(map_pos, TileSize { x: TILE_SIZE, y: TILE_SIZE })
}


/// With 32 by 32 tiles, a world point `(x, y)` lies at map point
/// `(x/32 + y/16, -x/32 + y/16)`, and a map point `(i, j)` at world point
/// `(16 (i - j) - 16, 8 (i + j))`: the same projection as the general one
/// for a 32 by 32 tile size.
pub proof fn law_world_tile_formulas(w: (int, int, int), m: (int, int, int))
    ensures
        same_point(iso_to_map(w, 32, 32), (w.0 + 2 * w.1, 2 * w.1 - w.0, 32 * w.2)),
        same_point(iso_to_world(m, 32, 32), (16 * (m.0 - m.1) - 16 * m.2, 8 * (m.0 + m.1), m.2)),
{
    let p = iso_to_map(w, 32, 32);
    assert(p.0 * (32 * w.2) == (w.0 + 2 * w.1) * p.2) by (nonlinear_arith)
        requires p.0 == w.0 * 32 + 2 * w.1 * 32, p.2 == w.2 * 32 * 32;
    assert(p.1 * (32 * w.2) == (2 * w.1 - w.0) * p.2) by (nonlinear_arith)
        requires p.1 == 2 * w.1 * 32 - w.0 * 32, p.2 == w.2 * 32 * 32;
    let q = iso_to_world(m, 32, 32);
    assert(q.0 * m.2 == (16 * (m.0 - m.1) - 16 * m.2) * q.2) by (nonlinear_arith)
        requires q.0 == 2 * 32 * (m.0 - m.1 - m.2), q.2 == 4 * m.2;
    assert(q.1 * m.2 == (8 * (m.0 + m.1)) * q.2) by (nonlinear_arith)
        requires q.1 == 32 * (m.0 + m.1), q.2 == 4 * m.2;
}
} // verus!
