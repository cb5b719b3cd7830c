//! Types and conversions shared by client and server.

pub mod map;
pub mod messages;

use vstd::prelude::*;

verus! {

/// Edge length of a square world tile, in pixels.
pub const TILE_SIZE: i64 = 32;

/// Network identifier of a connected client.
pub type NetId = u32;

/// A position on the tile grid (column `x`, row `y`).
#[derive(Clone, Copy, Debug, PartialEq, Eq, Structural)]
pub struct TilePos {
    pub x: i32,
    pub y: i32,
}

/// A world-space position in whole pixels (coordinates rounded down).
#[derive(Clone, Copy, Debug, PartialEq, Eq, Structural)]
pub struct WorldPos {
    pub x: i64,
    pub y: i64,
}

/// Floor of `a / b` for a positive divisor (mathematical floor division).
pub open spec fn floor_div(a: int, b: int) -> int {
    a / b
}

/// Executable floor division of a signed value by a positive divisor.
pub fn floor_div_i64(a: i64, b: i64) -> (q: i64)
    requires
        b > 0,
    ensures
        q == floor_div(a as int, b as int),
{
    if a >= 0 {
        let q = (a as u64) / (b as u64);
        proof {
            assert(q as int == (a as int) / (b as int));
        }
        q as i64
    } else {
        let n: u64 = (-(a + 1)) as u64;
        let m: u64 = n / (b as u64);
        proof {
            let ai = a as int;
            let bi = b as int;
            let ni = n as int;
            let mi = m as int;
            assert(ni == -ai - 1);
            assert(mi == ni / bi);
            assert(ni == mi * bi + ni % bi) by (nonlinear_arith)
                requires mi == ni / bi, bi > 0;
            assert(0 <= ni % bi < bi) by (nonlinear_arith) requires bi > 0;
            let r = ni % bi;
            // a = -(m*b + r) - 1 = (-m - 1) * b + (b - 1 - r)
            assert(ai == (-mi - 1) * bi + (bi - 1 - r)) by (nonlinear_arith)
                requires ni == mi * bi + r, ni == -ai - 1;
            vstd::arithmetic::div_mod::lemma_fundamental_div_mod_converse(ai, bi, -mi - 1, bi - 1 - r);
            assert(mi <= ni) by (nonlinear_arith) requires mi == ni / bi, bi > 0, ni >= 0;
        }
        -(m as i64) - 1
    }
}

/// Clamps a value into the `i32` range, as a saturating cast does.
pub open spec fn saturate_i32(v: int) -> i32 {
    if v < i32::MIN as int {
        i32::MIN
    } else if v > i32::MAX as int {
        i32::MAX
    } else {
        v as i32
    }
}

/// Executable saturating conversion to `i32`.
pub fn saturating_i32(v: i64) -> (r: i32)
    ensures
        r == saturate_i32(v as int),
{
    if v < i32::MIN as i64 {
        i32::MIN
    } else if v > i32::MAX as i64 {
        i32::MAX
    } else {
        v as i32
    }
}

/// World position of the top-left corner of a tile.
pub open spec fn spec_tile_to_world(tile: TilePos) -> WorldPos {
    WorldPos { x: (tile.x * TILE_SIZE) as i64, y: (tile.y * TILE_SIZE) as i64 }
}

/// Tile containing a world position.
pub open spec fn spec_world_to_tile(world: WorldPos) -> TilePos {
    TilePos {
        x: saturate_i32(floor_div(world.x as int, TILE_SIZE as int)),
        y: saturate_i32(floor_div(world.y as int, TILE_SIZE as int)),
    }
}

/// Converts a tile position to the world position of its top-left corner.
pub fn tile_to_world(tile: TilePos) -> (world: WorldPos)
    ensures
        world == spec_tile_to_world(tile),
        world.x == tile.x * TILE_SIZE,
        world.y == tile.y * TILE_SIZE,
{
    WorldPos { x: tile.x as i64 * TILE_SIZE, y: tile.y as i64 * TILE_SIZE }
}

/// Converts a world position to the tile that contains it.
pub fn world_to_tile(world: WorldPos) -> (tile: TilePos)
    ensures
        tile == spec_world_to_tile(world),
{
    let x = floor_div_i64(world.x, TILE_SIZE);
    let y = floor_div_i64(world.y, TILE_SIZE);
    TilePos { x: saturating_i32(x), y: saturating_i32(y) }
}

/// Converting a tile to world space and back gives the same tile.
pub proof fn lemma_tile_world_round_trip(tile: TilePos)
    ensures
        spec_world_to_tile(spec_tile_to_world(tile)) == tile,
{
    let w = spec_tile_to_world(tile);
    vstd::arithmetic::div_mod::lemma_div_multiples_vanish(tile.x as int, TILE_SIZE as int);
    vstd::arithmetic::div_mod::lemma_div_multiples_vanish(tile.y as int, TILE_SIZE as int);
    assert(tile.x * TILE_SIZE == TILE_SIZE * tile.x);
    assert(tile.y * TILE_SIZE == TILE_SIZE * tile.y);
}

} // verus!
