use dyrah::engine::isometric::{map_to_world, world_to_map, RatVec2, TileSize};

fn value(p: RatVec2) -> (f64, f64) {
    (p.x as f64 / p.den as f64, p.y as f64 / p.den as f64)
}

#[test]
fn map_to_world_projects_tiles() {
    let tile = TileSize { x: 32, y: 32 };
    // Tile (1, 0): 16 px right and 8 px down, then half a tile left.
    assert_eq!(value(map_to_world(RatVec2 { x: 1, y: 0, den: 1 }, tile)), (0.0, 8.0));
    assert_eq!(value(map_to_world(RatVec2 { x: 0, y: 1, den: 1 }, tile)), (-32.0, 8.0));
    assert_eq!(value(map_to_world(RatVec2 { x: 0, y: 0, den: 1 }, tile)), (-16.0, 0.0));
    assert_eq!(value(map_to_world(RatVec2 { x: 2, y: 3, den: 1 }, tile)), (-32.0, 40.0));
}

#[test]
fn world_to_map_inverts_the_matrix() {
    let tile = TileSize { x: 32, y: 32 };
    assert_eq!(value(world_to_map(RatVec2 { x: 16, y: 8, den: 1 }, tile)), (1.0, 0.0));
    assert_eq!(value(world_to_map(RatVec2 { x: -16, y: 8, den: 1 }, tile)), (0.0, 1.0));
    assert_eq!(value(world_to_map(RatVec2 { x: 0, y: 0, den: 1 }, tile)), (0.0, 0.0));
}

#[test]
fn round_trip_through_world_is_half_a_tile_off() {
    let tile = TileSize { x: 64, y: 32 };
    for (x, y) in [(0, 0), (3, 5), (-2, 7)] {
        let back = world_to_map(map_to_world(RatVec2 { x, y, den: 1 }, tile), tile);
        assert_eq!(value(back), (x as f64 - 0.5, y as f64 + 0.5));
    }
}

#[test]
fn round_trip_through_map_is_half_a_tile_left() {
    let tile = TileSize { x: 32, y: 16 };
    let w = RatVec2 { x: 100, y: -40, den: 1 };
    let back = map_to_world(world_to_map(w, tile), tile);
    assert_eq!(value(back), (100.0 - 16.0, -40.0));
}

#[test]
fn fixed_tile_world_projection() {
    assert_eq!(value(dyrah::world::map_to_world(RatVec2 { x: 1, y: 0, den: 1 })), (0.0, 8.0));
    assert_eq!(value(dyrah::world::world_to_map(RatVec2 { x: 16, y: 8, den: 1 })), (1.0, 0.0));
    assert_eq!(dyrah::world::TILE_SIZE, 32);
}

#[test]
fn world_to_map_is_linear() {
    let tile = TileSize { x: 32, y: 32 };
    let a = value(world_to_map(RatVec2 { x: 48, y: -8, den: 1 }, tile));
    let b = value(world_to_map(RatVec2 { x: -16, y: 40, den: 1 }, tile));
    let sum = value(world_to_map(RatVec2 { x: 32, y: 32, den: 1 }, tile));
    assert_eq!(sum, (a.0 + b.0, a.1 + b.1));
    let scaled = value(world_to_map(RatVec2 { x: 144, y: -24, den: 1 }, tile));
    assert_eq!(scaled, (3.0 * a.0, 3.0 * a.1));
    assert_eq!(value(world_to_map(RatVec2 { x: 0, y: 0, den: 5 }, tile)), (0.0, 0.0));
}

#[test]
fn map_steps_move_by_half_tiles() {
    let tile = TileSize { x: 64, y: 32 };
    let base = value(map_to_world(RatVec2 { x: 3, y: 5, den: 1 }, tile));
    let right = value(map_to_world(RatVec2 { x: 4, y: 5, den: 1 }, tile));
    let down = value(map_to_world(RatVec2 { x: 3, y: 6, den: 1 }, tile));
    assert_eq!((right.0 - base.0, right.1 - base.1), (32.0, 8.0));
    assert_eq!((down.0 - base.0, down.1 - base.1), (-32.0, 8.0));
    // Depth follows the coordinate sum.
    let other = value(map_to_world(RatVec2 { x: 9, y: 0, den: 1 }, tile));
    assert!(other.1 > base.1);
}

#[test]
fn half_tile_shift_undoes_the_projection() {
    let tile = TileSize { x: 32, y: 32 };
    for (x, y) in [(0, 0), (2, 3), (-4, 1)] {
        let w = map_to_world(RatVec2 { x, y, den: 1 }, tile);
        let shifted = RatVec2 { x: w.x + 16 * w.den, y: w.y, den: w.den };
        assert_eq!(value(world_to_map(shifted, tile)), (x as f64, y as f64));
    }
}
