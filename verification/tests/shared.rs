use dyrah::shared::messages::ClientInput;
use dyrah::shared::{floor_div_i64, saturating_i32, tile_to_world, world_to_tile, TilePos, WorldPos, TILE_SIZE};

fn input(left: bool, up: bool, right: bool, down: bool) -> ClientInput {
    ClientInput { left, up, right, down, mouse_tile_pos: None }
}

#[test]
fn tile_size_is_thirty_two_pixels() {
    assert_eq!(TILE_SIZE, 32);
}

#[test]
fn tile_to_world_scales_by_tile_size() {
    assert_eq!(tile_to_world(TilePos { x: 3, y: -2 }), WorldPos { x: 96, y: -64 });
    assert_eq!(tile_to_world(TilePos { x: 0, y: 0 }), WorldPos { x: 0, y: 0 });
}

#[test]
fn world_to_tile_rounds_down() {
    assert_eq!(world_to_tile(WorldPos { x: 31, y: 31 }), TilePos { x: 0, y: 0 });
    assert_eq!(world_to_tile(WorldPos { x: 32, y: 0 }), TilePos { x: 1, y: 0 });
    assert_eq!(world_to_tile(WorldPos { x: -1, y: -33 }), TilePos { x: -1, y: -2 });
}

#[test]
fn world_to_tile_saturates_far_away() {
    assert_eq!(world_to_tile(WorldPos { x: i64::MAX, y: i64::MIN }), TilePos { x: i32::MAX, y: i32::MIN });
}

#[test]
fn tile_world_round_trip() {
    for (x, y) in [(0, 0), (5, -7), (-100, 3), (i32::MAX, i32::MIN)] {
        let t = TilePos { x, y };
        assert_eq!(world_to_tile(tile_to_world(t)), t);
    }
}

#[test]
fn floor_division_rounds_toward_negative_infinity() {
    assert_eq!(floor_div_i64(7, 2), 3);
    assert_eq!(floor_div_i64(-7, 2), -4);
    assert_eq!(floor_div_i64(-8, 2), -4);
    assert_eq!(floor_div_i64(i64::MIN, 1), i64::MIN);
    assert_eq!(floor_div_i64(0, 5), 0);
}

#[test]
fn saturating_conversion_clamps() {
    assert_eq!(saturating_i32(5), 5);
    assert_eq!(saturating_i32(i64::MAX), i32::MAX);
    assert_eq!(saturating_i32(i64::MIN), i32::MIN);
}

#[test]
fn direction_follows_held_keys() {
    assert_eq!(input(false, false, true, false).to_direction(), TilePos { x: 1, y: 0 });
    assert_eq!(input(true, true, false, false).to_direction(), TilePos { x: -1, y: -1 });
    assert_eq!(input(false, false, false, true).to_direction(), TilePos { x: 0, y: 1 });
}

#[test]
fn opposite_keys_cancel() {
    assert_eq!(input(true, true, true, true).to_direction(), TilePos { x: 0, y: 0 });
    assert_eq!(input(false, false, false, false).to_direction(), TilePos { x: 0, y: 0 });
}
