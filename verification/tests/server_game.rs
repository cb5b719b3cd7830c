use dyrah::server::game::{Game, Outgoing, ServerEvent};
use dyrah::server::map::{CollisionGrid, GameMap};
use dyrah::shared::map::{TiledLayer, TiledMap, TiledObject};
use dyrah::shared::messages::{ClientInput, ClientMessage, ServerMessage};
use dyrah::shared::{TilePos, WorldPos};

/// A 5 x 4 map whose `colliders` layer blocks probe row 2 column 3 (tile (3, 1))
/// and whose player spawn lies at tile (1, 1).
fn sample_map() -> TiledMap {
    let mut data = vec![0u32; 20];
    data[2 * 5 + 3] = 4;
    TiledMap {
        width: 5,
        height: 4,
        tilewidth: 32,
        tileheight: 32,
        layers: vec![
            TiledLayer {
                width: Some(5),
                height: Some(4),
                name: "colliders".to_string(),
                visible: false,
                data: Some(data),
                objects: None,
            },
            TiledLayer {
                width: None,
                height: None,
                name: "spawns".to_string(),
                visible: true,
                data: None,
                objects: Some(vec![TiledObject { id: 1, name: "player".to_string(), x: 32, y: 64, width: 32, height: 32 }]),
            },
        ],
        tilesets: vec![],
    }
}

fn keys(left: bool, up: bool, right: bool, down: bool) -> ClientInput {
    ClientInput { left, up, right, down, mouse_tile_pos: None }
}

#[test]
fn new_grid_is_all_free() {
    let map = GameMap::new(sample_map());
    let grid = CollisionGrid::new(&map);
    for y in 0..4 {
        for x in 0..5 {
            assert!(grid.is_walkable(TilePos { x, y }));
        }
    }
    assert!(!grid.is_walkable(TilePos { x: 5, y: 0 }));
    assert!(!grid.is_walkable(TilePos { x: 0, y: -1 }));
}

#[test]
fn grid_update_marks_map_and_colliders() {
    let map = GameMap::new(sample_map());
    let mut grid = CollisionGrid::new(&map);
    grid.update(&map, &[TilePos { x: 0, y: 0 }, TilePos { x: -1, y: 2 }, TilePos { x: 9, y: 9 }]);
    assert!(!grid.is_walkable(TilePos { x: 3, y: 1 }));
    assert!(!grid.is_walkable(TilePos { x: 0, y: 0 }));
    assert!(grid.is_walkable(TilePos { x: 1, y: 1 }));
    // The bottom row probes a row outside the layer, so it is blocked.
    assert!(!grid.is_walkable(TilePos { x: 2, y: 3 }));
    grid.update(&map, &[]);
    assert!(grid.is_walkable(TilePos { x: 0, y: 0 }));
}

#[test]
fn map_spawn_and_walkability() {
    let map = GameMap::new(sample_map());
    // Object at (32, 64) lies in column 1, row 2 - 1 = 1.
    assert_eq!(map.get_spawn("player"), Some(TilePos { x: 1, y: 1 }));
    assert_eq!(map.get_spawn("dragon"), None);
    let grid = CollisionGrid::new(&map);
    assert!(map.is_walkable(TilePos { x: 4, y: 3 }, &grid));
}

fn spawned(id: u32, x: i64, y: i64) -> ServerMessage {
    ServerMessage::PlayerSpawned { id, position: WorldPos { x, y } }
}

fn is_reliable_to(o: &Outgoing, to: u32, msg: &ServerMessage) -> bool {
    match o {
        Outgoing::SendReliable { to: t, message } => *t == to && same(message, msg),
        _ => false,
    }
}

fn same(a: &ServerMessage, b: &ServerMessage) -> bool {
    match (a, b) {
        (ServerMessage::PlayerSpawned { id: i, position: p }, ServerMessage::PlayerSpawned { id: j, position: q }) => i == j && p == q,
        (ServerMessage::PlayerMoved { id: i, position: p }, ServerMessage::PlayerMoved { id: j, position: q }) => i == j && p == q,
        (ServerMessage::PlayerDespawned { id: i }, ServerMessage::PlayerDespawned { id: j }) => i == j,
        _ => false,
    }
}

#[test]
fn connecting_clients_learn_about_each_other() {
    let mut game = Game::new(GameMap::new(sample_map()));
    let out = game.on_client_connected(7);
    assert_eq!(out.len(), 1);
    assert!(matches!(&out[0], Outgoing::BroadcastReliable(m) if same(m, &spawned(7, 32, 32))));
    let out = game.on_client_connected(8);
    assert_eq!(out.len(), 2);
    assert!(is_reliable_to(&out[0], 8, &spawned(7, 32, 32)));
    assert!(matches!(&out[1], Outgoing::BroadcastReliable(m) if same(m, &spawned(8, 32, 32))));
}

#[test]
fn input_moves_player_onto_free_tiles_only() {
    let mut game = Game::new(GameMap::new(sample_map()));
    game.on_client_connected(1);
    game.update();
    // Right: (2, 1) is free.
    let out = game.on_client_input(1, &keys(false, false, true, false));
    assert_eq!(out.len(), 1);
    assert!(matches!(&out[0], Outgoing::Broadcast(m) if same(m, &ServerMessage::PlayerMoved { id: 1, position: WorldPos { x: 64, y: 32 } })));
    game.update();
    // Right again: (3, 1) is blocked by the colliders layer.
    assert_eq!(game.on_client_input(1, &keys(false, false, true, false)).len(), 0);
    // Up: (2, 0) is free.
    let out = game.on_client_input(1, &keys(false, true, false, false));
    assert!(matches!(&out[0], Outgoing::Broadcast(m) if same(m, &ServerMessage::PlayerMoved { id: 1, position: WorldPos { x: 64, y: 0 } })));
    // Up again: (2, -1) lies off the grid.
    assert_eq!(game.on_client_input(1, &keys(false, true, false, false)).len(), 0);
}

#[test]
fn idle_input_is_ignored_after_update() {
    let mut game = Game::new(GameMap::new(sample_map()));
    game.on_client_connected(1);
    game.update();
    assert_eq!(game.on_client_input(1, &keys(false, false, false, false)).len(), 0);
    assert_eq!(game.on_client_input(1, &keys(true, false, true, false)).len(), 0);
}

#[test]
fn players_block_each_other() {
    let mut game = Game::new(GameMap::new(sample_map()));
    game.on_client_connected(1);
    game.on_client_connected(2);
    // Both stand on (1, 1); move player 2 right, then player 1 cannot follow once the grid is updated.
    assert_eq!(game.on_client_input(2, &keys(false, false, true, false)).len(), 1);
    game.update();
    assert_eq!(game.on_client_input(1, &keys(false, false, true, false)).len(), 0);
}

#[test]
fn input_from_unknown_client_is_ignored() {
    let mut game = Game::new(GameMap::new(sample_map()));
    assert_eq!(game.on_client_input(3, &keys(false, false, true, false)).len(), 0);
}

#[test]
fn disconnect_announces_departure() {
    let mut game = Game::new(GameMap::new(sample_map()));
    game.on_client_connected(4);
    let out = game.on_client_disconnected(4);
    assert_eq!(out.len(), 1);
    assert!(matches!(&out[0], Outgoing::BroadcastReliable(m) if same(m, &ServerMessage::PlayerDespawned { id: 4 })));
    // Gone from the lobby: its input is ignored and newcomers are not told about it.
    assert_eq!(game.on_client_input(4, &keys(false, false, true, false)).len(), 0);
    assert_eq!(game.on_client_connected(5).len(), 1);
    // Disconnecting an unknown client still announces it.
    assert_eq!(game.on_client_disconnected(99).len(), 1);
}

#[test]
fn handle_event_dispatches() {
    let mut game = Game::new(GameMap::new(sample_map()));
    assert!(game.can_spawn());
    assert_eq!(game.handle_event(ServerEvent::ClientConnected(3)).len(), 1);
    let msg = ClientMessage::PlayerUpdate { input: keys(false, false, false, true) };
    assert_eq!(game.handle_event(ServerEvent::MessageReceived(3, msg)).len(), 1);
    assert_eq!(game.handle_event(ServerEvent::ClientDisconnected(3)).len(), 1);
}

#[test]
fn clients_keep_their_own_players() {
    let mut game = Game::new(GameMap::new(sample_map()));
    game.on_client_connected(1);
    game.on_client_connected(2);
    // Player 1 steps right onto (2, 1); player 2 stays on the spawn (1, 1).
    assert_eq!(game.on_client_input(1, &keys(false, false, true, false)).len(), 1);
    let out = game.on_client_connected(3);
    assert_eq!(out.len(), 3);
    assert!(is_reliable_to(&out[0], 3, &spawned(1, 64, 32)));
    assert!(is_reliable_to(&out[1], 3, &spawned(2, 32, 32)));
    // Client 1 leaves; the others keep their entries and their tiles.
    game.on_client_disconnected(1);
    let out = game.on_client_connected(4);
    assert_eq!(out.len(), 3);
    assert!(is_reliable_to(&out[0], 4, &spawned(2, 32, 32)));
    assert!(is_reliable_to(&out[1], 4, &spawned(3, 32, 32)));
    // A client that connects again is mapped to a fresh player on the spawn.
    game.on_client_input(2, &keys(false, true, false, false));
    let out = game.on_client_connected(2);
    assert!(is_reliable_to(&out[0], 2, &spawned(2, 32, 0)));
    assert!(matches!(&out[3], Outgoing::BroadcastReliable(m) if same(m, &spawned(2, 32, 32))));
}
