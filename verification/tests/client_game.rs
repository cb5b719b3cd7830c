use dyrah::client::game::Game;

#[test]
fn spawned_players_are_found_again() {
    let mut game = Game::new();
    assert_eq!(game.entity_of(1), None);
    game.on_player_spawned(1, 10);
    game.on_player_spawned(2, 20);
    assert_eq!(game.entity_of(1), Some(10));
    assert_eq!(game.entity_of(2), Some(20));
    game.on_player_spawned(1, 11);
    assert_eq!(game.entity_of(1), Some(11));
    assert_eq!(game.entity_of(2), Some(20));
}

#[test]
fn local_player_is_set_only_after_connecting() {
    let mut game = Game::new();
    game.on_player_spawned(5, 50);
    assert_eq!(game.player(), None);
    game.on_connected(6);
    game.on_player_spawned(6, 60);
    assert_eq!(game.player(), Some(60));
    // Every later spawn takes over as the local player.
    game.on_player_spawned(7, 70);
    assert_eq!(game.player(), Some(70));
}
