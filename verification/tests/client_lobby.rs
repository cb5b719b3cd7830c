use dyrah::game::lobby::{Lobby, LobbyAction, LobbyEvent};

#[test]
fn lobby_maps_ids_to_entities() {
    let mut lobby = Lobby::new();
    assert_eq!(lobby.on_message(LobbyEvent::PlayerCreate { id: 7 }, 3, false), LobbyAction::Registered { index: 3 });
    assert_eq!(lobby.players.get(&7), Some(&3));
    assert_eq!(lobby.on_message(LobbyEvent::EnemyCreate { id: 7 }, 4, false), LobbyAction::Registered { index: 4 });
    assert_eq!(lobby.enemies.get(&7), Some(&4));
    assert_eq!(lobby.players.get(&7), Some(&3));
}

#[test]
fn updates_act_on_known_ids_only() {
    let mut lobby = Lobby::new();
    lobby.on_message(LobbyEvent::PlayerCreate { id: 1 }, 0, false);
    assert_eq!(
        lobby.on_message(LobbyEvent::PlayerUpdate { id: 1, target: Some(9) }, 99, true),
        LobbyAction::UpdatePlayer { index: 0, walk: true, target: Some(9) }
    );
    assert_eq!(
        lobby.on_message(LobbyEvent::PlayerUpdate { id: 1, target: None }, 99, false),
        LobbyAction::UpdatePlayer { index: 0, walk: false, target: None }
    );
    assert_eq!(lobby.on_message(LobbyEvent::PlayerUpdate { id: 2, target: None }, 99, true), LobbyAction::Ignore);
    assert_eq!(lobby.on_message(LobbyEvent::EnemyUpdate { id: 1 }, 99, true), LobbyAction::Ignore);
    lobby.on_message(LobbyEvent::EnemyCreate { id: 5 }, 2, false);
    assert_eq!(lobby.on_message(LobbyEvent::EnemyUpdate { id: 5 }, 99, true), LobbyAction::UpdateEnemy { index: 2 });
}

#[test]
fn delete_undoes_create() {
    let mut lobby = Lobby::new();
    lobby.on_message(LobbyEvent::PlayerCreate { id: 4 }, 11, false);
    assert_eq!(lobby.on_message(LobbyEvent::PlayerDelete { id: 4 }, 0, false), LobbyAction::Despawn { index: 11 });
    assert!(lobby.players.is_empty());
    assert_eq!(lobby.on_message(LobbyEvent::PlayerDelete { id: 4 }, 0, false), LobbyAction::Ignore);
    lobby.on_message(LobbyEvent::EnemyCreate { id: 4 }, 12, false);
    assert_eq!(lobby.on_message(LobbyEvent::EnemyDelete { id: 4 }, 0, false), LobbyAction::Despawn { index: 12 });
    assert!(lobby.enemies.is_empty());
    assert_eq!(lobby.on_message(LobbyEvent::EnemyDelete { id: 4 }, 0, false), LobbyAction::Ignore);
}
