//! The client's lobby: which world entity stands for each networked player
//! and enemy, and what each server message does to it.

use vstd::prelude::*;
use std::collections::HashMap;

use crate::protocol::EntityId;

verus! {

broadcast use vstd::std_specs::hash::group_hash_axioms;

/// The part of a server message that the lobby acts on; positions and
/// health stay with the caller.
pub enum LobbyEvent {
    PlayerCreate { id: EntityId },
    PlayerDelete { id: EntityId },
    PlayerUpdate { id: EntityId, target: Option<EntityId> },
    EnemyCreate { id: EntityId },
    EnemyDelete { id: EntityId },
    EnemyUpdate { id: EntityId },
}

/// What the caller does to its world after the lobby took a message.
#[derive(PartialEq, Eq, Structural, Debug)]
pub enum LobbyAction {
    /// The entity spawned at `index` now stands for the id.
    Registered { index: usize },
    /// The entity at `index` no longer stands for anyone: despawn it.
    Despawn { index: usize },
    /// Update the player at `index`: set its attack target to `target`, and
    /// head for the tile of the message's position when `walk` holds.
    UpdatePlayer { index: usize, walk: bool, target: Option<EntityId> },
    /// Update the enemy at `index` (its health).
    UpdateEnemy { index: usize },
    /// The id is unknown: nothing to do.
    Ignore,
}

/// Players and enemies of the server, each mapped to the index of the
/// entity that stands for it in the client's world.
pub struct Lobby {
    pub players: HashMap<EntityId, usize>,
    pub enemies: HashMap<EntityId, usize>,
}

/// What one server message does to the lobby (`old` before, `new` after)
/// and which action it asks of the caller: see `Lobby::on_message`.
pub open spec fn message_step(
    old: Lobby,
    new: Lobby,
    msg: LobbyEvent,
    new_index: usize,
    target_walkable: bool,
    action: LobbyAction,
) -> bool {
    match msg {
        LobbyEvent::PlayerCreate { id } => {
            &&& new.players@ == old.players@.insert(id, new_index)
            &&& new.enemies@ == old.enemies@
            &&& action == LobbyAction::Registered { index: new_index }
        },
        LobbyEvent::PlayerDelete { id } => {
            &&& new.players@ == old.players@.remove(id)
            &&& new.enemies@ == old.enemies@
            &&& action == if old.players@.contains_key(id) {
                LobbyAction::Despawn { index: old.players@[id] }
            } else {
                LobbyAction::Ignore
            }
        },
        LobbyEvent::PlayerUpdate { id, target } => {
            &&& new.players@ == old.players@
            &&& new.enemies@ == old.enemies@
            &&& action == if old.players@.contains_key(id) {
                LobbyAction::UpdatePlayer { index: old.players@[id], walk: target_walkable, target }
            } else {
                LobbyAction::Ignore
            }
        },
        LobbyEvent::EnemyCreate { id } => {
            &&& new.enemies@ == old.enemies@.insert(id, new_index)
            &&& new.players@ == old.players@
            &&& action == LobbyAction::Registered { index: new_index }
        },
        LobbyEvent::EnemyDelete { id } => {
            &&& new.enemies@ == old.enemies@.remove(id)
            &&& new.players@ == old.players@
            &&& action == if old.enemies@.contains_key(id) {
                LobbyAction::Despawn { index: old.enemies@[id] }
            } else {
                LobbyAction::Ignore
            }
        },
        LobbyEvent::EnemyUpdate { id } => {
            &&& new.players@ == old.players@
            &&& new.enemies@ == old.enemies@
            &&& action == if old.enemies@.contains_key(id) {
                LobbyAction::UpdateEnemy { index: old.enemies@[id] }
            } else {
                LobbyAction::Ignore
            }
        },
    }
}

impl Lobby {
    /// An empty lobby.
    pub fn new() -> (lobby: Lobby)
        ensures
            lobby.players@ == Map::<EntityId, usize>::empty(),
            lobby.enemies@ == Map::<EntityId, usize>::empty(),
    {
        Lobby { players: HashMap::new(), enemies: HashMap::new() }
    }

    /// Takes one server message. A create maps the id to `new_index`, the
    /// index of the entity the caller spawned for it. A delete removes the
    /// id and hands back its entity to despawn, if it had one. An update
    /// acts only on a known id; a player is sent walking only when
    /// `target_walkable` says the tile at the message's position can be
    /// entered.
    pub fn on_message(&mut self, msg: LobbyEvent, new_index: usize, target_walkable: bool) -> (action: LobbyAction)
        ensures
            message_step(*old(self), *final(self), msg, new_index, target_walkable, action),
    {
        match msg {
            LobbyEvent::PlayerCreate { id } => {
                self.players.insert(id, new_index);
                LobbyAction::Registered { index: new_index }
            },
            LobbyEvent::PlayerDelete { id } => match self.players.remove(&id) {
                Some(index) => LobbyAction::Despawn { index },
                None => LobbyAction::Ignore,
            },
            LobbyEvent::PlayerUpdate { id, target } => match self.players.get(&id) {
                Some(index) => LobbyAction::UpdatePlayer { index: *index, walk: target_walkable, target },
                None => LobbyAction::Ignore,
            },
            LobbyEvent::EnemyCreate { id } => {
                self.enemies.insert(id, new_index);
                LobbyAction::Registered { index: new_index }
            },
            LobbyEvent::EnemyDelete { id } => match self.enemies.remove(&id) {
                Some(index) => LobbyAction::Despawn { index },
                None => LobbyAction::Ignore,
            },
            LobbyEvent::EnemyUpdate { id } => match self.enemies.get(&id) {
                Some(index) => LobbyAction::UpdateEnemy { index: *index },
                None => LobbyAction::Ignore,
            },
        }
    }
}

/// Deleting a player right after creating it despawns exactly the entity
/// the create registered and leaves the lobby as it was, when the id was
/// unknown before.
pub proof fn law_delete_undoes_create(
    l0: Lobby,
    l1: Lobby,
    l2: Lobby,
    id: EntityId,
    index: usize,
    other_index: usize,
    w1: bool,
    w2: bool,
    a1: LobbyAction,
    a2: LobbyAction,
)
    requires
        !l0.players@.contains_key(id),
        message_step(l0, l1, LobbyEvent::PlayerCreate { id }, index, w1, a1),
        message_step(l1, l2, LobbyEvent::PlayerDelete { id }, other_index, w2, a2),
    ensures
        a1 == (LobbyAction::Registered { index }),
        a2 == (LobbyAction::Despawn { index }),
        l2.players@ == l0.players@,
        l2.enemies@ == l0.enemies@,
{
    assert(l1.players@.contains_key(id));
    assert(l2.players@ =~= l0.players@);
}

} // verus!
