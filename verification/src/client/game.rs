//! The client's bookkeeping of the players the server announces: which
//! local entity stands for each network id, and which one is the local
//! player.

use vstd::prelude::*;
use std::collections::HashMap;

use crate::shared::NetId;

verus! {

broadcast use vstd::std_specs::hash::group_hash_axioms;

/// The client's view of the players: the lobby of announced players, the
/// network id the server gave this client and the entity of the local player.
pub struct Game {
    lobby: HashMap<NetId, u64>,
    player: Option<u64>,
    player_id: Option<NetId>,
}

/// What the spawn of player `id` as entity `entity` does: `id` now maps to
/// `entity`, every other id keeps its entity, and once this client is
/// connected the spawned entity becomes the local player.
pub open spec fn spawn_step(old: Game, new: Game, id: NetId, entity: u64) -> bool {
    &&& new.spec_entity(id) == Some(entity)
    &&& forall|k: NetId| k != id ==> new.spec_entity(k) == old.spec_entity(k)
    &&& new.spec_player_id() == old.spec_player_id()
    &&& new.spec_player() == if old.spec_player_id() is Some {
        Some(entity)
    } else {
        old.spec_player()
    }
}

impl Game {
    /// The entity recorded for a network id.
    pub closed spec fn spec_entity(&self, id: NetId) -> Option<u64> {
        if self.lobby@.contains_key(id) {
            Some(self.lobby@[id])
        } else {
            None
        }
    }

    /// The entity of the local player, once known.
    pub closed spec fn spec_player(&self) -> Option<u64> {
        self.player
    }

    /// The network id of this client, once connected.
    pub closed spec fn spec_player_id(&self) -> Option<NetId> {
        self.player_id
    }

    /// Nobody announced, not connected yet.
    pub fn new() -> (game: Game)
        ensures
            forall|id: NetId| game.spec_entity(id) is None,
            game.spec_player() is None,
            game.spec_player_id() is None,
    {
        Game { lobby: HashMap::new(), player: None, player_id: None }
    }

    /// The server accepted the connection and gave this client `id`.
    pub fn on_connected(&mut self, id: NetId)
        ensures
            final(self).spec_player_id() == Some(id),
            final(self).spec_player() == old(self).spec_player(),
            forall|k: NetId| final(self).spec_entity(k) == old(self).spec_entity(k),
    {
        self.player_id = Some(id);
    }

    /// Player `id` was spawned as local entity `entity`: the lobby records
    /// it (replacing an earlier record of the same id), and once this client
    /// is connected the spawned entity becomes the local player.
    pub fn on_player_spawned(&mut self, id: NetId, entity: u64)
        ensures
            spawn_step(*old(self), *final(self), id, entity),
    {
        self.lobby.insert(id, entity);
        if self.player_id.is_some() {
            self.player = Some(entity);
        }
    }

    /// The entity recorded for a network id.
    pub fn entity_of(&self, id: NetId) -> (e: Option<u64>)
        ensures
            e == self.spec_entity(id),
    {
        match self.lobby.get(&id) {
            Some(e) => Some(*e),
            None => None,
        }
    }

    /// The entity of the local player, once known.
    pub fn player(&self) -> (p: Option<u64>)
        ensures
            p == self.spec_player(),
    {
        self.player
    }
}

/// Announcing a player and then asking for it gives back the entity it was
/// spawned as; a later announcement of the same id replaces it.
pub proof fn law_spawn_then_lookup(g0: Game, g1: Game, g2: Game, id: NetId, e1: u64, e2: u64)
    requires
        spawn_step(g0, g1, id, e1),
        spawn_step(g1, g2, id, e2),
    ensures
        g2.spec_entity(id) == Some(e2),
        forall|k: NetId| k != id ==> g2.spec_entity(k) == g0.spec_entity(k),
{
}

} // verus!
