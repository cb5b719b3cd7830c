//! The server's game state and how it answers network events: which players
//! are in the lobby, where they stand, and which messages go out.

use vstd::prelude::*;

use crate::shared::{NetId, TilePos};
use crate::shared::map::TiledMap;
use crate::shared::messages::{ClientInput, ClientMessage, ServerMessage};
use crate::server::map::{CollisionGrid, GameMap, map_blocks, occupied};

verus! {

/// A player entity: it stands on `tile`, is headed for `target`, and blocks
/// the tile it stands on.
#[derive(Clone, Copy)]
pub struct PlayerEntity {
    pub entity: u64,
    pub tile: TilePos,
    pub target: TilePos,
}

/// A network event, with a client's message already decoded.
pub enum ServerEvent {
    ClientConnected(NetId),
    ClientDisconnected(NetId),
    MessageReceived(NetId, ClientMessage),
}

/// A message the server has to send, and to whom.
pub enum Outgoing {
    /// Reliably to one client.
    SendReliable { to: NetId, message: ServerMessage },
    /// Reliably to every client.
    BroadcastReliable(ServerMessage),
    /// Unreliably to every client.
    Broadcast(ServerMessage),
}

/// Position of client `id` in the lobby.
pub open spec fn lobby_index(lobby: Seq<(NetId, u64)>, id: NetId) -> int {
    choose|i: int| 0 <= i < lobby.len() && #[trigger] lobby[i].0 == id
}

/// Position of entity `ent` in the world.
pub open spec fn world_index(world: Seq<PlayerEntity>, ent: u64) -> int {
    choose|i: int| 0 <= i < world.len() && #[trigger] world[i].entity == ent
}

/// Component-wise wrapping sum of two tile positions.
pub open spec fn tile_add(a: TilePos, b: TilePos) -> TilePos {
    TilePos {
        x: vstd::wrapping::i32_specs::wrapping_add(a.x, b.x),
        y: vstd::wrapping::i32_specs::wrapping_add(a.y, b.y),
    }
}

/// Whether some record of `world` belongs to entity `ent`.
pub open spec fn has_entity(world: Seq<PlayerEntity>, ent: u64) -> bool {
    exists|i: int| 0 <= i < world.len() && #[trigger] world[i].entity == ent
}

/// The record of entity `ent` in `world`.
pub open spec fn record_of(world: Seq<PlayerEntity>, ent: u64) -> PlayerEntity {
    world[world_index(world, ent)]
}

/// Whether client `id` has a lobby entry.
pub open spec fn in_lobby(lobby: Seq<(NetId, u64)>, id: NetId) -> bool {
    exists|i: int| 0 <= i < lobby.len() && #[trigger] lobby[i].0 == id
}

/// The entity of client `id` in the lobby.
pub open spec fn entity_of(lobby: Seq<(NetId, u64)>, id: NetId) -> u64 {
    lobby[lobby_index(lobby, id)].1
}

/// The message announcing that player `id` stands at `tile`.
pub open spec fn spawned_message(map: &TiledMap, id: NetId, tile: TilePos) -> ServerMessage {
    ServerMessage::PlayerSpawned { id, position: map.spec_tile_to_world(tile) }
}

/// The tiles the player entities stand on, in world order.
pub open spec fn collider_tiles(world: Seq<PlayerEntity>) -> Seq<TilePos> {
    world.map_values(|r: PlayerEntity| r.tile)
}

/// What the connection of client `id` does: a fresh entity is spawned at
/// the map's `player` spawn point and the client's lobby entry points to it;
/// the newcomer is told, reliably, where each already connected player is
/// headed, then everyone learns of the new player.
pub open spec fn connect_step(old: Game, new: Game, id: NetId, out: Seq<Outgoing>) -> bool {
    let spawn = old.spec_map().spec_get_spawn("player"@).unwrap();
    let ent = old.spec_next_entity();
    let lobby = old.spec_lobby();
    let map = old.spec_map().tiled;
    &&& new.spec_map() == old.spec_map()
    &&& new.spec_grid() == old.spec_grid()
    &&& new.spec_next_entity() == ent + 1
    &&& new.spec_world() == old.spec_world().push((PlayerEntity { entity: ent, tile: spawn, target: spawn }))
    &&& new.spec_lobby() == if old.connected(id) {
        lobby.update(lobby_index(lobby, id), (id, ent))
    } else {
        lobby.push((id, ent))
    }
    &&& out.len() == lobby.len() + 1
    &&& forall|j: int| 0 <= j < lobby.len() ==> #[trigger] out[j] == (Outgoing::SendReliable {
        to: id,
        message: spawned_message(&map, lobby[j].0, record_of(old.spec_world(), lobby[j].1).target),
    })
    &&& out[lobby.len() as int] == Outgoing::BroadcastReliable(spawned_message(&map, id, spawn))
}

/// What the disconnection of client `id` does: its lobby entry and its
/// entity are removed, if it had any, and everyone is told it left.
pub open spec fn disconnect_step(old: Game, new: Game, id: NetId, out: Seq<Outgoing>) -> bool {
    let lobby = old.spec_lobby();
    &&& new.spec_map() == old.spec_map()
    &&& new.spec_grid() == old.spec_grid()
    &&& new.spec_next_entity() == old.spec_next_entity()
    &&& if old.connected(id) {
        &&& new.spec_lobby() == lobby.remove(lobby_index(lobby, id))
        &&& new.spec_world() == old.spec_world().remove(world_index(old.spec_world(), entity_of(lobby, id)))
    } else {
        &&& new.spec_lobby() == lobby
        &&& new.spec_world() == old.spec_world()
    }
    &&& out == seq![Outgoing::BroadcastReliable((ServerMessage::PlayerDespawned { id }))]
}

/// What input from client `id` does: if the client is connected and the tile
/// one step from its target in the keys' direction is walkable on the
/// collision grid, the player moves there and everyone is told, unreliably;
/// otherwise nothing changes and nothing is sent.
pub open spec fn input_step(old: Game, new: Game, id: NetId, input: ClientInput, out: Seq<Outgoing>) -> bool {
    let world = old.spec_world();
    &&& new.spec_map() == old.spec_map()
    &&& new.spec_grid() == old.spec_grid()
    &&& new.spec_next_entity() == old.spec_next_entity()
    &&& new.spec_lobby() == old.spec_lobby()
    &&& if old.connected(id) {
        let k = world_index(world, entity_of(old.spec_lobby(), id));
        let rec = world[k];
        let next = tile_add(rec.target, input.spec_direction());
        if old.spec_grid().spec_is_walkable(next) {
            &&& new.spec_world() == world.update(k, (PlayerEntity { entity: rec.entity, tile: next, target: next }))
            &&& out == seq![Outgoing::Broadcast((ServerMessage::PlayerMoved {
                id,
                position: old.spec_map().tiled.spec_tile_to_world(next),
            }))]
        } else {
            &&& new.spec_world() == world
            &&& out.len() == 0
        }
    } else {
        &&& new.spec_world() == world
        &&& out.len() == 0
    }
}

/// What a tick does: the collision grid is recomputed from the map's
/// `colliders` layer and the tiles the player entities stand on.
pub open spec fn update_step(old: Game, new: Game) -> bool {
    &&& new.spec_map() == old.spec_map()
    &&& new.spec_lobby() == old.spec_lobby()
    &&& new.spec_world() == old.spec_world()
    &&& new.spec_next_entity() == old.spec_next_entity()
    &&& new.spec_grid().wf()
    &&& new.spec_grid().spec_width() == old.spec_grid().spec_width()
    &&& new.spec_grid().spec_height() == old.spec_grid().spec_height()
    &&& forall|x: int, y: int|
        0 <= x < new.spec_grid().spec_width() && 0 <= y < new.spec_grid().spec_height()
            ==> (#[trigger] new.spec_grid().blocked(x, y) == (map_blocks(&new.spec_map(), x, y)
                || occupied(collider_tiles(new.spec_world()), x, y)))
}

/// The server's game: its map, the collision grid, the player entities and
/// the lobby that maps each connected client to its entity.
pub struct Game {
    lobby: Vec<(NetId, u64)>,
    world: Vec<PlayerEntity>,
    next_entity: u64,
    collision_grid: CollisionGrid,
    map: GameMap,
}

impl Game {
    /// The game's internal consistency: entity and client ids are unique,
    /// every lobby entry names an existing entity, fresh entity ids are
    /// unused, and the grid has the map's size.
    pub closed spec fn wf(&self) -> bool {
        &&& self.collision_grid.wf()
        &&& self.collision_grid.spec_width() == self.map.tiled.width
        &&& self.collision_grid.spec_height() == self.map.tiled.height
        &&& forall|i: int, j: int| 0 <= i < self.world@.len() && 0 <= j < self.world@.len() && i != j
            ==> #[trigger] self.world@[i].entity != #[trigger] self.world@[j].entity
        &&& forall|i: int| 0 <= i < self.world@.len() ==> #[trigger] self.world@[i].entity < self.next_entity
        &&& forall|i: int| 0 <= i < self.world@.len() ==> #[trigger] self.world@[i].tile == self.world@[i].target
        &&& forall|i: int, j: int| 0 <= i < self.lobby@.len() && 0 <= j < self.lobby@.len() && i != j
            ==> #[trigger] self.lobby@[i].0 != #[trigger] self.lobby@[j].0
        &&& forall|i: int| 0 <= i < self.lobby@.len() ==> has_entity(self.world@, #[trigger] self.lobby@[i].1)
        &&& forall|i: int, j: int| 0 <= i < self.lobby@.len() && 0 <= j < self.lobby@.len() && i != j
            ==> #[trigger] self.lobby@[i].1 != #[trigger] self.lobby@[j].1
    }

    /// The player entities.
    pub closed spec fn spec_world(&self) -> Seq<PlayerEntity> {
        self.world@
    }

    /// The lobby: client id and entity of each connected client.
    pub closed spec fn spec_lobby(&self) -> Seq<(NetId, u64)> {
        self.lobby@
    }

    /// The map.
    pub closed spec fn spec_map(&self) -> GameMap {
        self.map
    }

    /// The collision grid.
    pub closed spec fn spec_grid(&self) -> CollisionGrid {
        self.collision_grid
    }

    /// The id the next spawned entity gets.
    pub closed spec fn spec_next_entity(&self) -> u64 {
        self.next_entity
    }

    /// Whether client `id` is connected.
    pub open spec fn connected(&self, id: NetId) -> bool {
        in_lobby(self.spec_lobby(), id)
    }

    /// The lobby as a map from each connected client to its entity.
    pub open spec fn lobby_view(&self) -> Map<NetId, u64> {
        Map::new(|id: NetId| self.connected(id), |id: NetId| entity_of(self.spec_lobby(), id))
    }

    /// The entity record of a connected client.
    pub open spec fn player(&self, id: NetId) -> PlayerEntity {
        record_of(self.spec_world(), entity_of(self.spec_lobby(), id))
    }

    /// A game on the given map, with nobody connected.
    pub fn new(map: GameMap) -> (game: Game)
        requires
            (map.tiled.width as int) * (map.tiled.height as int) <= usize::MAX,
        ensures
            game.wf(),
            game.spec_map() == map,
            game.spec_lobby().len() == 0,
            game.spec_world().len() == 0,
            forall|x: int, y: int|
                0 <= x < game.spec_grid().spec_width() && 0 <= y < game.spec_grid().spec_height()
                    ==> !#[trigger] game.spec_grid().blocked(x, y),
    {
        let collision_grid = CollisionGrid::new(&map);
        Game { lobby: Vec::new(), world: Vec::new(), next_entity: 0, collision_grid, map }
    }

    /// The game's map.
    pub fn map(&self) -> (map: &GameMap)
        ensures
            *map == self.spec_map(),
    {
        &self.map
    }

    /// Whether another entity can be spawned (entity ids are not exhausted).
    pub fn can_spawn(&self) -> (b: bool)
        ensures
            b == (self.spec_next_entity() < u64::MAX),
    {
        self.next_entity < u64::MAX
    }

    fn find_lobby(&self, id: NetId) -> (r: Option<usize>)
        requires
            self.wf(),
        ensures
            match r {
                Some(i) => i < self.lobby@.len() && self.lobby@[i as int].0 == id
                    && in_lobby(self.lobby@, id) && lobby_index(self.lobby@, id) == i,
                None => !in_lobby(self.lobby@, id),
            },
    {
        let n = self.lobby.len();
        let mut i: usize = 0;
        while i < n
            invariant
                self.wf(),
                n == self.lobby@.len(),
                i <= n,
                forall|j: int| 0 <= j < i ==> #[trigger] self.lobby@[j].0 != id,
            decreases n - i,
        {
            if self.lobby[i].0 == id {
                proof {
                    assert(in_lobby(self.lobby@, id));
                    let k = lobby_index(self.lobby@, id);
                    assert(self.lobby@[k].0 == self.lobby@[i as int].0);
                }
                return Some(i);
            }
            i += 1;
        }
        None
    }

    fn find_entity(&self, ent: u64) -> (r: usize)
        requires
            self.wf(),
            has_entity(self.world@, ent),
        ensures
            r < self.world@.len(),
            self.world@[r as int].entity == ent,
            world_index(self.world@, ent) == r,
    {
        let n = self.world.len();
        let mut i: usize = 0;
        while i < n
            invariant
                self.wf(),
                has_entity(self.world@, ent),
                n == self.world@.len(),
                i <= n,
                forall|j: int| 0 <= j < i ==> #[trigger] self.world@[j].entity != ent,
            decreases n - i,
        {
            if self.world[i].entity == ent {
                proof {
                    let k = world_index(self.world@, ent);
                    assert(self.world@[k].entity == self.world@[i as int].entity);
                }
                return i;
            }
            i += 1;
        }
        proof {
            let k = world_index(self.world@, ent);
            assert(self.world@[k].entity == ent);
        }
        0
    }

    /// Handles the connection of client `id` (see `connect_step`).
    pub fn on_client_connected(&mut self, id: NetId) -> (out: Vec<Outgoing>)
        requires
            old(self).wf(),
            old(self).spec_map().spec_get_spawn("player"@) is Some,
            old(self).spec_next_entity() < u64::MAX,
        ensures
            final(self).wf(),
            connect_step(*old(self), *final(self), id, out@),
    {
        let ghost g0 = *self;
        let mut out: Vec<Outgoing> = Vec::new();
        let n = self.lobby.len();
        let mut i: usize = 0;
        while i < n
            invariant
                self.wf(),
                *self == g0,
                n == self.lobby@.len(),
                i <= n,
                out@.len() == i,
                forall|j: int| 0 <= j < i ==> #[trigger] out@[j] == (Outgoing::SendReliable {
                    to: id,
                    message: spawned_message(&self.map.tiled, self.lobby@[j].0,
                        record_of(self.world@, self.lobby@[j].1).target),
                }),
            decreases n - i,
        {
            let (other_id, player) = self.lobby[i];
            proof {
                assert(has_entity(self.world@, self.lobby@[i as int].1));
            }
            let k = self.find_entity(player);
            let target = self.world[k].target;
            let position = self.map.tiled.tile_to_world(target);
            out.push(Outgoing::SendReliable {
                to: id,
                message: ServerMessage::PlayerSpawned { id: other_id, position },
            });
            i += 1;
        }
        let spawn_pos = match self.map.get_spawn("player") {
            Some(p) => p,
            None => {
                proof { assert(false); }
                TilePos { x: 0, y: 0 }
            },
        };
        let ent = self.next_entity;
        let idx = self.find_lobby(id);
        self.world.push(PlayerEntity { entity: ent, tile: spawn_pos, target: spawn_pos });
        self.next_entity = ent + 1;
        match idx {
            Some(li) => {
                self.lobby.set(li, (id, ent));
            },
            None => {
                self.lobby.push((id, ent));
            },
        }
        let position = self.map.tiled.tile_to_world(spawn_pos);
        out.push(Outgoing::BroadcastReliable(ServerMessage::PlayerSpawned { id, position }));
        proof {
            let w0 = g0.world@;
            let w1 = self.world@;
            assert forall|a: int| 0 <= a < w0.len() implies has_entity(w1, #[trigger] w0[a].entity) by {
                assert(w1[a] == w0[a]);
            }
            assert(has_entity(w1, ent)) by {
                assert(w1[w0.len() as int].entity == ent);
            }
            assert forall|a: int| 0 <= a < self.lobby@.len() implies has_entity(w1, #[trigger] self.lobby@[a].1) by {
                if self.lobby@[a].1 != ent {
                    assert(self.lobby@[a] == g0.lobby@[a]);
                    assert(has_entity(w0, g0.lobby@[a].1));
                    let c = choose|c: int| 0 <= c < w0.len() && #[trigger] w0[c].entity == g0.lobby@[a].1;
                    assert(w1[c] == w0[c]);
                }
            }
            assert forall|a: int, b: int| 0 <= a < self.lobby@.len() && 0 <= b < self.lobby@.len() && a != b
                implies #[trigger] self.lobby@[a].1 != #[trigger] self.lobby@[b].1 by {
                if self.lobby@[a].1 == ent {
                    if a < g0.lobby@.len() && (idx is None || a != idx.unwrap()) {
                        assert(has_entity(w0, g0.lobby@[a].1));
                    }
                }
                if self.lobby@[b].1 == ent {
                    if b < g0.lobby@.len() && (idx is None || b != idx.unwrap()) {
                        assert(has_entity(w0, g0.lobby@[b].1));
                    }
                }
            }
            assert(self.lobby@ =~= (if g0.connected(id) {
                g0.lobby@.update(lobby_index(g0.lobby@, id), (id, ent))
            } else {
                g0.lobby@.push((id, ent))
            }));
        }
        out
    }

    /// Handles the disconnection of client `id` (see `disconnect_step`).
    pub fn on_client_disconnected(&mut self, id: NetId) -> (out: Vec<Outgoing>)
        requires
            old(self).wf(),
        ensures
            final(self).wf(),
            disconnect_step(*old(self), *final(self), id, out@),
    {
        let ghost g0 = *self;
        if let Some(li) = self.find_lobby(id) {
            let player = self.lobby[li].1;
            proof {
                assert(has_entity(self.world@, self.lobby@[li as int].1));
            }
            let k = self.find_entity(player);
            self.lobby.remove(li);
            self.world.remove(k);
            proof {
                let w0 = g0.world@;
                let w1 = self.world@;
                let l0 = g0.lobby@;
                let l1 = self.lobby@;
                assert forall|a: int| 0 <= a < l1.len() implies has_entity(w1, #[trigger] l1[a].1) by {
                    let oa = if a < li { a } else { a + 1 };
                    assert(l1[a] == l0[oa]);
                    assert(oa != li);
                    assert(l0[oa].1 != l0[li as int].1);
                    assert(has_entity(w0, l0[oa].1));
                    let c = choose|c: int| 0 <= c < w0.len() && #[trigger] w0[c].entity == l0[oa].1;
                    assert(c != k);
                    let nc = if c < k { c } else { c - 1 };
                    assert(w1[nc] == w0[c]);
                }
                assert forall|a: int, b: int| 0 <= a < l1.len() && 0 <= b < l1.len() && a != b
                    implies #[trigger] l1[a].1 != #[trigger] l1[b].1 by {
                    let oa = if a < li { a } else { a + 1 };
                    let ob = if b < li { b } else { b + 1 };
                    assert(l1[a] == l0[oa]);
                    assert(l1[b] == l0[ob]);
                }
                assert forall|a: int, b: int| 0 <= a < l1.len() && 0 <= b < l1.len() && a != b
                    implies #[trigger] l1[a].0 != #[trigger] l1[b].0 by {
                    let oa = if a < li { a } else { a + 1 };
                    let ob = if b < li { b } else { b + 1 };
                    assert(l1[a] == l0[oa]);
                    assert(l1[b] == l0[ob]);
                }
                assert forall|a: int, b: int| 0 <= a < w1.len() && 0 <= b < w1.len() && a != b
                    implies #[trigger] w1[a].entity != #[trigger] w1[b].entity by {
                    let oa = if a < k { a } else { a + 1 };
                    let ob = if b < k { b } else { b + 1 };
                    assert(w1[a] == w0[oa]);
                    assert(w1[b] == w0[ob]);
                }
                assert forall|a: int| 0 <= a < w1.len() implies #[trigger] w1[a].entity < self.next_entity
                    && w1[a].tile == w1[a].target by {
                    let oa = if a < k { a } else { a + 1 };
                    assert(w1[a] == w0[oa]);
                }
            }
        }
        let mut out: Vec<Outgoing> = Vec::new();
        out.push(Outgoing::BroadcastReliable(ServerMessage::PlayerDespawned { id }));
        out
    }

    /// Handles input from client `id` (see `input_step`).
    pub fn on_client_input(&mut self, id: NetId, input: &ClientInput) -> (out: Vec<Outgoing>)
        requires
            old(self).wf(),
        ensures
            final(self).wf(),
            input_step(*old(self), *final(self), id, *input, out@),
    {
        let ghost g0 = *self;
        let mut out: Vec<Outgoing> = Vec::new();
        if let Some(li) = self.find_lobby(id) {
            let player = self.lobby[li].1;
            proof {
                assert(has_entity(self.world@, self.lobby@[li as int].1));
            }
            let k = self.find_entity(player);
            let rec = self.world[k];
            let dir = input.to_direction();
            let next_pos = TilePos {
                x: rec.target.x.wrapping_add(dir.x),
                y: rec.target.y.wrapping_add(dir.y),
            };
            if self.map.is_walkable(next_pos, &self.collision_grid) {
                self.world.set(k, PlayerEntity { entity: rec.entity, tile: next_pos, target: next_pos });
                let position = self.map.tiled.tile_to_world(next_pos);
                out.push(Outgoing::Broadcast(ServerMessage::PlayerMoved { id, position }));
                proof {
                    let w0 = g0.world@;
                    let w1 = self.world@;
                    assert forall|a: int| 0 <= a < self.lobby@.len() implies has_entity(w1, #[trigger] self.lobby@[a].1) by {
                        let c = choose|c: int| 0 <= c < w0.len() && #[trigger] w0[c].entity == self.lobby@[a].1;
                        assert(w1[c].entity == w0[c].entity);
                    }
                    assert forall|a: int, b: int| 0 <= a < w1.len() && 0 <= b < w1.len() && a != b
                        implies #[trigger] w1[a].entity != #[trigger] w1[b].entity by {
                        assert(w1[a].entity == w0[a].entity);
                        assert(w1[b].entity == w0[b].entity);
                    }
                    assert forall|a: int| 0 <= a < w1.len() implies #[trigger] w1[a].entity < self.next_entity
                        && w1[a].tile == w1[a].target by {
                        assert(w1[a].entity == w0[a].entity);
                    }
                }
            }
        }
        out
    }

    /// Recomputes the collision grid (see `update_step`).
    pub fn update(&mut self)
        requires
            old(self).wf(),
            old(self).spec_map().tiled.cells_probe_defined(
                "colliders"@,
                old(self).spec_map().tiled.width as int,
                old(self).spec_map().tiled.height as int,
            ),
        ensures
            final(self).wf(),
            update_step(*old(self), *final(self)),
    {
        let n = self.world.len();
        let mut colliders: Vec<TilePos> = Vec::new();
        let mut i: usize = 0;
        while i < n
            invariant
                n == self.world@.len(),
                i <= n,
                colliders@ == collider_tiles(self.world@).subrange(0, i as int),
            decreases n - i,
        {
            colliders.push(self.world[i].tile);
            proof {
                assert(colliders@ =~= collider_tiles(self.world@).subrange(0, i as int + 1));
            }
            i += 1;
        }
        assert(colliders@ =~= collider_tiles(self.world@));
        self.collision_grid.update(&self.map, colliders.as_slice());
    }

    /// Handles one network event and returns the messages to send.
    pub fn handle_event(&mut self, event: ServerEvent) -> (out: Vec<Outgoing>)
        requires
            old(self).wf(),
            event is ClientConnected ==> old(self).spec_map().spec_get_spawn("player"@) is Some
                && old(self).spec_next_entity() < u64::MAX,
        ensures
            final(self).wf(),
            match event {
                ServerEvent::ClientConnected(id) => connect_step(*old(self), *final(self), id, out@),
                ServerEvent::ClientDisconnected(id) => disconnect_step(*old(self), *final(self), id, out@),
                ServerEvent::MessageReceived(id, ClientMessage::PlayerUpdate { input }) =>
                    input_step(*old(self), *final(self), id, input, out@),
            },
    {
        match event {
            ServerEvent::ClientConnected(id) => self.on_client_connected(id),
            ServerEvent::ClientDisconnected(id) => self.on_client_disconnected(id),
            ServerEvent::MessageReceived(id, ClientMessage::PlayerUpdate { input }) => self.on_client_input(id, &input),
        }
    }
}


/// A client that connects and then disconnects leaves the lobby and the
/// player entities as they were before it connected.
pub proof fn law_disconnect_undoes_connect(
    g0: Game,
    g1: Game,
    g2: Game,
    id: NetId,
    out1: Seq<Outgoing>,
    out2: Seq<Outgoing>,
)
    requires
        g0.wf(),
        !g0.connected(id),
        connect_step(g0, g1, id, out1),
        disconnect_step(g1, g2, id, out2),
    ensures
        g2.spec_lobby() == g0.spec_lobby(),
        g2.spec_world() == g0.spec_world(),
{
    let ent = g0.spec_next_entity();
    let l0 = g0.spec_lobby();
    let l1 = g1.spec_lobby();
    let w0 = g0.spec_world();
    let w1 = g1.spec_world();
    assert(l1 == l0.push((id, ent)));
    assert(l1[l0.len() as int].0 == id);
    assert(g1.connected(id));
    let li = lobby_index(l1, id);
    if li != l0.len() as int {
        assert(l1[li] == l0[li]);
        assert(in_lobby(l0, id));
    }
    assert(entity_of(l1, id) == ent);
    assert(w1[w0.len() as int].entity == ent);
    assert(has_entity(w1, ent));
    let wi = world_index(w1, ent);
    if wi != w0.len() as int {
        assert(w1[wi] == w0[wi]);
        assert(w0[wi].entity < ent);
    }
    assert(l1.remove(li) =~= l0);
    assert(w1.remove(wi) =~= w0);
}

/// Once the grid is up to date, every player blocks the tile it stands on.
pub proof fn law_players_block_their_tiles(g0: Game, g1: Game, i: int)
    requires
        g0.wf(),
        update_step(g0, g1),
        0 <= i < g1.spec_world().len(),
        0 <= g1.spec_world()[i].tile.x < g1.spec_grid().spec_width(),
        0 <= g1.spec_world()[i].tile.y < g1.spec_grid().spec_height(),
    ensures
        g1.spec_grid().blocked(g1.spec_world()[i].tile.x as int, g1.spec_world()[i].tile.y as int),
{
    let t = g1.spec_world()[i].tile;
    let tiles = collider_tiles(g1.spec_world());
    assert(tiles[i] == t);
    assert(occupied(tiles, t.x as int, t.y as int));
}

/// Once the grid is up to date, input that asks for no step (no key held, or
/// only opposite keys) moves nobody and sends nothing.
pub proof fn law_idle_input_is_ignored(
    g0: Game,
    g1: Game,
    g2: Game,
    id: NetId,
    input: ClientInput,
    out: Seq<Outgoing>,
)
    requires
        g0.wf(),
        update_step(g0, g1),
        input.spec_direction() == (TilePos { x: 0, y: 0 }),
        input_step(g1, g2, id, input, out),
    ensures
        g2.spec_world() == g1.spec_world(),
        out.len() == 0,
{
    if g1.connected(id) {
        let l = g1.spec_lobby();
        let w = g1.spec_world();
        let li = lobby_index(l, id);
        assert(l == g0.spec_lobby());
        assert(has_entity(w, l[li].1));
        let k = world_index(w, entity_of(l, id));
        let rec = w[k];
        let next = tile_add(rec.target, input.spec_direction());
        assert(next == rec.target);
        assert(rec.tile == rec.target);
        if 0 <= next.x < g1.spec_grid().spec_width() && 0 <= next.y < g1.spec_grid().spec_height() {
            law_players_block_their_tiles(g0, g1, k);
        }
        assert(!g1.spec_grid().spec_is_walkable(next));
    }
}

/// No two records of `world` belong to the same entity.
pub open spec fn entities_unique(world: Seq<PlayerEntity>) -> bool {
    forall|i: int, j: int| 0 <= i < world.len() && 0 <= j < world.len() && i != j
        ==> #[trigger] world[i].entity != #[trigger] world[j].entity
}

/// Every entity of `world` has an id below `next`, so `next` is fresh.
pub open spec fn entities_below(world: Seq<PlayerEntity>, next: u64) -> bool {
    forall|i: int| 0 <= i < world.len() ==> #[trigger] world[i].entity < next
}

/// Every player stands on the tile it is headed for.
pub open spec fn tiles_match_targets(world: Seq<PlayerEntity>) -> bool {
    forall|i: int| 0 <= i < world.len() ==> #[trigger] world[i].tile == world[i].target
}

/// No client has two lobby entries, and no entity is shared by two clients.
pub open spec fn lobby_unique(lobby: Seq<(NetId, u64)>) -> bool {
    &&& forall|i: int, j: int| 0 <= i < lobby.len() && 0 <= j < lobby.len() && i != j
        ==> #[trigger] lobby[i].0 != #[trigger] lobby[j].0
    &&& forall|i: int, j: int| 0 <= i < lobby.len() && 0 <= j < lobby.len() && i != j
        ==> #[trigger] lobby[i].1 != #[trigger] lobby[j].1
}

/// Every lobby entry names an entity of `world`.
pub open spec fn lobby_in_world(lobby: Seq<(NetId, u64)>, world: Seq<PlayerEntity>) -> bool {
    forall|i: int| 0 <= i < lobby.len() ==> has_entity(world, #[trigger] lobby[i].1)
}

/// What a consistent game guarantees: ids are unique, fresh ids are unused,
/// every lobby entry names a record, every player stands on its target, and
/// the grid has the map's size.
pub proof fn lemma_wf_facts(g: Game)
    requires
        g.wf(),
    ensures
        g.spec_grid().wf(),
        g.spec_grid().spec_width() == g.spec_map().tiled.width,
        g.spec_grid().spec_height() == g.spec_map().tiled.height,
        entities_unique(g.spec_world()),
        entities_below(g.spec_world(), g.spec_next_entity()),
        tiles_match_targets(g.spec_world()),
        lobby_unique(g.spec_lobby()),
        lobby_in_world(g.spec_lobby(), g.spec_world()),
{
}

proof fn lemma_lobby_index_is(lobby: Seq<(NetId, u64)>, id: NetId, i: int)
    requires
        lobby_unique(lobby),
        0 <= i < lobby.len(),
        lobby[i].0 == id,
    ensures
        in_lobby(lobby, id),
        lobby_index(lobby, id) == i,
        entity_of(lobby, id) == lobby[i].1,
{
    assert(in_lobby(lobby, id));
    let k = lobby_index(lobby, id);
    assert(lobby[k].0 == id);
}

proof fn lemma_world_index_is(world: Seq<PlayerEntity>, ent: u64, i: int)
    requires
        entities_unique(world),
        0 <= i < world.len(),
        world[i].entity == ent,
    ensures
        has_entity(world, ent),
        world_index(world, ent) == i,
        record_of(world, ent) == world[i],
{
    assert(has_entity(world, ent));
    let k = world_index(world, ent);
    assert(world[k].entity == ent);
}

/// A connecting client gets a fresh entity, standing on the spawn point, and
/// the lobby maps it to that entity (the lobby view gains, or replaces,
/// exactly that entry); every other client keeps its entry and its player.
pub proof fn law_connect_maps_to_fresh_entity(g0: Game, g1: Game, id: NetId, out: Seq<Outgoing>)
    requires
        g0.wf(),
        g1.wf(),
        connect_step(g0, g1, id, out),
    ensures
        !has_entity(g0.spec_world(), g0.spec_next_entity()),
        g1.connected(id),
        entity_of(g1.spec_lobby(), id) == g0.spec_next_entity(),
        g1.player(id) == (PlayerEntity {
            entity: g0.spec_next_entity(),
            tile: g0.spec_map().spec_get_spawn("player"@).unwrap(),
            target: g0.spec_map().spec_get_spawn("player"@).unwrap(),
        }),
        g1.lobby_view() == g0.lobby_view().insert(id, g0.spec_next_entity()),
        forall|o: NetId| o != id ==> (#[trigger] g1.connected(o) == g0.connected(o)),
        forall|o: NetId| o != id && g0.connected(o) ==> #[trigger] g1.player(o) == g0.player(o),
{
    let ent = g0.spec_next_entity();
    let l0 = g0.spec_lobby();
    let l1 = g1.spec_lobby();
    let w0 = g0.spec_world();
    let w1 = g1.spec_world();
    lemma_wf_facts(g0);
    lemma_wf_facts(g1);
    if has_entity(w0, ent) {
        let c = choose|c: int| 0 <= c < w0.len() && #[trigger] w0[c].entity == ent;
        assert(w0[c].entity < ent);
    }
    let li = if g0.connected(id) { lobby_index(l0, id) } else { l0.len() as int };
    assert(l1[li] == (id, ent));
    lemma_lobby_index_is(l1, id, li);
    lemma_world_index_is(w1, ent, w0.len() as int);
    assert forall|o: NetId| o != id implies (#[trigger] g1.connected(o) == g0.connected(o)) by {
        if g0.connected(o) {
            let k = lobby_index(l0, o);
            assert(l0[k].0 == o);
            assert(k != li);
            assert(l1[k] == l0[k]);
        }
        if g1.connected(o) {
            let k = lobby_index(l1, o);
            assert(l1[k].0 == o);
            assert(k != li);
            assert(l1[k] == l0[k]);
        }
    }
    assert forall|o: NetId| o != id && g0.connected(o) implies #[trigger] g1.player(o) == g0.player(o) by {
        let k = lobby_index(l0, o);
        assert(l0[k].0 == o);
        assert(k != li);
        assert(l1[k] == l0[k]);
        lemma_lobby_index_is(l0, o, k);
        lemma_lobby_index_is(l1, o, k);
        let e = l0[k].1;
        assert(has_entity(w0, e));
        let c = world_index(w0, e);
        assert(w0[c].entity == e);
        assert(w1[c] == w0[c]);
        lemma_world_index_is(w0, e, c);
        lemma_world_index_is(w1, e, c);
    }
    assert forall|o: NetId| o != id && g0.connected(o) implies
        entity_of(l1, o) == entity_of(l0, o) by {
        let k = lobby_index(l0, o);
        assert(l0[k].0 == o);
        assert(k != li);
        assert(l1[k] == l0[k]);
        lemma_lobby_index_is(l0, o, k);
        lemma_lobby_index_is(l1, o, k);
    }
    assert(g1.lobby_view() =~= g0.lobby_view().insert(id, ent));
}

/// Input from a connected client leaves the lobby as it was and moves that
/// client's own player by the
/// keys' step onto the new tile, when the grid lets it in, and leaves it
/// where it was otherwise; no other player moves. The step is at most one
/// tile per axis unless a coordinate wraps around the `i32` range.
pub proof fn law_input_moves_own_player(
    g0: Game,
    g1: Game,
    id: NetId,
    input: ClientInput,
    out: Seq<Outgoing>,
)
    requires
        g0.wf(),
        g1.wf(),
        g0.connected(id),
        input_step(g0, g1, id, input, out),
    ensures
        g1.connected(id),
        g1.lobby_view() == g0.lobby_view(),
        ({
            let p = g0.player(id);
            let next = tile_add(p.target, input.spec_direction());
            &&& g0.spec_grid().spec_is_walkable(next) ==> g1.player(id) == (PlayerEntity {
                entity: p.entity,
                tile: next,
                target: next,
            })
            &&& !g0.spec_grid().spec_is_walkable(next) ==> g1.player(id) == p
            &&& (i32::MIN <= p.target.x + input.spec_direction().x <= i32::MAX
                && i32::MIN <= p.target.y + input.spec_direction().y <= i32::MAX)
                ==> -1 <= next.x - p.target.x <= 1 && -1 <= next.y - p.target.y <= 1
        }),
        forall|o: NetId| o != id && g0.connected(o) ==> #[trigger] g1.player(o) == g0.player(o),
{
    let l = g0.spec_lobby();
    let w0 = g0.spec_world();
    let w1 = g1.spec_world();
    lemma_wf_facts(g0);
    lemma_wf_facts(g1);
    let li = lobby_index(l, id);
    assert(l[li].0 == id);
    lemma_lobby_index_is(l, id, li);
    let e = l[li].1;
    assert(has_entity(w0, e));
    let k = world_index(w0, e);
    assert(w0[k].entity == e);
    lemma_world_index_is(w0, e, k);
    assert(w1[k].entity == e);
    lemma_world_index_is(w1, e, k);
    let d = input.spec_direction();
    let t = w0[k].target;
    assert(-1 <= d.x <= 1 && -1 <= d.y <= 1);
    if i32::MIN <= t.x + d.x <= i32::MAX && i32::MIN <= t.y + d.y <= i32::MAX {
        assert(tile_add(t, d).x == t.x + d.x);
        assert(tile_add(t, d).y == t.y + d.y);
    }
    assert forall|o: NetId| o != id && g0.connected(o) implies #[trigger] g1.player(o) == g0.player(o) by {
        let j = lobby_index(l, o);
        assert(l[j].0 == o);
        lemma_lobby_index_is(l, o, j);
        assert(j != li);
        let f = l[j].1;
        assert(f != e);
        assert(has_entity(w0, f));
        let c = world_index(w0, f);
        assert(w0[c].entity == f);
        assert(c != k);
        assert(w1[c] == w0[c]);
        lemma_world_index_is(w0, f, c);
        lemma_world_index_is(w1, f, c);
    }
    assert(g1.lobby_view() =~= g0.lobby_view());
}

/// A disconnected client is no longer in the lobby (the lobby view loses
/// exactly its key) and its entity is gone; every other client keeps its
/// entry and its player.
pub proof fn law_disconnect_removes_client(g0: Game, g1: Game, id: NetId, out: Seq<Outgoing>)
    requires
        g0.wf(),
        g1.wf(),
        disconnect_step(g0, g1, id, out),
    ensures
        !g1.connected(id),
        g0.connected(id) ==> !has_entity(g1.spec_world(), entity_of(g0.spec_lobby(), id)),
        g1.lobby_view() == g0.lobby_view().remove(id),
        forall|o: NetId| o != id ==> (#[trigger] g1.connected(o) == g0.connected(o)),
        forall|o: NetId| o != id && g0.connected(o) ==> #[trigger] g1.player(o) == g0.player(o),
{
    let l0 = g0.spec_lobby();
    let l1 = g1.spec_lobby();
    let w0 = g0.spec_world();
    let w1 = g1.spec_world();
    lemma_wf_facts(g0);
    lemma_wf_facts(g1);
    if g0.connected(id) {
        let li = lobby_index(l0, id);
        assert(l0[li].0 == id);
        lemma_lobby_index_is(l0, id, li);
        let e = l0[li].1;
        assert(has_entity(w0, e));
        let k = world_index(w0, e);
        assert(w0[k].entity == e);
        if g1.connected(id) {
            let a = lobby_index(l1, id);
            assert(l1[a].0 == id);
            let oa = if a < li { a } else { a + 1 };
            assert(l1[a] == l0[oa]);
        }
        if has_entity(w1, e) {
            let a = choose|a: int| 0 <= a < w1.len() && #[trigger] w1[a].entity == e;
            let oa = if a < k { a } else { a + 1 };
            assert(w1[a] == w0[oa]);
        }
        assert forall|o: NetId| o != id implies (#[trigger] g1.connected(o) == g0.connected(o)) by {
            if g0.connected(o) {
                let j = lobby_index(l0, o);
                assert(l0[j].0 == o);
                assert(j != li);
                let nj = if j < li { j } else { j - 1 };
                assert(l1[nj] == l0[j]);
            }
            if g1.connected(o) {
                let a = lobby_index(l1, o);
                assert(l1[a].0 == o);
                let oa = if a < li { a } else { a + 1 };
                assert(l1[a] == l0[oa]);
            }
        }
        assert forall|o: NetId| o != id && g0.connected(o) implies #[trigger] g1.player(o) == g0.player(o) by {
            let j = lobby_index(l0, o);
            assert(l0[j].0 == o);
            lemma_lobby_index_is(l0, o, j);
            assert(j != li);
            let nj = if j < li { j } else { j - 1 };
            assert(l1[nj] == l0[j]);
            lemma_lobby_index_is(l1, o, nj);
            let f = l0[j].1;
            assert(f != e);
            assert(has_entity(w0, f));
            let c = world_index(w0, f);
            assert(w0[c].entity == f);
            assert(c != k);
            let nc = if c < k { c } else { c - 1 };
            assert(w1[nc] == w0[c]);
            lemma_world_index_is(w0, f, c);
            lemma_world_index_is(w1, f, nc);
        }
        assert forall|o: NetId| o != id && g0.connected(o) implies
            entity_of(l1, o) == entity_of(l0, o) by {
            let j = lobby_index(l0, o);
            assert(l0[j].0 == o);
            lemma_lobby_index_is(l0, o, j);
            assert(j != li);
            let nj = if j < li { j } else { j - 1 };
            assert(l1[nj] == l0[j]);
            lemma_lobby_index_is(l1, o, nj);
        }
    }
    assert(g1.lobby_view() =~= g0.lobby_view().remove(id));
}
} // verus!
