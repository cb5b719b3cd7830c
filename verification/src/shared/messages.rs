//! Messages exchanged between client and server.

use vstd::prelude::*;

use crate::shared::{NetId, TilePos, WorldPos};

verus! {

/// What the server tells its clients.
pub enum ServerMessage {
    PlayerSpawned { id: NetId, position: WorldPos },
    PlayerMoved { id: NetId, position: WorldPos },
    PlayerDespawned { id: NetId },
}

/// What a client tells the server.
pub enum ClientMessage {
    PlayerUpdate { input: ClientInput },
}

/// The movement keys a client holds, and the tile it clicked, if any.
pub struct ClientInput {
    pub left: bool,
    pub up: bool,
    pub right: bool,
    pub down: bool,
    pub mouse_tile_pos: Option<TilePos>,
}

/// 1 for a held key, 0 otherwise.
pub open spec fn key_value(held: bool) -> int {
    if held { 1 } else { 0 }
}

impl ClientInput {
    /// The one-tile step the held keys ask for: right minus left, down minus up.
    pub open spec fn spec_direction(&self) -> TilePos {
        TilePos {
            x: (key_value(self.right) - key_value(self.left)) as i32,
            y: (key_value(self.down) - key_value(self.up)) as i32,
        }
    }

    /// The one-tile step the held keys ask for; opposite keys cancel.
    pub fn to_direction(&self) -> (dir: TilePos)
        ensures
            dir == self.spec_direction(),
            -1 <= dir.x <= 1,
            -1 <= dir.y <= 1,
    {
        TilePos {
            x: (self.right as i32) - (self.left as i32),
            y: (self.down as i32) - (self.up as i32),
        }
    }
}

} // verus!
