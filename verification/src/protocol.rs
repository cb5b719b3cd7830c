//! Network protocol of the isometric game: client messages and the channel
//! numbers messages travel on.

use vstd::prelude::*;

verus! {

/// Identifier of an entity of the game world.
pub type EntityId = u64;

/// What a client asks the server to do.
#[derive(Clone, Copy, Debug, PartialEq, Eq, Structural)]
pub enum ClientMessages {
    /// Player `id` attacks enemy `enemy_id`.
    PlayerAttack { id: EntityId, enemy_id: EntityId },
}

/// The channels clients send on.
#[derive(Clone, Copy, Debug, PartialEq, Eq, Structural)]
pub enum ClientChannel {
    ClientMessages,
    ClientInput,
}

/// The channels the server sends on.
#[derive(Clone, Copy, Debug, PartialEq, Eq, Structural)]
pub enum ServerChannel {
    ServerMessages,
    NetworkedEntities,
}

/// Channel number of a client channel: input travels on 0, messages on 1.
pub open spec fn client_channel_id(channel: ClientChannel) -> u8 {
    match channel {
        ClientChannel::ClientInput => 0,
        ClientChannel::ClientMessages => 1,
    }
}

/// Channel number of a server channel: entity state travels on 0, messages on 1.
pub open spec fn server_channel_id(channel: ServerChannel) -> u8 {
    match channel {
        ServerChannel::NetworkedEntities => 0,
        ServerChannel::ServerMessages => 1,
    }
}

impl From<ClientChannel> for u8 {
    fn from(channel_id: ClientChannel) -> (id: u8) {
        match channel_id {
            ClientChannel::ClientInput => 0,
            ClientChannel::ClientMessages => 1,
        }
    }
}

impl vstd::std_specs::convert::FromSpecImpl<ClientChannel> for u8 {
    open spec fn obeys_from_spec() -> bool {
        true
    }

    open spec fn from_spec(v: ClientChannel) -> u8 {
        client_channel_id(v)
    }
}

impl From<ServerChannel> for u8 {
    fn from(channel_id: ServerChannel) -> (id: u8) {
        match channel_id {
            ServerChannel::NetworkedEntities => 0,
            ServerChannel::ServerMessages => 1,
        }
    }
}

impl vstd::std_specs::convert::FromSpecImpl<ServerChannel> for u8 {
    open spec fn obeys_from_spec() -> bool {
        true
    }

    open spec fn from_spec(v: ServerChannel) -> u8 {
        server_channel_id(v)
    }
}

/// Distinct channels get distinct numbers, on either side.
pub proof fn law_channel_ids_are_distinct(a: ClientChannel, b: ClientChannel, c: ServerChannel, d: ServerChannel)
    ensures
        a != b ==> client_channel_id(a) != client_channel_id(b),
        c != d ==> server_channel_id(c) != server_channel_id(d),
{
}

} // verus!
