# dyrah

A small Tibia-like RPG: a server that owns the world and clients that draw it.

The game's rules live in `src/` as a Verus library, each public function with
a contract that Verus proves:

- `shared`: tile and world coordinates, the Tiled map model (layers, objects,
  walkability) and the messages between server and clients.
- `server`: the collision grid, the server's game state machine (connect,
  disconnect, input, update), the combat and movement decisions and path
  following.
- `client`: tileset loading (image sizes decoded by `image`), tile lookup in
  tilesets and the client's lobby of players.
- `engine`, `world`, `game`: isometric projections and the steering of
  players and monsters.
- `protocol`: the channels of the networked variant.

The server keeps its players in plain records (`server::game::PlayerEntity`
in a `Vec`) rather than in the `secs` entity world: every `secs::World`
method is either bounded by one of `secs`'s own traits (`AttachComponents`,
`Query`) or hands out `RefCell` guards, and verified code can call neither.
Its lobby is a `Vec` of `(client, entity)` pairs with unique clients: a
newcomer is told about the other players in lobby order, which a `Vec`
fixes and a `HashMap` would leave to its walk order. The client lobbies
(`client::game`, `game::lobby`) are `HashMap`s keyed by integer ids, with
`Map` views.

The laws of the library (what one call undoes of another, which tiles block,
which projections invert each other) are public proof functions beside the
code they speak of.

`app/` holds what cannot be verified: `main` (modes `server`, `client`,
`world`, `topdown`, `relay`), networking, rendering and file loading. It hands plain values to the library and acts on what it returns.
