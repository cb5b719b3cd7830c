//! Decisions of the server's combat, movement and input systems: how far a
//! creature engages a player, how long creatures wait between steps, where a
//! step leads, and what an attack leaves behind.

use vstd::prelude::*;

use crate::shared::{NetId, TILE_SIZE, WorldPos};
use crate::shared::messages::ClientInput;
use crate::server::{
    elapsed_ms, PlayerView, State, CREATURE_ATTACK_COOLDOWN_MS, PLAYER_ATTACK_COOLDOWN_MS, PLAYER_MOVE_DELAY_MS,
};

verus! {

/// Half a tile, in pixels: the slack of a creature's melee range.
pub const TILE_OFFSET: i64 = 16;

/// How a creature relates to a player at some distance.
#[derive(Clone, Copy, Debug, PartialEq, Eq, Structural)]
pub enum Engagement {
    /// Farther than ten tiles: the creature stops following.
    OutOfSight,
    /// Within ten tiles but out of reach: the creature follows the player.
    Follow,
    /// Within one and a half tiles: the creature follows and strikes.
    Strike,
}

/// Squared Euclidean distance between two world positions.
pub open spec fn dist2(a: WorldPos, b: WorldPos) -> int {
    (a.x - b.x) * (a.x - b.x) + (a.y - b.y) * (a.y - b.y)
}

/// The sight range is ten tiles and the reach a tile and a half.
pub proof fn law_ranges_in_tiles()
    ensures
        sight_sq() == (TILE_SIZE * 10) * (TILE_SIZE * 10),
        reach_sq() == (TILE_SIZE + TILE_OFFSET) * (TILE_SIZE + TILE_OFFSET),
{
    assert(TILE_SIZE == 32 && TILE_OFFSET == 16);
    assert(102400 == (TILE_SIZE * 10) * (TILE_SIZE * 10)) by (nonlinear_arith) requires TILE_SIZE == 32;
    assert(2304 == (TILE_SIZE + TILE_OFFSET) * (TILE_SIZE + TILE_OFFSET)) by (nonlinear_arith)
        requires TILE_SIZE == 32, TILE_OFFSET == 16;
}

/// Square of the sight range, ten tiles: (10 * 32)^2 square pixels.
pub open spec fn sight_sq() -> int {
    102400
}

/// Square of the reach, a tile and a half: (32 + 16)^2 square pixels.
pub open spec fn reach_sq() -> int {
    2304
}

/// The engagement at the distance between a creature and a player.
pub open spec fn spec_engagement(creature: WorldPos, player: WorldPos) -> Engagement {
    if dist2(creature, player) > sight_sq() {
        Engagement::OutOfSight
    } else if dist2(creature, player) > reach_sq() {
        Engagement::Follow
    } else {
        Engagement::Strike
    }
}

/// A world position moved by `dir` whole tiles.
pub open spec fn spec_step(pos: WorldPos, dir: (int, int)) -> WorldPos {
    WorldPos { x: (pos.x + dir.0 * TILE_SIZE) as i64, y: (pos.y + dir.1 * TILE_SIZE) as i64 }
}

/// Whether a position moved by `dir` tiles stays representable.
pub open spec fn step_fits(pos: WorldPos, dir: (int, int)) -> bool {
    i64::MIN <= pos.x + dir.0 * TILE_SIZE <= i64::MAX && i64::MIN <= pos.y + dir.1 * TILE_SIZE <= i64::MAX
}

/// Wraps `rand::random_range` on an inclusive range of `i64` (the
/// thread-local generator): a value of the range, which is not empty.
/// Which value comes is not stated: it is random.
#[verifier::external_body]
fn random_range_inclusive(low: i64, high: i64) -> (r: i64)
    requires
        low <= high,
    ensures
        low <= r <= high,
{
    rand::random_range(low..=high)
}

/// Combat between players and creatures.
pub struct CombatSystem;

impl CombatSystem {
    /// How a creature at `creature` relates to a player at `player`.
    pub fn engagement(creature: WorldPos, player: WorldPos) -> (e: Engagement)
        ensures
            e == spec_engagement(creature, player),
    {
        let dx = creature.x as i128 - player.x as i128;
        let dy = creature.y as i128 - player.y as i128;
        let sight: i128 = (TILE_SIZE * 10) as i128;
        if dx > sight || dx < -sight || dy > sight || dy < -sight {
            proof {
                let (p, q, c) = (dx as int, dy as int, sight as int);
                if p > c || p < -c {
                    assert(p * p > c * c) by (nonlinear_arith) requires (p > c || p < -c), c >= 0;
                    assert(q * q >= 0) by (nonlinear_arith);
                } else {
                    assert(q * q > c * c) by (nonlinear_arith) requires (q > c || q < -c), c >= 0;
                    assert(p * p >= 0) by (nonlinear_arith);
                }
            }
            return Engagement::OutOfSight;
        }
        proof {
            assert(sight == 320);
            let (p, q) = (dx as int, dy as int);
            assert(0 <= p * p <= 102400) by (nonlinear_arith) requires -320 <= p <= 320;
            assert(0 <= q * q <= 102400) by (nonlinear_arith) requires -320 <= q <= 320;
        }
        let d = dx * dx + dy * dy;
        let sight_sq_px: i128 = 102400;
        let reach_sq_px: i128 = 2304;
        if d > sight_sq_px {
            Engagement::OutOfSight
        } else if d > reach_sq_px {
            Engagement::Follow
        } else {
            Engagement::Strike
        }
    }

    /// What a blow by `attacker` leaves behind: when the victim's health is
    /// gone the attacker stops attacking and `(attacker, victim)` is the
    /// death to report; otherwise the attack cooldown restarts at `now_ms`.
    pub fn resolve_attack(state: &mut State, attacker: u64, victim: u64, victim_dead: bool, now_ms: u64)
        -> (death: Option<(u64, u64)>)
        ensures
            victim_dead ==> death == Some((attacker, victim)) && final(state).attacking is None
                && final(state).following == old(state).following
                && final(state).last_attack == old(state).last_attack,
            !victim_dead ==> death is None && final(state).attacking == old(state).attacking
                && final(state).following == old(state).following
                && final(state).last_attack == now_ms,
            final(state).last_move == old(state).last_move,
    {
        if victim_dead {
            state.attacking = None;
            Some((attacker, victim))
        } else {
            state.last_attack = now_ms;
            None
        }
    }
}

impl CombatSystem {
    /// A creature sizes up a player: out of sight it stops following,
    /// otherwise it follows that player. Returns the engagement.
    pub fn engage(state: &mut State, creature: WorldPos, player: WorldPos, player_id: u64) -> (e: Engagement)
        ensures
            e == spec_engagement(creature, player),
            e == Engagement::OutOfSight ==> final(state).following is None,
            e != Engagement::OutOfSight ==> final(state).following == Some(player_id),
            final(state).attacking == old(state).attacking,
            final(state).last_attack == old(state).last_attack,
            final(state).last_move == old(state).last_move,
    {
        let e = Self::engagement(creature, player);
        match e {
            Engagement::OutOfSight => {
                state.following = None;
            },
            _ => {
                state.following = Some(player_id);
            },
        }
        e
    }

    /// What a creature's blow on a player leaves behind: when the player's
    /// health is gone the creature stops following and `(creature, player)`
    /// is the death to report; otherwise its attack cooldown restarts at
    /// `now_ms`.
    pub fn resolve_creature_attack(state: &mut State, creature: u64, player: u64, player_dead: bool, now_ms: u64)
        -> (death: Option<(u64, u64)>)
        ensures
            player_dead ==> death == Some((creature, player)) && final(state).following is None
                && final(state).last_attack == old(state).last_attack,
            !player_dead ==> death is None && final(state).following == old(state).following
                && final(state).last_attack == now_ms,
            final(state).attacking == old(state).attacking,
            final(state).last_move == old(state).last_move,
    {
        if player_dead {
            state.following = None;
            Some((creature, player))
        } else {
            state.last_attack = now_ms;
            None
        }
    }
}

/// Whether some `(killer, victim)` pair of `deaths` has `ent` as its victim.
pub open spec fn is_victim(deaths: Seq<(u64, u64)>, ent: u64) -> bool {
    exists|k: int| 0 <= k < deaths.len() && #[trigger] deaths[k].1 == ent
}

/// The lobby entries whose entity is no victim of `deaths`, in their order.
pub open spec fn survivors(lobby: Seq<(NetId, u64)>, deaths: Seq<(u64, u64)>) -> Seq<(NetId, u64)>
    decreases lobby.len(),
{
    if lobby.len() == 0 {
        seq![]
    } else {
        survivors(lobby.drop_last(), deaths) + if is_victim(deaths, lobby.last().1) {
            seq![]
        } else {
            seq![lobby.last()]
        }
    }
}

impl CombatSystem {
    /// Whether `ent` is the victim of one of `deaths`.
    fn died(deaths: &[(u64, u64)], ent: u64) -> (dead: bool)
        ensures
            dead == is_victim(deaths@, ent),
    {
        let mut k: usize = 0;
        while k < deaths.len()
            invariant
                k <= deaths@.len(),
                forall|j: int| 0 <= j < k ==> #[trigger] deaths@[j].1 != ent,
            decreases deaths@.len() - k,
        {
            if deaths[k].1 == ent {
                return true;
            }
            k += 1;
        }
        false
    }

    /// Drops from the lobby every client whose entity died, keeping the
    /// order of the others.
    pub fn remove_victims(lobby: &mut Vec<(NetId, u64)>, deaths: &[(u64, u64)])
        ensures
            final(lobby)@ == survivors(old(lobby)@, deaths@),
    {
        let ghost start = lobby@;
        let mut kept: Vec<(NetId, u64)> = Vec::new();
        let mut i: usize = 0;
        while i < lobby.len()
            invariant
                lobby@ == start,
                i <= start.len(),
                kept@ == survivors(start.subrange(0, i as int), deaths@),
            decreases start.len() - i,
        {
            let entry = lobby[i];
            proof {
                assert(start.subrange(0, i as int + 1).drop_last() =~= start.subrange(0, i as int));
                assert(start.subrange(0, i as int + 1).last() == entry);
            }
            if !Self::died(deaths, entry.1) {
                kept.push(entry);
                proof {
                    assert(kept@ =~= survivors(start.subrange(0, i as int), deaths@) + seq![entry]);
                }
            } else {
                proof {
                    assert(survivors(start.subrange(0, i as int), deaths@) + Seq::<(NetId, u64)>::empty()
                        =~= survivors(start.subrange(0, i as int), deaths@));
                }
            }
            i += 1;
        }
        proof {
            assert(start.subrange(0, start.len() as int) =~= start);
        }
        *lobby = kept;
    }
}

/// What a creature's round has done so far: whom it follows, when it last
/// struck, the deaths it caused (`(creature, player)`) and the players it
/// struck without killing, in order.
pub type RoundOutcome = (Option<u64>, u64, Seq<(u64, u64)>, Seq<u64>);

/// A creature's dealings with one player `(id, position, has health)`:
/// players without health are skipped; out of sight the creature stops
/// following; otherwise it follows the player and, within reach, strikes.
/// A blow that kills (`kill`) ends the following and records the death;
/// any other blow restarts the cooldown at `now_ms` and is recorded.
pub open spec fn round_step(
    acc: RoundOutcome,
    creature: u64,
    pos: WorldPos,
    player: (u64, WorldPos, bool),
    kill: bool,
    now_ms: u64,
) -> RoundOutcome {
    if !player.2 {
        acc
    } else {
        match spec_engagement(pos, player.1) {
            Engagement::OutOfSight => (None, acc.1, acc.2, acc.3),
            Engagement::Follow => (Some(player.0), acc.1, acc.2, acc.3),
            Engagement::Strike => if kill {
                (None, acc.1, acc.2.push((creature, player.0)), acc.3)
            } else {
                (Some(player.0), now_ms, acc.2, acc.3.push(player.0))
            },
        }
    }
}

/// The outcome after the first `n` players, in order, starting from `init`.
pub open spec fn round_upto(
    init: RoundOutcome,
    creature: u64,
    pos: WorldPos,
    players: Seq<(u64, WorldPos, bool)>,
    kills: Seq<bool>,
    now_ms: u64,
    n: nat,
) -> RoundOutcome
    decreases n,
{
    if n == 0 {
        init
    } else {
        round_step(
            round_upto(init, creature, pos, players, kills, now_ms, (n - 1) as nat),
            creature,
            pos,
            players[n - 1],
            kills[n - 1],
            now_ms,
        )
    }
}

impl CombatSystem {
    /// One round of a creature at `pos` against every player, in order,
    /// once its attack cooldown of one second is over (otherwise nothing
    /// happens). `players` holds each player's id, position and whether it
    /// still has health; `kills[i]` tells whether a blow on the `i`-th
    /// player would empty its health. Returns the deaths caused and the
    /// players struck without dying.
    pub fn creature_round(
        state: &mut State,
        creature: u64,
        pos: WorldPos,
        players: &[(u64, WorldPos, bool)],
        kills: &[bool],
        now_ms: u64,
    ) -> (out: (Vec<(u64, u64)>, Vec<u64>))
        requires
            kills@.len() == players@.len(),
        ensures
            final(state).attacking == old(state).attacking,
            final(state).last_move == old(state).last_move,
            elapsed_ms(now_ms, old(state).last_attack) < CREATURE_ATTACK_COOLDOWN_MS ==> {
                &&& final(state).following == old(state).following
                &&& final(state).last_attack == old(state).last_attack
                &&& out.0@.len() == 0
                &&& out.1@.len() == 0
            },
            elapsed_ms(now_ms, old(state).last_attack) >= CREATURE_ATTACK_COOLDOWN_MS ==> {
                let r = round_upto(
                    (old(state).following, old(state).last_attack, seq![], seq![]),
                    creature,
                    pos,
                    players@,
                    kills@,
                    now_ms,
                    players@.len(),
                );
                &&& final(state).following == r.0
                &&& final(state).last_attack == r.1
                &&& out.0@ == r.2
                &&& out.1@ == r.3
            },
    {
        let mut deaths: Vec<(u64, u64)> = Vec::new();
        let mut struck: Vec<u64> = Vec::new();
        if !state.attack_ready(now_ms, CREATURE_ATTACK_COOLDOWN_MS) {
            return (deaths, struck);
        }
        let ghost init: RoundOutcome = (state.following, state.last_attack, seq![], seq![]);
        let ghost attacking = state.attacking;
        let ghost last_move = state.last_move;
        let mut i: usize = 0;
        while i < players.len()
            invariant
                kills@.len() == players@.len(),
                i <= players@.len(),
                state.attacking == attacking,
                state.last_move == last_move,
                ({
                    let r = round_upto(init, creature, pos, players@, kills@, now_ms, i as nat);
                    &&& state.following == r.0
                    &&& state.last_attack == r.1
                    &&& deaths@ == r.2
                    &&& struck@ == r.3
                }),
            decreases players@.len() - i,
        {
            let (pid, ppos, alive) = players[i];
            if alive {
                let e = Self::engage(state, pos, ppos, pid);
                match e {
                    Engagement::Strike => {
                        match Self::resolve_creature_attack(state, creature, pid, kills[i], now_ms) {
                            Some(death) => {
                                deaths.push(death);
                            },
                            None => {
                                struck.push(pid);
                            },
                        }
                    },
                    _ => {},
                }
            }
            i += 1;
        }
        (deaths, struck)
    }
}

/// Movement of players and creatures.
pub struct MovementSystem;

impl MovementSystem {
    /// How long a creature waits between steps, in milliseconds: 400 while
    /// following someone, otherwise a random whole number of seconds from
    /// one to four.
    pub fn creature_delay_ms(following: bool) -> (ms: u64)
        ensures
            following ==> ms == 400,
            !following ==> ms == 1000 || ms == 2000 || ms == 3000 || ms == 4000,
    {
        if following {
            400
        } else {
            let secs = random_range_inclusive(1, 4);
            (secs * 1000) as u64
        }
    }

    /// A random wandering direction: each axis is -1, 0 or 1.
    pub fn random_direction() -> (dir: (i32, i32))
        ensures
            -1 <= dir.0 <= 1,
            -1 <= dir.1 <= 1,
    {
        let x = random_range_inclusive(-1, 1);
        let y = random_range_inclusive(-1, 1);
        (x as i32, y as i32)
    }

    /// The position one step of `dir` tiles away.
    pub fn step(pos: WorldPos, dir: (i32, i32)) -> (next: WorldPos)
        requires
            step_fits(pos, (dir.0 as int, dir.1 as int)),
        ensures
            next == spec_step(pos, (dir.0 as int, dir.1 as int)),
    {
        WorldPos { x: pos.x + dir.0 as i64 * TILE_SIZE, y: pos.y + dir.1 as i64 * TILE_SIZE }
    }
}

/// Where a player is headed: the tile it walks to now and, when it follows
/// a path, the waypoints still ahead (the first one is the next to reach).
pub struct PathTarget {
    pub vec: WorldPos,
    pub path: Option<Vec<WorldPos>>,
}

/// The waypoints of a target, as a sequence.
pub open spec fn path_view(t: &PathTarget) -> Option<Seq<WorldPos>> {
    match t.path {
        Some(p) => Some(p@),
        None => None,
    }
}

/// What one path-following tick does to a target (`old` before, `new`
/// after) for a player at `pos`, and whether the player may go on to step
/// (`proceed`): see `MovementSystem::advance_path`.
pub open spec fn advance_step(
    old: &PathTarget,
    new: &PathTarget,
    pos: WorldPos,
    next_walkable: bool,
    replanned: Option<Vec<WorldPos>>,
    proceed: bool,
) -> bool {
    match path_view(old) {
        None => proceed && path_view(new) is None && new.vec == old.vec,
        Some(p) => if p.len() == 0 {
            !proceed && path_view(new) is None && new.vec == old.vec
        } else if pos == p[0] {
            &&& !proceed
            &&& p.len() == 1 ==> path_view(new) is None && new.vec == old.vec
            &&& p.len() > 1 ==> path_view(new) == Some(p.drop_first())
                && new.vec == p[1]
        } else if !next_walkable {
            &&& !proceed
            &&& match replanned {
                Some(r) if r@.len() > 0 => path_view(new) == Some(r@)
                    && new.vec == r@[0],
                _ => path_view(new) is None && new.vec == old.vec,
            }
        } else {
            proceed && path_view(new) == Some(p) && new.vec == p[0]
        },
    }
}

/// What the closing step of a player's tick does (see
/// `MovementSystem::player_step`): `s0`, `v0` are the state and view
/// before, `s1`, `v1` after, and `moved` is the new position, if any.
pub open spec fn player_step_spec(
    s0: State,
    s1: State,
    v0: PlayerView,
    v1: PlayerView,
    target: &PathTarget,
    pos: WorldPos,
    now_ms: u64,
    tile: Option<WorldPos>,
    moved: Option<WorldPos>,
) -> bool {
    let ready = elapsed_ms(now_ms, s0.last_move) >= PLAYER_MOVE_DELAY_MS;
    if ready && pos != target.vec && tile is Some {
        &&& moved == tile
        &&& s1.last_move == now_ms
        &&& s1.last_attack == s0.last_attack
        &&& s1.attacking == s0.attacking
        &&& s1.following == s0.following
        &&& v1.spec_position() == tile.unwrap()
        &&& v1.spec_radius() == v0.spec_radius()
    } else {
        &&& moved is None
        &&& s1 == s0
        &&& v1 == v0
    }
}

/// What the opening part of a player's tick does to its target: before the
/// move delay is over nothing changes and the tick stops; after it, one
/// step of path following (see `advance_step`).
pub open spec fn path_tick_spec(
    state: State,
    old: &PathTarget,
    new: &PathTarget,
    pos: WorldPos,
    now_ms: u64,
    next_walkable: bool,
    replanned: Option<Vec<WorldPos>>,
    proceed: bool,
) -> bool {
    if elapsed_ms(now_ms, state.last_move) >= PLAYER_MOVE_DELAY_MS {
        advance_step(old, new, pos, next_walkable, replanned, proceed)
    } else {
        &&& !proceed
        &&& path_view(new) == path_view(old)
        &&& new.vec == old.vec
    }
}

/// A blow a player deals in one combat tick.
#[derive(PartialEq, Eq, Structural, Debug, Clone, Copy)]
pub enum Blow {
    /// No blow: nobody to attack, the cooldown still runs, or the target
    /// has no health left.
    Nothing,
    /// `attacker` hit `defender`, who survives.
    Hit { attacker: u64, defender: u64 },
    /// `killer` killed `victim`.
    Kill { killer: u64, victim: u64 },
}

impl MovementSystem {
    /// One tick of path following, before the player moves: an empty path
    /// is dropped; a reached waypoint (`pos` on it) is popped and the target
    /// becomes the next one, or the path is dropped when none is left; when
    /// the next waypoint is not walkable, the path is replaced by
    /// `replanned` (the target becomes its first point) or dropped when
    /// there is no nonempty new path. In these cases the tick ends here and
    /// `proceed` is false. Otherwise the target becomes the next waypoint,
    /// or stays as it is without a path, and `proceed` is true: the player
    /// may step towards it (see `player_step`).
    ///
    /// `next_walkable` tells whether the first waypoint can be entered, and
    /// `replanned` is the path found from `pos` to the last waypoint.
    pub fn advance_path(
        target: &mut PathTarget,
        pos: WorldPos,
        next_walkable: bool,
        replanned: Option<Vec<WorldPos>>,
    ) -> (proceed: bool)
        ensures
            advance_step(old(target), final(target), pos, next_walkable, replanned, proceed),
    {
        let taken = target.path.take();
        match taken {
            None => true,
            Some(mut path) => {
                if path.len() == 0 {
                    return false;
                }
                let next = path[0];
                if pos == next {
                    let ghost p = path@;
                    path.remove(0);
                    proof {
                        assert(path@ =~= p.drop_first());
                    }
                    if path.len() == 0 {
                        return false;
                    }
                    target.vec = path[0];
                    target.path = Some(path);
                    return false;
                }
                if !next_walkable {
                    match replanned {
                        Some(r) => {
                            if r.len() > 0 {
                                target.vec = r[0];
                                target.path = Some(r);
                            }
                        },
                        None => {},
                    }
                    return false;
                }
                target.vec = next;
                target.path = Some(path);
                true
            },
        }
    }

    /// The step that ends a player's tick, once the move delay is over: a
    /// player that is not on its target moves onto `tile`, the tile found
    /// at the target, if there is one; its last move is then `now_ms` and
    /// its view is centred on the new position, which is returned. Before
    /// the delay is over, on its target, or without a tile, nothing changes.
    pub fn player_step(
        state: &mut State,
        view: &mut PlayerView,
        target: &PathTarget,
        pos: WorldPos,
        now_ms: u64,
        tile: Option<WorldPos>,
    ) -> (moved: Option<WorldPos>)
        ensures
            player_step_spec(*old(state), *final(state), *old(view), *final(view), target, pos, now_ms, tile, moved),
    {
        if !state.move_ready(now_ms, PLAYER_MOVE_DELAY_MS) {
            return None;
        }
        if pos == target.vec {
            return None;
        }
        match tile {
            Some(t) => {
                state.last_move = now_ms;
                view.set_position(t);
                Some(t)
            },
            None => None,
        }
    }
}


impl MovementSystem {
    /// Opens a player's tick: before the 200 ms move delay since its last
    /// step is over, nothing happens and the tick stops (`proceed` is
    /// false); afterwards the path is followed one step (see
    /// `advance_path`).
    pub fn path_tick(
        state: &State,
        target: &mut PathTarget,
        pos: WorldPos,
        now_ms: u64,
        next_walkable: bool,
        replanned: Option<Vec<WorldPos>>,
    ) -> (proceed: bool)
        ensures
            path_tick_spec(*state, old(target), final(target), pos, now_ms, next_walkable, replanned, proceed),
    {
        if !state.move_ready(now_ms, PLAYER_MOVE_DELAY_MS) {
            return false;
        }
        Self::advance_path(target, pos, next_walkable, replanned)
    }

    /// One movement tick of a creature at `pos` heading `dir` (in tiles):
    /// once `delay_ms` has passed since its last step, and when the tile one
    /// step away lies in the player's view and `tile`, the tile found there,
    /// exists, the creature moves onto it and its last step is `now_ms`;
    /// otherwise nothing changes.
    pub fn creature_step(
        state: &mut State,
        view: &PlayerView,
        pos: WorldPos,
        dir: (i32, i32),
        tile: Option<WorldPos>,
        now_ms: u64,
        delay_ms: u64,
    ) -> (moved: Option<WorldPos>)
        requires
            step_fits(pos, (dir.0 as int, dir.1 as int)),
        ensures
            ({
                let next = spec_step(pos, (dir.0 as int, dir.1 as int));
                if elapsed_ms(now_ms, old(state).last_move) >= delay_ms && view.spec_contains(next) && tile is Some {
                    &&& moved == tile
                    &&& final(state).last_move == now_ms
                    &&& final(state).last_attack == old(state).last_attack
                    &&& final(state).attacking == old(state).attacking
                    &&& final(state).following == old(state).following
                } else {
                    &&& moved is None
                    &&& *final(state) == *old(state)
                }
            }),
    {
        if !state.move_ready(now_ms, delay_ms) {
            return None;
        }
        let next = Self::step(pos, dir);
        if !view.contains(next) {
            return None;
        }
        match tile {
            Some(t) => {
                state.last_move = now_ms;
                Some(t)
            },
            None => None,
        }
    }
}

impl CombatSystem {
    /// One combat tick of `player`: when it attacks someone, its 800 ms
    /// cooldown is over and the target still has health (`target_alive`),
    /// it strikes. A blow that empties the target's health (`kill`) ends
    /// the attack; any other restarts the cooldown at `now_ms`. Otherwise
    /// nothing happens.
    pub fn player_attack(state: &mut State, player: u64, now_ms: u64, target_alive: bool, kill: bool) -> (blow: Blow)
        ensures
            final(state).following == old(state).following,
            final(state).last_move == old(state).last_move,
            match old(state).attacking {
                None => blow == Blow::Nothing && *final(state) == *old(state),
                Some(t) => if elapsed_ms(now_ms, old(state).last_attack) < PLAYER_ATTACK_COOLDOWN_MS || !target_alive {
                    blow == Blow::Nothing && *final(state) == *old(state)
                } else if kill {
                    &&& blow == (Blow::Kill { killer: player, victim: t })
                    &&& final(state).attacking is None
                    &&& final(state).last_attack == old(state).last_attack
                } else {
                    &&& blow == (Blow::Hit { attacker: player, defender: t })
                    &&& final(state).attacking == old(state).attacking
                    &&& final(state).last_attack == now_ms
                },
            },
    {
        let t = match state.attacking {
            Some(t) => t,
            None => return Blow::Nothing,
        };
        if !state.attack_ready(now_ms, PLAYER_ATTACK_COOLDOWN_MS) || !target_alive {
            return Blow::Nothing;
        }
        match Self::resolve_attack(state, player, t, kill, now_ms) {
            Some((killer, victim)) => Blow::Kill { killer, victim },
            None => Blow::Hit { attacker: player, defender: t },
        }
    }
}

/// Before 200 ms have passed since a player's last step, its tick changes
/// nothing: the target and path stay, no step is taken, and its state and
/// view are as they were.
pub proof fn law_player_waits_out_delay(
    s0: State,
    s1: State,
    v0: PlayerView,
    v1: PlayerView,
    t0: PathTarget,
    t1: PathTarget,
    pos: WorldPos,
    now_ms: u64,
    next_walkable: bool,
    replanned: Option<Vec<WorldPos>>,
    proceed: bool,
    tile: Option<WorldPos>,
    moved: Option<WorldPos>,
)
    requires
        elapsed_ms(now_ms, s0.last_move) < PLAYER_MOVE_DELAY_MS,
        path_tick_spec(s0, &t0, &t1, pos, now_ms, next_walkable, replanned, proceed),
        player_step_spec(s0, s1, v0, v1, &t1, pos, now_ms, tile, moved),
    ensures
        !proceed,
        path_view(&t1) == path_view(&t0),
        t1.vec == t0.vec,
        moved is None,
        s1 == s0,
        v1 == v0,
{
}

/// Input handling of the server.
pub struct InputSystem;

impl InputSystem {
    /// The position the held keys lead to from `pos`: one tile in their
    /// direction.
    pub fn keyboard_target(pos: WorldPos, input: &ClientInput) -> (next: WorldPos)
        requires
            step_fits(pos, (input.spec_direction().x as int, input.spec_direction().y as int)),
        ensures
            next == spec_step(pos, (input.spec_direction().x as int, input.spec_direction().y as int)),
    {
        let dir = input.to_direction();
        MovementSystem::step(pos, (dir.x, dir.y))
    }
}

impl InputSystem {
    /// What a player's input does. A click (`clicked`) sets the path found
    /// to the clicked point, `planned`, when there is one: its first
    /// waypoint is taken off and becomes the target. Without a click the
    /// held keys aim one tile away, and the target moves there (dropping
    /// any path) when `step_walkable` says the grid lets it in. A named
    /// enemy (`attack`) becomes the one the player attacks.
    pub fn player_input(
        state: &mut State,
        target: &mut PathTarget,
        pos: WorldPos,
        input: &ClientInput,
        clicked: bool,
        planned: Option<Vec<WorldPos>>,
        step_walkable: bool,
        attack: Option<u64>,
    )
        requires
            !clicked ==> step_fits(pos, (input.spec_direction().x as int, input.spec_direction().y as int)),
        ensures
            clicked ==> match planned {
                None => path_view(final(target)) == path_view(old(target)) && final(target).vec == old(target).vec,
                Some(p) => if p@.len() > 0 {
                    path_view(final(target)) == Some(p@.drop_first()) && final(target).vec == p@[0]
                } else {
                    path_view(final(target)) == Some(p@) && final(target).vec == old(target).vec
                },
            },
            !clicked && step_walkable ==> path_view(final(target)) is None
                && final(target).vec == spec_step(pos, (input.spec_direction().x as int, input.spec_direction().y as int)),
            !clicked && !step_walkable ==> path_view(final(target)) == path_view(old(target))
                && final(target).vec == old(target).vec,
            final(state).attacking == if attack is Some { attack } else { old(state).attacking },
            final(state).following == old(state).following,
            final(state).last_attack == old(state).last_attack,
            final(state).last_move == old(state).last_move,
    {
        if clicked {
            match planned {
                Some(mut path) => {
                    if path.len() > 0 {
                        let ghost p = path@;
                        let first = path.remove(0);
                        proof {
                            assert(path@ =~= p.drop_first());
                        }
                        target.vec = first;
                    }
                    target.path = Some(path);
                },
                None => {},
            }
        } else if step_walkable {
            target.vec = Self::keyboard_target(pos, input);
            target.path = None;
        }
        if let Some(t) = attack {
            state.attacking = Some(t);
        }
    }
}

/// A creature that can strike a player also follows it, and one that is out
/// of sight neither follows nor strikes: the engagement zones are nested.
pub proof fn law_engagement_nested(creature: WorldPos, player: WorldPos, closer: WorldPos)
    requires
        dist2(creature, closer) <= dist2(creature, player),
    ensures
        spec_engagement(creature, player) == Engagement::Strike ==> spec_engagement(creature, closer) == Engagement::Strike,
        spec_engagement(creature, closer) == Engagement::OutOfSight ==> spec_engagement(creature, player) == Engagement::OutOfSight,
{
}


/// The struck players and the deaths of a round only grow as it goes on.
proof fn lemma_round_grows(
    init: RoundOutcome,
    creature: u64,
    pos: WorldPos,
    players: Seq<(u64, WorldPos, bool)>,
    kills: Seq<bool>,
    now_ms: u64,
    n: nat,
    m: nat,
)
    requires
        n <= m,
    ensures
        forall|x: u64| round_upto(init, creature, pos, players, kills, now_ms, n).3.contains(x)
            ==> #[trigger] round_upto(init, creature, pos, players, kills, now_ms, m).3.contains(x),
        forall|d: (u64, u64)| round_upto(init, creature, pos, players, kills, now_ms, n).2.contains(d)
            ==> #[trigger] round_upto(init, creature, pos, players, kills, now_ms, m).2.contains(d),
    decreases m - n,
{
    if n < m {
        lemma_round_grows(init, creature, pos, players, kills, now_ms, n, (m - 1) as nat);
        let a = round_upto(init, creature, pos, players, kills, now_ms, (m - 1) as nat);
        let b = round_upto(init, creature, pos, players, kills, now_ms, m);
        assert forall|x: u64| a.3.contains(x) implies b.3.contains(x) by {
            let k = choose|k: int| 0 <= k < a.3.len() && a.3[k] == x;
            if b.3 != a.3 {
                assert(b.3 == a.3.push(players[m - 1].0));
                assert(b.3[k] == x);
            }
        }
        assert forall|d: (u64, u64)| a.2.contains(d) implies b.2.contains(d) by {
            let k = choose|k: int| 0 <= k < a.2.len() && a.2[k] == d;
            if b.2 != a.2 {
                assert(b.2 == a.2.push((creature, players[m - 1].0)));
                assert(b.2[k] == d);
            }
        }
    }
}

/// In a creature's round, every player that still has health and stands
/// within reach is struck: one whose blow is not fatal is among the struck,
/// one whose blow is fatal is among the deaths, as `(creature, player)`,
/// whatever happened to the players before it in the round.
pub proof fn law_round_strikes_everyone_in_reach(
    init: RoundOutcome,
    creature: u64,
    pos: WorldPos,
    players: Seq<(u64, WorldPos, bool)>,
    kills: Seq<bool>,
    now_ms: u64,
    i: int,
)
    requires
        kills.len() == players.len(),
        0 <= i < players.len(),
        players[i].2,
        dist2(pos, players[i].1) <= (TILE_SIZE + TILE_OFFSET) * (TILE_SIZE + TILE_OFFSET),
    ensures
        !kills[i] ==> round_upto(init, creature, pos, players, kills, now_ms, players.len()).3.contains(players[i].0),
        kills[i] ==> round_upto(init, creature, pos, players, kills, now_ms, players.len()).2.contains(
            (creature, players[i].0),
        ),
{
    assert(TILE_SIZE == 32 && TILE_OFFSET == 16);
    assert((TILE_SIZE + TILE_OFFSET) * (TILE_SIZE + TILE_OFFSET) == 2304) by (nonlinear_arith)
        requires TILE_SIZE == 32, TILE_OFFSET == 16;
    let before = round_upto(init, creature, pos, players, kills, now_ms, i as nat);
    let after = round_upto(init, creature, pos, players, kills, now_ms, (i + 1) as nat);
    assert(spec_engagement(pos, players[i].1) == Engagement::Strike);
    if kills[i] {
        assert(after.2 == before.2.push((creature, players[i].0)));
        assert(after.2[before.2.len() as int] == (creature, players[i].0));
    } else {
        assert(after.3 == before.3.push(players[i].0));
        assert(after.3[before.3.len() as int] == players[i].0);
    }
    lemma_round_grows(init, creature, pos, players, kills, now_ms, (i + 1) as nat, players.len());
}

/// Dropping the dead keeps exactly the lobby entries whose entity is no
/// victim: an entry stays when no death pair has its entity second, and a
/// player that only killed keeps its entry.
pub proof fn law_only_victims_leave(lobby: Seq<(NetId, u64)>, deaths: Seq<(u64, u64)>, entry: (NetId, u64))
    ensures
        survivors(lobby, deaths).contains(entry) <==> (lobby.contains(entry)
            && forall|k: int| 0 <= k < deaths.len() ==> #[trigger] deaths[k].1 != entry.1),
    decreases lobby.len(),
{
    let victim = exists|k: int| 0 <= k < deaths.len() && #[trigger] deaths[k].1 == entry.1;
    if lobby.len() == 0 {
        assert(!survivors(lobby, deaths).contains(entry));
    } else {
        let rest = lobby.drop_last();
        let last = lobby.last();
        law_only_victims_leave(rest, deaths, entry);
        let sr = survivors(rest, deaths);
        let tail: Seq<(NetId, u64)> = if is_victim(deaths, last.1) { seq![] } else { seq![last] };
        assert(survivors(lobby, deaths) == sr + tail);
        assert(lobby == rest.push(last));
        if survivors(lobby, deaths).contains(entry) {
            let k = choose|k: int| 0 <= k < (sr + tail).len() && (sr + tail)[k] == entry;
            if k < sr.len() {
                assert(sr[k] == entry);
                assert(sr.contains(entry));
                let j = choose|j: int| 0 <= j < rest.len() && rest[j] == entry;
                assert(lobby[j] == entry);
            } else {
                assert(entry == last);
                assert(lobby[lobby.len() - 1] == entry);
            }
        }
        if lobby.contains(entry) && !victim {
            let j = choose|j: int| 0 <= j < lobby.len() && lobby[j] == entry;
            if j < rest.len() {
                assert(rest[j] == entry);
                assert(rest.contains(entry));
                let k = choose|k: int| 0 <= k < sr.len() && sr[k] == entry;
                assert((sr + tail)[k] == entry);
            } else {
                assert(entry == last);
                assert(!is_victim(deaths, last.1));
                assert((sr + tail)[sr.len() as int] == entry);
            }
        }
    }
}

/// After a round, a creature that struck someone without killing restarts
/// its cooldown at the round's time; and it follows the last player of the
/// round when that player has health, stands within sight (ten tiles) and
/// does not die of the blow, or follows nobody when that player is out of
/// sight, whatever happened earlier in the round.
pub proof fn law_round_cooldown_and_following(
    init: RoundOutcome,
    creature: u64,
    pos: WorldPos,
    players: Seq<(u64, WorldPos, bool)>,
    kills: Seq<bool>,
    now_ms: u64,
)
    requires
        kills.len() == players.len(),
        init.3.len() == 0,
    ensures
        ({
            let r = round_upto(init, creature, pos, players, kills, now_ms, players.len());
            &&& r.3.len() > 0 ==> r.1 == now_ms
            &&& players.len() > 0 && players.last().2 ==> {
                let p = players.last();
                let d = dist2(pos, p.1);
                let reach = (TILE_SIZE + TILE_OFFSET) * (TILE_SIZE + TILE_OFFSET);
                &&& d > (TILE_SIZE * 10) * (TILE_SIZE * 10) ==> r.0 is None
                &&& d <= (TILE_SIZE * 10) * (TILE_SIZE * 10) && !(d <= reach && kills.last())
                    ==> r.0 == Some(p.0)
            }
        }),
{
    assert(TILE_SIZE == 32 && TILE_OFFSET == 16);
    assert((TILE_SIZE + TILE_OFFSET) * (TILE_SIZE + TILE_OFFSET) == 2304) by (nonlinear_arith)
        requires TILE_SIZE == 32, TILE_OFFSET == 16;
    assert((TILE_SIZE * 10) * (TILE_SIZE * 10) == 102400) by (nonlinear_arith)
        requires TILE_SIZE == 32;
    lemma_round_last_strike(init, creature, pos, players, kills, now_ms, players.len());
}

/// Whenever some player of the first `n` was struck, the last blow restarted
/// the cooldown at `now_ms`.
proof fn lemma_round_last_strike(
    init: RoundOutcome,
    creature: u64,
    pos: WorldPos,
    players: Seq<(u64, WorldPos, bool)>,
    kills: Seq<bool>,
    now_ms: u64,
    n: nat,
)
    requires
        init.3.len() == 0,
    ensures
        round_upto(init, creature, pos, players, kills, now_ms, n).3.len() > 0
            ==> round_upto(init, creature, pos, players, kills, now_ms, n).1 == now_ms,
    decreases n,
{
    if n > 0 {
        lemma_round_last_strike(init, creature, pos, players, kills, now_ms, (n - 1) as nat);
    }
}
} // verus!
