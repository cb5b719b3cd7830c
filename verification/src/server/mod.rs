//! Server-side game logic.

pub mod game;
pub mod map;
pub mod systems;

use vstd::prelude::*;

use crate::shared::{TILE_SIZE, WorldPos};

verus! {

/// Marks a player entity.
pub struct Player;

/// Marks a creature entity.
pub struct Creature;

/// Marks an entity that blocks the tile it stands on.
pub struct Collider;

/// Combat and movement state of a player or creature: whom it attacks or
/// follows (by entity id) and when it last attacked and moved, in
/// milliseconds of the server's monotonic clock.
pub struct State {
    pub attacking: Option<u64>,
    pub following: Option<u64>,
    pub last_attack: u64,
    pub last_move: u64,
}

/// A player waits this long between two blows, in milliseconds.
pub const PLAYER_ATTACK_COOLDOWN_MS: u64 = 800;

/// A creature waits this long between two rounds of blows, in milliseconds.
pub const CREATURE_ATTACK_COOLDOWN_MS: u64 = 1000;

/// A player waits this long between two steps, in milliseconds.
pub const PLAYER_MOVE_DELAY_MS: u64 = 200;

/// Milliseconds from `since_ms` to `now_ms`; zero when `since_ms` is later,
/// as the difference of two clock instants saturates.
pub open spec fn elapsed_ms(now_ms: u64, since_ms: u64) -> int {
    if now_ms >= since_ms {
        now_ms - since_ms
    } else {
        0
    }
}

/// Whether a wait of `delay_ms` is over after `elapsed_ms` milliseconds.
pub fn waited(elapsed_ms: u128, delay_ms: u64) -> (over: bool)
    ensures
        over == (elapsed_ms >= delay_ms),
{
    elapsed_ms >= delay_ms as u128
}

/// Milliseconds from `since_ms` to `now_ms` (see `elapsed_ms`).
pub fn elapsed_between(now_ms: u64, since_ms: u64) -> (e: u64)
    ensures
        e == elapsed_ms(now_ms, since_ms),
{
    if now_ms >= since_ms {
        now_ms - since_ms
    } else {
        0
    }
}

impl State {
    /// Attacks nobody, follows nobody, and counts both cooldowns from
    /// `now_ms`.
    pub fn new(now_ms: u64) -> (state: State)
        ensures
            state.attacking is None,
            state.following is None,
            state.last_attack == now_ms,
            state.last_move == now_ms,
    {
        State { attacking: None, following: None, last_attack: now_ms, last_move: now_ms }
    }

    /// Whether `cooldown_ms` milliseconds have passed from the last attack
    /// to `now_ms`.
    pub fn attack_ready(&self, now_ms: u64, cooldown_ms: u64) -> (ready: bool)
        ensures
            ready == (elapsed_ms(now_ms, self.last_attack) >= cooldown_ms),
    {
        waited(elapsed_between(now_ms, self.last_attack) as u128, cooldown_ms)
    }

    /// Whether `delay_ms` milliseconds have passed from the last step to
    /// `now_ms`.
    pub fn move_ready(&self, now_ms: u64, delay_ms: u64) -> (ready: bool)
        ensures
            ready == (elapsed_ms(now_ms, self.last_move) >= delay_ms),
    {
        waited(elapsed_between(now_ms, self.last_move) as u128, delay_ms)
    }
}

/// The part of the world near a player: a disc around its position.
pub struct PlayerView {
    position: WorldPos,
    radius: i64,
}

impl PlayerView {
    /// Center of the disc.
    pub closed spec fn spec_position(&self) -> WorldPos {
        self.position
    }

    /// Radius of the disc, in pixels.
    pub closed spec fn spec_radius(&self) -> int {
        self.radius as int
    }

    /// Whether `pos` lies in the disc (Euclidean distance at most the radius).
    pub open spec fn spec_contains(&self, pos: WorldPos) -> bool {
        let dx = self.spec_position().x - pos.x;
        let dy = self.spec_position().y - pos.y;
        dx * dx + dy * dy <= self.spec_radius() * self.spec_radius()
    }

    /// The view around `pos`, ten tiles wide in every direction.
    pub fn new(pos: WorldPos) -> (view: PlayerView)
        ensures
            view.spec_position() == pos,
            view.spec_radius() == TILE_SIZE * 10,
    {
        PlayerView { position: pos, radius: TILE_SIZE * 10 }
    }

    /// Moves the disc's center.
    pub fn set_position(&mut self, pos: WorldPos)
        ensures
            final(self).spec_position() == pos,
            final(self).spec_radius() == old(self).spec_radius(),
    {
        self.position = pos;
    }

    /// Whether `pos` lies in the view.
    pub fn contains(&self, pos: WorldPos) -> (inside: bool)
        ensures
            inside == self.spec_contains(pos),
    {
        let dx = self.position.x as i128 - pos.x as i128;
        let dy = self.position.y as i128 - pos.y as i128;
        let r = if self.radius < 0 { -(self.radius as i128) } else { self.radius as i128 };
        assert(r * r == self.spec_radius() * self.spec_radius()) by (nonlinear_arith)
            requires r == self.spec_radius() || r == -self.spec_radius();
        if dx > r || dx < -r || dy > r || dy < -r {
            proof {
                let (a, b, c) = (dx as int, dy as int, r as int);
                if a > c || a < -c {
                    assert(a * a > c * c) by (nonlinear_arith) requires (a > c || a < -c), c >= 0;
                    assert(b * b >= 0) by (nonlinear_arith);
                } else {
                    assert(b * b > c * c) by (nonlinear_arith) requires (b > c || b < -c), c >= 0;
                    assert(a * a >= 0) by (nonlinear_arith);
                }
            }
            return false;
        }
        proof {
            let (a, b, c) = (dx as int, dy as int, r as int);
            assert(a * a <= c * c) by (nonlinear_arith) requires -c <= a <= c;
            assert(b * b <= c * c) by (nonlinear_arith) requires -c <= b <= c;
            assert(c * c <= 0x8000_0000_0000_0000 * 0x8000_0000_0000_0000) by (nonlinear_arith)
                requires 0 <= c <= 0x8000_0000_0000_0000;
            assert(a * a >= 0 && b * b >= 0) by (nonlinear_arith);
        }
        let sx = (dx * dx) as u128;
        let sy = (dy * dy) as u128;
        sx + sy <= (r * r) as u128
    }
}

} // verus!
