use dyrah::server::systems::{Blow, CombatSystem, Engagement, InputSystem, MovementSystem};
use dyrah::server::{
    elapsed_between, waited, PlayerView, State, CREATURE_ATTACK_COOLDOWN_MS, PLAYER_ATTACK_COOLDOWN_MS,
    PLAYER_MOVE_DELAY_MS,
};
use dyrah::shared::messages::ClientInput;
use dyrah::shared::WorldPos;

fn at(x: i64, y: i64) -> WorldPos {
    WorldPos { x, y }
}

#[test]
fn engagement_zones() {
    assert_eq!(CombatSystem::engagement(at(0, 0), at(48, 0)), Engagement::Strike);
    assert_eq!(CombatSystem::engagement(at(0, 0), at(32, 32)), Engagement::Strike);
    assert_eq!(CombatSystem::engagement(at(0, 0), at(49, 0)), Engagement::Follow);
    assert_eq!(CombatSystem::engagement(at(0, 0), at(192, 256)), Engagement::Follow);
    assert_eq!(CombatSystem::engagement(at(0, 0), at(193, 256)), Engagement::OutOfSight);
    assert_eq!(CombatSystem::engagement(at(i64::MIN, 0), at(i64::MAX, 0)), Engagement::OutOfSight);
}

#[test]
fn resolving_attacks() {
    let mut state = State::new(100);
    state.attacking = Some(9);
    assert_eq!(CombatSystem::resolve_attack(&mut state, 1, 9, false, 950), None);
    assert_eq!(state.attacking, Some(9));
    assert_eq!(state.last_attack, 950);
    assert_eq!(CombatSystem::resolve_attack(&mut state, 1, 9, true, 2000), Some((1, 9)));
    assert_eq!(state.attacking, None);
    assert_eq!(state.last_attack, 950);
    assert_eq!(state.last_move, 100);
}

#[test]
fn new_state_is_idle() {
    let s = State::new(1234);
    assert!(s.attacking.is_none());
    assert!(s.following.is_none());
    assert_eq!(s.last_attack, 1234);
    assert_eq!(s.last_move, 1234);
}

#[test]
fn creature_delays() {
    assert_eq!(MovementSystem::creature_delay_ms(true), 400);
    for _ in 0..100 {
        let d = MovementSystem::creature_delay_ms(false);
        assert!(d == 1000 || d == 2000 || d == 3000 || d == 4000);
    }
}

#[test]
fn random_directions_are_unit_steps() {
    for _ in 0..100 {
        let (x, y) = MovementSystem::random_direction();
        assert!((-1..=1).contains(&x) && (-1..=1).contains(&y));
    }
}

#[test]
fn steps_move_whole_tiles() {
    assert_eq!(MovementSystem::step(at(10, 20), (1, -1)), at(42, -12));
    let input = ClientInput { left: true, up: false, right: false, down: true, mouse_tile_pos: None };
    assert_eq!(InputSystem::keyboard_target(at(64, 64), &input), at(32, 96));
}

#[test]
fn player_view_is_a_ten_tile_disc() {
    let mut view = PlayerView::new(at(0, 0));
    assert!(view.contains(at(320, 0)));
    assert!(view.contains(at(192, 256)));
    assert!(!view.contains(at(193, 256)));
    assert!(!view.contains(at(321, 0)));
    view.set_position(at(1000, 1000));
    assert!(view.contains(at(1000, 1320)));
    assert!(!view.contains(at(0, 0)));
    assert!(!view.contains(at(i64::MIN, i64::MAX)));
}

#[test]
fn waits_end_at_their_delay() {
    assert!(!waited(799, PLAYER_ATTACK_COOLDOWN_MS));
    assert!(waited(800, PLAYER_ATTACK_COOLDOWN_MS));
    assert!(!waited(999, CREATURE_ATTACK_COOLDOWN_MS));
    assert!(waited(1000, CREATURE_ATTACK_COOLDOWN_MS));
    assert!(!waited(199, PLAYER_MOVE_DELAY_MS));
    assert!(waited(u128::MAX, u64::MAX));
    assert!(waited(0, 0));
}

#[test]
fn cooldowns_follow_the_clock() {
    let mut state = State::new(10_000);
    assert!(!state.attack_ready(10_000, PLAYER_ATTACK_COOLDOWN_MS));
    assert!(!state.move_ready(10_000, PLAYER_MOVE_DELAY_MS));
    assert!(state.attack_ready(10_000, 0));
    assert!(state.move_ready(10_000, 0));
    assert!(!state.attack_ready(10_799, PLAYER_ATTACK_COOLDOWN_MS));
    assert!(state.attack_ready(10_800, PLAYER_ATTACK_COOLDOWN_MS));

    state.last_attack = 9_100;
    state.last_move = 9_750;
    assert!(state.attack_ready(10_000, PLAYER_ATTACK_COOLDOWN_MS));
    assert!(!state.attack_ready(10_000, CREATURE_ATTACK_COOLDOWN_MS));
    assert!(state.move_ready(10_000, PLAYER_MOVE_DELAY_MS));
    assert!(!state.move_ready(10_000, 400));
    // Attack and movement are timed apart.
    assert!(!state.attack_ready(9_800, PLAYER_ATTACK_COOLDOWN_MS));
    assert!(state.move_ready(9_950, PLAYER_MOVE_DELAY_MS));
    // A clock reading before the stored instant counts as no time passed.
    assert!(!state.attack_ready(5, 1));
    assert!(state.attack_ready(5, 0));
}

#[test]
fn elapsed_time_saturates() {
    assert_eq!(elapsed_between(1000, 200), 800);
    assert_eq!(elapsed_between(200, 1000), 0);
    assert_eq!(elapsed_between(u64::MAX, 0), u64::MAX);
}

#[test]
fn creatures_engage_and_strike() {
    let mut state = State::new(0);
    state.attacking = Some(3);
    assert_eq!(CombatSystem::engage(&mut state, at(0, 0), at(40, 0), 7), Engagement::Strike);
    assert_eq!(state.following, Some(7));
    assert_eq!(CombatSystem::engage(&mut state, at(0, 0), at(100, 0), 8), Engagement::Follow);
    assert_eq!(state.following, Some(8));
    assert_eq!(CombatSystem::engage(&mut state, at(0, 0), at(400, 0), 8), Engagement::OutOfSight);
    assert_eq!(state.following, None);
    assert_eq!(state.attacking, Some(3));

    state.following = Some(8);
    assert_eq!(CombatSystem::resolve_creature_attack(&mut state, 2, 8, false, 1500), None);
    assert_eq!(state.following, Some(8));
    assert_eq!(state.last_attack, 1500);
    assert_eq!(CombatSystem::resolve_creature_attack(&mut state, 2, 8, true, 3000), Some((2, 8)));
    assert_eq!(state.following, None);
    assert_eq!(state.last_attack, 1500);
    assert_eq!(state.attacking, Some(3));
}

#[test]
fn victims_leave_the_lobby() {
    let mut lobby = vec![(1u32, 10u64), (2, 20), (3, 30), (4, 40)];
    CombatSystem::remove_victims(&mut lobby, &[(100, 20), (101, 40), (102, 99)]);
    assert_eq!(lobby, vec![(1, 10), (3, 30)]);
    CombatSystem::remove_victims(&mut lobby, &[]);
    assert_eq!(lobby, vec![(1, 10), (3, 30)]);
    CombatSystem::remove_victims(&mut lobby, &[(5, 10), (5, 30)]);
    assert!(lobby.is_empty());
}

use dyrah::server::systems::PathTarget;

fn target(vec: WorldPos, path: Option<Vec<WorldPos>>) -> PathTarget {
    PathTarget { vec, path }
}

#[test]
fn paths_advance_one_waypoint_at_a_time() {
    // No path: keep the target and go on to the step.
    let mut t = target(at(64, 64), None);
    assert!(MovementSystem::advance_path(&mut t, at(0, 0), true, None));
    assert_eq!((t.vec, t.path.clone()), (at(64, 64), None));

    // An empty path is dropped.
    let mut t = target(at(64, 64), Some(vec![]));
    assert!(!MovementSystem::advance_path(&mut t, at(0, 0), true, None));
    assert_eq!((t.vec, t.path.clone()), (at(64, 64), None));

    // The next waypoint becomes the target.
    let mut t = target(at(0, 0), Some(vec![at(32, 0), at(64, 0)]));
    assert!(MovementSystem::advance_path(&mut t, at(0, 0), true, None));
    assert_eq!((t.vec, t.path.clone()), (at(32, 0), Some(vec![at(32, 0), at(64, 0)])));

    // A reached waypoint is popped and the next one is headed for.
    assert!(!MovementSystem::advance_path(&mut t, at(32, 0), true, None));
    assert_eq!((t.vec, t.path.clone()), (at(64, 0), Some(vec![at(64, 0)])));

    // Reaching the last waypoint ends the path.
    assert!(!MovementSystem::advance_path(&mut t, at(64, 0), true, None));
    assert_eq!((t.vec, t.path.clone()), (at(64, 0), None));
}

#[test]
fn blocked_paths_are_replanned_or_dropped() {
    let blocked = || target(at(0, 0), Some(vec![at(32, 0), at(64, 0)]));
    let mut t = blocked();
    let detour = vec![at(0, 32), at(32, 32), at(64, 0)];
    assert!(!MovementSystem::advance_path(&mut t, at(0, 0), false, Some(detour.clone())));
    assert_eq!((t.vec, t.path.clone()), (at(0, 32), Some(detour)));

    let mut t = blocked();
    assert!(!MovementSystem::advance_path(&mut t, at(0, 0), false, Some(vec![])));
    assert_eq!((t.vec, t.path.clone()), (at(0, 0), None));

    let mut t = blocked();
    assert!(!MovementSystem::advance_path(&mut t, at(0, 0), false, None));
    assert_eq!((t.vec, t.path.clone()), (at(0, 0), None));
}

#[test]
fn players_step_onto_their_target_tile() {
    let mut state = State::new(1000);
    let mut view = PlayerView::new(at(0, 0));
    let t = target(at(32, 0), None);
    // The move delay is not over yet.
    assert_eq!(MovementSystem::player_step(&mut state, &mut view, &t, at(0, 0), 1199, Some(at(32, 0))), None);
    assert_eq!(state.last_move, 1000);
    assert!(!view.contains(at(500, 0)));
    // Already on the target, or no tile there: nothing happens.
    assert_eq!(MovementSystem::player_step(&mut state, &mut view, &t, at(32, 0), 1200, Some(at(32, 0))), None);
    assert_eq!(MovementSystem::player_step(&mut state, &mut view, &t, at(0, 0), 1200, None), None);
    assert_eq!(state.last_move, 1000);
    // Otherwise the player moves and the view follows.
    assert_eq!(MovementSystem::player_step(&mut state, &mut view, &t, at(0, 0), 1200, Some(at(480, 0))), Some(at(480, 0)));
    assert_eq!(state.last_move, 1200);
    assert!(view.contains(at(500, 0)));
    assert!(!view.contains(at(0, 0)));
}

#[test]
fn creature_rounds_cover_every_player() {
    let players = [
        (1u64, at(40, 0), true),   // within reach: struck, survives
        (2u64, at(100, 0), true),  // in sight: followed
        (3u64, at(0, 30), true),   // within reach: killed
        (4u64, at(0, 10), false),  // no health: skipped
        (5u64, at(900, 0), true),  // out of sight
    ];
    let kills = [false, false, true, true, false];

    // Cooldown not over: nothing happens.
    let mut state = State::new(5000);
    let out = CombatSystem::creature_round(&mut state, 9, at(0, 0), &players, &kills, 5999);
    assert!(out.0.is_empty() && out.1.is_empty());
    assert_eq!((state.following, state.last_attack), (None, 5000));

    let out = CombatSystem::creature_round(&mut state, 9, at(0, 0), &players, &kills, 6000);
    assert_eq!(out.0, vec![(9, 3)]);
    assert_eq!(out.1, vec![1]);
    // The last player seen is out of sight, so the creature ends up following nobody.
    assert_eq!((state.following, state.last_attack), (None, 6000));

    let mut state = State::new(0);
    let out = CombatSystem::creature_round(&mut state, 9, at(0, 0), &players[..2], &kills[..2], 1000);
    assert_eq!((out.0.len(), out.1.clone()), (0, vec![1]));
    assert_eq!(state.following, Some(2));
}

fn held(left: bool, up: bool, right: bool, down: bool) -> ClientInput {
    ClientInput { left, up, right, down, mouse_tile_pos: None }
}

#[test]
fn player_input_clicks_keys_and_targets() {
    let mut state = State::new(0);
    let mut t = target(at(0, 0), None);

    // A click sets the found path; its first waypoint becomes the target.
    InputSystem::player_input(&mut state, &mut t, at(0, 0), &held(false, false, false, false), true,
        Some(vec![at(32, 0), at(64, 0)]), false, None);
    assert_eq!((t.vec, t.path.clone()), (at(32, 0), Some(vec![at(64, 0)])));
    // A click with no path found changes nothing.
    InputSystem::player_input(&mut state, &mut t, at(0, 0), &held(false, false, false, false), true, None, true, None);
    assert_eq!((t.vec, t.path.clone()), (at(32, 0), Some(vec![at(64, 0)])));

    // Keys onto a blocked tile change nothing; onto a free one, they aim there and drop the path.
    InputSystem::player_input(&mut state, &mut t, at(0, 0), &held(false, false, false, true), false, None, false, None);
    assert_eq!(t.vec, at(32, 0));
    InputSystem::player_input(&mut state, &mut t, at(0, 0), &held(false, false, false, true), false, None, true, Some(12));
    assert_eq!((t.vec, t.path.clone()), (at(0, 32), None));
    assert_eq!(state.attacking, Some(12));
    InputSystem::player_input(&mut state, &mut t, at(0, 0), &held(false, false, false, false), false, None, true, None);
    assert_eq!(state.attacking, Some(12));
}

#[test]
fn player_ticks_wait_out_the_move_delay() {
    let state = State::new(1000);
    let mut t = target(at(0, 0), Some(vec![at(32, 0), at(64, 0)]));
    // Within 200 ms nothing happens.
    assert!(!MovementSystem::path_tick(&state, &mut t, at(0, 0), 1199, true, None));
    assert_eq!((t.vec, t.path.clone()), (at(0, 0), Some(vec![at(32, 0), at(64, 0)])));
    // Afterwards the path is followed.
    assert!(MovementSystem::path_tick(&state, &mut t, at(0, 0), 1200, true, None));
    assert_eq!(t.vec, at(32, 0));
}

#[test]
fn creatures_step_within_the_view() {
    let view = PlayerView::new(at(0, 0));
    let mut state = State::new(0);
    // Delay not over.
    assert_eq!(MovementSystem::creature_step(&mut state, &view, at(0, 0), (1, 0), Some(at(32, 0)), 399, 400), None);
    // Outside the view: the step from (300, 0) to (332, 0) leaves the ten-tile disc.
    assert_eq!(MovementSystem::creature_step(&mut state, &view, at(300, 0), (1, 0), Some(at(332, 0)), 400, 400), None);
    // No tile there.
    assert_eq!(MovementSystem::creature_step(&mut state, &view, at(0, 0), (1, 0), None, 400, 400), None);
    assert_eq!(state.last_move, 0);
    // Otherwise the creature moves onto the tile found.
    assert_eq!(MovementSystem::creature_step(&mut state, &view, at(0, 0), (0, 1), Some(at(0, 32)), 400, 400), Some(at(0, 32)));
    assert_eq!(state.last_move, 400);
}

#[test]
fn player_combat_ticks() {
    let mut state = State::new(0);
    // Nobody to attack.
    assert_eq!(CombatSystem::player_attack(&mut state, 1, 5000, true, false), Blow::Nothing);
    state.attacking = Some(7);
    // Cooldown still runs, or the target has no health.
    assert_eq!(CombatSystem::player_attack(&mut state, 1, 799, true, false), Blow::Nothing);
    assert_eq!(CombatSystem::player_attack(&mut state, 1, 900, false, false), Blow::Nothing);
    assert_eq!(state.last_attack, 0);
    // A blow that leaves the target alive restarts the cooldown.
    assert_eq!(CombatSystem::player_attack(&mut state, 1, 900, true, false), Blow::Hit { attacker: 1, defender: 7 });
    assert_eq!((state.attacking, state.last_attack), (Some(7), 900));
    assert_eq!(CombatSystem::player_attack(&mut state, 1, 1600, true, true), Blow::Nothing);
    // A killing blow ends the attack.
    assert_eq!(CombatSystem::player_attack(&mut state, 1, 1700, true, true), Blow::Kill { killer: 1, victim: 7 });
    assert_eq!((state.attacking, state.last_attack), (None, 900));
}
