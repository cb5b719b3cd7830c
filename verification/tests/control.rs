use dyrah::game::systems::ai::AiSystem;
use dyrah::game::systems::input::InputSystem;
use dyrah::world::control::{ai_steering, idle_animation, keyboard_steering, random_ai_steering, Heading, Steering};

#[test]
fn ai_rolls_pick_walks() {
    assert_eq!(ai_steering(0, 0), Some(Steering { heading: Heading::UpRight, animation: 4 }));
    assert_eq!(ai_steering(1, 0), Some(Steering { heading: Heading::UpLeft, animation: 5 }));
    assert_eq!(ai_steering(2, 0), Some(Steering { heading: Heading::DownLeft, animation: 6 }));
    assert_eq!(ai_steering(3, 0), Some(Steering { heading: Heading::DownRight, animation: 7 }));
}

#[test]
fn other_rolls_stop_a_walk() {
    assert_eq!(ai_steering(4, 6), Some(Steering { heading: Heading::Still, animation: 2 }));
    assert_eq!(ai_steering(20, 7), Some(Steering { heading: Heading::Still, animation: 3 }));
    assert_eq!(ai_steering(12, 1), None);
}

#[test]
fn idle_rows_sit_four_below_walks() {
    assert_eq!(idle_animation(4), Some(0));
    assert_eq!(idle_animation(7), Some(3));
    assert_eq!(idle_animation(3), None);
    assert_eq!(idle_animation(8), None);
}

#[test]
fn keyboard_prefers_up_then_left_then_down_then_right() {
    assert_eq!(keyboard_steering(true, true, true, true, 0).unwrap().heading, Heading::UpRight);
    assert_eq!(keyboard_steering(false, true, true, true, 0).unwrap().heading, Heading::UpLeft);
    assert_eq!(keyboard_steering(false, false, true, true, 0).unwrap().heading, Heading::DownLeft);
    assert_eq!(keyboard_steering(false, false, false, true, 0).unwrap().heading, Heading::DownRight);
    assert_eq!(keyboard_steering(false, false, false, false, 5), Some(Steering { heading: Heading::Still, animation: 1 }));
    assert_eq!(keyboard_steering(false, false, false, false, 0), None);
}

#[test]
fn heading_velocities_in_half_pixels() {
    assert_eq!(Heading::UpRight.velocity_halves(), (2, -1));
    assert_eq!(Heading::UpLeft.velocity_halves(), (-2, -1));
    assert_eq!(Heading::DownLeft.velocity_halves(), (-2, 1));
    assert_eq!(Heading::DownRight.velocity_halves(), (2, 1));
    assert_eq!(Heading::Still.velocity_halves(), (0, 0));
}

#[test]
fn random_ai_steering_stays_in_the_table() {
    for _ in 0..200 {
        match random_ai_steering(6) {
            Some(s) => assert!(s.heading != Heading::Still || s.animation == 2),
            None => panic!("a walking entity always gets a steering"),
        }
    }
}

#[test]
fn key_velocity_precedence() {
    assert_eq!(InputSystem::control_player(true, true, false, false), (0, -1));
    assert_eq!(InputSystem::control_player(false, true, true, false), (-1, 0));
    assert_eq!(InputSystem::control_player(false, false, true, true), (0, 1));
    assert_eq!(InputSystem::control_player(false, false, false, true), (1, 0));
    assert_eq!(InputSystem::control_player(false, false, false, false), (0, 0));
    assert_eq!(dyrah::client::systems::input::InputSystem::control_player(false, false, false, true), (1, 0));
}

#[test]
fn monster_rolls_map_to_directions() {
    assert_eq!(AiSystem::roll_velocity(0), (0, -1));
    assert_eq!(AiSystem::roll_velocity(1), (-1, 0));
    assert_eq!(AiSystem::roll_velocity(2), (0, 1));
    assert_eq!(AiSystem::roll_velocity(3), (1, 0));
    assert_eq!(AiSystem::roll_velocity(9), (0, 0));
}

#[test]
fn monsters_never_wander_right() {
    for _ in 0..300 {
        let v = AiSystem::control_monsters();
        assert!(v == (0, -1) || v == (-1, 0) || v == (0, 1));
    }
}
