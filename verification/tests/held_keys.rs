use scene_explorer::input::{
    HeldKeys, KeyState, MoveIntent, KEY_A, KEY_D, KEY_ESCAPE, KEY_S, KEY_W,
};

#[test]
fn no_key_held_means_no_movement() {
    let keys = HeldKeys::new();
    let intent = keys.movement_intent();
    assert_eq!(intent, MoveIntent { forward: 0, strafe: 0 });
    assert!(!intent.is_moving());
}

#[test]
fn w_moves_forward_and_s_backward() {
    let mut keys = HeldKeys::new();
    keys.process_key(KEY_W, KeyState::Pressed);
    assert_eq!(keys.movement_intent(), MoveIntent { forward: 1, strafe: 0 });
    keys.process_key(KEY_W, KeyState::Released);
    keys.process_key(KEY_S, KeyState::Pressed);
    assert_eq!(keys.movement_intent(), MoveIntent { forward: -1, strafe: 0 });
    assert!(keys.movement_intent().is_moving());
}

#[test]
fn a_strafes_left_and_d_right() {
    let mut keys = HeldKeys::new();
    keys.process_key(KEY_A, KeyState::Pressed);
    assert_eq!(keys.movement_intent(), MoveIntent { forward: 0, strafe: -1 });
    keys.process_key(KEY_D, KeyState::Pressed);
    assert_eq!(keys.movement_intent(), MoveIntent { forward: 0, strafe: 0 });
    keys.process_key(KEY_A, KeyState::Released);
    assert_eq!(keys.movement_intent(), MoveIntent { forward: 0, strafe: 1 });
}

#[test]
fn opposite_keys_cancel() {
    let mut keys = HeldKeys::new();
    for k in [KEY_W, KEY_S, KEY_A, KEY_D] {
        keys.process_key(k, KeyState::Pressed);
    }
    let intent = keys.movement_intent();
    assert_eq!(intent, MoveIntent { forward: 0, strafe: 0 });
    assert!(!intent.is_moving());
}

#[test]
fn diagonal_movement() {
    let mut keys = HeldKeys::new();
    keys.process_key(KEY_W, KeyState::Pressed);
    keys.process_key(KEY_D, KeyState::Pressed);
    assert_eq!(keys.movement_intent(), MoveIntent { forward: 1, strafe: 1 });
}

#[test]
fn release_undoes_press_and_repeats_are_harmless() {
    let mut keys = HeldKeys::new();
    keys.process_key(KEY_ESCAPE, KeyState::Pressed);
    keys.process_key(KEY_W, KeyState::Pressed);
    keys.process_key(KEY_W, KeyState::Pressed);
    assert!(keys.is_held(KEY_W));
    keys.process_key(KEY_W, KeyState::Released);
    assert!(!keys.is_held(KEY_W));
    assert!(keys.is_held(KEY_ESCAPE));
    keys.process_key(KEY_W, KeyState::Released);
    assert!(!keys.is_held(KEY_W));
    assert_eq!(keys.movement_intent(), MoveIntent { forward: 0, strafe: 0 });
}

#[test]
fn other_keys_do_not_move() {
    let mut keys = HeldKeys::new();
    keys.process_key(1000, KeyState::Pressed);
    keys.process_key(KEY_ESCAPE, KeyState::Pressed);
    assert!(keys.is_held(1000));
    assert!(!keys.movement_intent().is_moving());
}

#[test]
fn events_on_different_keys_commute() {
    let mut one = HeldKeys::new();
    one.process_key(KEY_W, KeyState::Pressed);
    one.process_key(KEY_A, KeyState::Pressed);
    one.process_key(KEY_A, KeyState::Released);
    let mut two = HeldKeys::new();
    two.process_key(KEY_A, KeyState::Pressed);
    two.process_key(KEY_A, KeyState::Released);
    two.process_key(KEY_W, KeyState::Pressed);
    for k in [KEY_W, KEY_A, KEY_S, KEY_D] {
        assert_eq!(one.is_held(k), two.is_held(k));
    }
    assert_eq!(one.movement_intent(), two.movement_intent());
}
