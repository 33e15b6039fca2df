use novluno_sdl::input::{
    button_for_key, process_keycode, ButtonState, Controller, ControllerButton, Input, Keycode,
    KEYCODE_A, KEYCODE_D, KEYCODE_DOWN, KEYCODE_E, KEYCODE_ESCAPE, KEYCODE_F, KEYCODE_LEFT,
    KEYCODE_Q, KEYCODE_RIGHT, KEYCODE_S, KEYCODE_SPACE, KEYCODE_UP, KEYCODE_W,
};

const UP: ButtonState = ButtonState { ended_down: false, half_transition_count: 0 };

#[test]
fn key_press_counts_changes() {
    let mut b = ButtonState::new();
    b.key_press(true);
    assert_eq!(b, ButtonState { ended_down: true, half_transition_count: 1 });
    b.key_press(false);
    assert_eq!(b, ButtonState { ended_down: false, half_transition_count: 2 });
}

#[test]
fn key_press_repeat_changes_nothing() {
    let mut b = ButtonState::new();
    b.key_press(true);
    let once = b;
    b.key_press(true);
    assert_eq!(b, once);
    let mut c = ButtonState::new();
    c.key_press(false);
    assert_eq!(c, UP);
}

#[test]
fn key_press_count_stops_at_max() {
    let mut b = ButtonState { ended_down: false, half_transition_count: u32::MAX };
    b.key_press(true);
    assert_eq!(b, ButtonState { ended_down: true, half_transition_count: u32::MAX });
}

#[test]
fn key_map() {
    let cases = [
        (KEYCODE_W, ControllerButton::MoveUp),
        (KEYCODE_A, ControllerButton::MoveLeft),
        (KEYCODE_S, ControllerButton::MoveDown),
        (KEYCODE_D, ControllerButton::MoveRight),
        (KEYCODE_Q, ControllerButton::LeftShoulder),
        (KEYCODE_E, ControllerButton::RightShoulder),
        (KEYCODE_UP, ControllerButton::ActionUp),
        (KEYCODE_DOWN, ControllerButton::ActionDown),
        (KEYCODE_RIGHT, ControllerButton::ActionRight),
        (KEYCODE_LEFT, ControllerButton::ActionLeft),
    ];
    for (code, button) in cases {
        assert_eq!(button_for_key(Keycode(code)), Some(button));
    }
    for code in [KEYCODE_F, KEYCODE_SPACE, KEYCODE_ESCAPE, 0, -5] {
        assert_eq!(button_for_key(Keycode(code)), None);
    }
}

#[test]
fn process_keycode_presses_one_button() {
    let mut c = Controller::new();
    process_keycode(Keycode(KEYCODE_W), true, &mut c);
    assert_eq!(c.move_up, ButtonState { ended_down: true, half_transition_count: 1 });
    let mut expected = Controller::new();
    expected.move_up = c.move_up;
    assert_eq!(c, expected);
    process_keycode(Keycode(KEYCODE_W), false, &mut c);
    assert_eq!(c.move_up, ButtonState { ended_down: false, half_transition_count: 2 });
}

#[test]
fn process_keycode_each_key() {
    let mut c = Controller::new();
    for code in [KEYCODE_A, KEYCODE_S, KEYCODE_D, KEYCODE_Q, KEYCODE_E] {
        process_keycode(Keycode(code), true, &mut c);
    }
    for code in [KEYCODE_UP, KEYCODE_DOWN, KEYCODE_RIGHT, KEYCODE_LEFT] {
        process_keycode(Keycode(code), true, &mut c);
    }
    let down = ButtonState { ended_down: true, half_transition_count: 1 };
    assert_eq!(c.move_up, UP);
    assert_eq!(c.move_left, down);
    assert_eq!(c.move_down, down);
    assert_eq!(c.move_right, down);
    assert_eq!(c.left_shoulder, down);
    assert_eq!(c.right_shoulder, down);
    assert_eq!(c.action_up, down);
    assert_eq!(c.action_down, down);
    assert_eq!(c.action_right, down);
    assert_eq!(c.action_left, down);
}

#[test]
fn process_keycode_unmapped_keys_change_nothing() {
    let mut c = Controller::new();
    for code in [KEYCODE_F, KEYCODE_SPACE, KEYCODE_ESCAPE, 12345] {
        process_keycode(Keycode(code), true, &mut c);
    }
    assert_eq!(c, Controller::new());
}

#[test]
fn controller_press_targets_button() {
    let mut c = Controller::new();
    c.press(ControllerButton::RightShoulder, true);
    assert!(c.right_shoulder.ended_down);
    assert!(!c.left_shoulder.ended_down);
}

#[test]
fn input_starts_idle() {
    let i = Input::new();
    assert!(!i.should_quit);
    assert_eq!(i.should_resize, None);
    assert_eq!((i.mouse_x, i.mouse_y), (0, 0));
    assert_eq!(i.mouse_left, UP);
    assert_eq!(i.keyboard, Controller::new());
}

#[test]
fn keyboard_access() {
    let mut i = Input::new();
    process_keycode(Keycode(KEYCODE_D), true, i.get_mut_keyboard());
    assert!(i.keyboard.move_right.ended_down);
}
