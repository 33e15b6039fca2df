use novluno_sdl::events::{Event, EventReaction, MouseButton, WindowEvent};
use novluno_sdl::input::{ButtonState, Controller, Input, Keycode, KEYCODE_ESCAPE, KEYCODE_W};
use novluno_sdl::sdl::Sdl;

fn setup() -> (Sdl, Input) {
    (Sdl::new(640, 480), Input::new())
}

const PRESSED: ButtonState = ButtonState { ended_down: true, half_transition_count: 1 };

#[test]
fn quit_event_asks_to_quit() {
    let (mut s, mut i) = setup();
    assert_eq!(s.handle_event(&mut i, &Event::Quit, false), EventReaction::Handled);
    assert!(i.should_quit);
}

#[test]
fn escape_asks_to_quit_even_when_repeated() {
    let (mut s, mut i) = setup();
    let e = Event::KeyDown { keycode: Some(Keycode(KEYCODE_ESCAPE)), repeat: true };
    assert_eq!(s.handle_event(&mut i, &e, false), EventReaction::Handled);
    assert!(i.should_quit);
    assert_eq!(i.keyboard, Controller::new());
}

#[test]
fn quit_stays_after_other_events() {
    let (mut s, mut i) = setup();
    s.handle_event(&mut i, &Event::Quit, false);
    s.handle_event(&mut i, &Event::MouseMotion { x: 1, y: 2 }, false);
    s.handle_event(&mut i, &Event::KeyUp { keycode: Some(Keycode(KEYCODE_ESCAPE)), repeat: false }, false);
    assert!(i.should_quit);
}

#[test]
fn key_down_and_up_drive_keyboard() {
    let (mut s, mut i) = setup();
    let down = Event::KeyDown { keycode: Some(Keycode(KEYCODE_W)), repeat: false };
    s.handle_event(&mut i, &down, false);
    assert_eq!(i.keyboard.move_up, PRESSED);
    let up = Event::KeyUp { keycode: Some(Keycode(KEYCODE_W)), repeat: false };
    s.handle_event(&mut i, &up, false);
    assert_eq!(i.keyboard.move_up, ButtonState { ended_down: false, half_transition_count: 2 });
    assert!(!i.should_quit);
}

#[test]
fn key_repeats_are_ignored() {
    let (mut s, mut i) = setup();
    let e = Event::KeyDown { keycode: Some(Keycode(KEYCODE_W)), repeat: true };
    assert_eq!(s.handle_event(&mut i, &e, false), EventReaction::Handled);
    assert_eq!(i.keyboard, Controller::new());
}

#[test]
fn key_without_keycode_is_unhandled() {
    let (mut s, mut i) = setup();
    let e = Event::KeyDown { keycode: None, repeat: false };
    assert_eq!(s.handle_event(&mut i, &e, false), EventReaction::Unhandled);
    let e = Event::KeyUp { keycode: None, repeat: false };
    assert_eq!(s.handle_event(&mut i, &e, false), EventReaction::Unhandled);
    assert_eq!(i.keyboard, Controller::new());
}

#[test]
fn window_size_change_is_recorded() {
    let (mut s, mut i) = setup();
    let e = Event::Window { win_event: WindowEvent::SizeChanged(800, 600) };
    assert_eq!(s.handle_event(&mut i, &e, false), EventReaction::Resized(800, 600));
    assert_eq!(i.should_resize, Some((800, 600)));
}

#[test]
fn other_window_events_change_nothing() {
    let (mut s, mut i) = setup();
    for w in [WindowEvent::Enter, WindowEvent::Leave, WindowEvent::Other] {
        assert_eq!(s.handle_event(&mut i, &Event::Window { win_event: w }, false), EventReaction::Handled);
    }
    assert_eq!(i.should_resize, None);
}

#[test]
fn mouse_motion_moves_mouse() {
    let (mut s, mut i) = setup();
    s.handle_event(&mut i, &Event::MouseMotion { x: 37, y: -4 }, false);
    assert_eq!((i.mouse_x, i.mouse_y), (37, -4));
}

#[test]
fn mouse_buttons() {
    let (mut s, mut i) = setup();
    s.handle_event(&mut i, &Event::MouseButtonDown { mouse_btn: MouseButton::Left }, false);
    s.handle_event(&mut i, &Event::MouseButtonDown { mouse_btn: MouseButton::Middle }, false);
    s.handle_event(&mut i, &Event::MouseButtonDown { mouse_btn: MouseButton::Right }, false);
    s.handle_event(&mut i, &Event::MouseButtonDown { mouse_btn: MouseButton::Other }, false);
    assert_eq!(i.mouse_left, PRESSED);
    assert_eq!(i.mouse_middle, PRESSED);
    assert_eq!(i.mouse_right, PRESSED);
    s.handle_event(&mut i, &Event::MouseButtonUp { mouse_btn: MouseButton::Middle }, false);
    assert_eq!(i.mouse_middle, ButtonState { ended_down: false, half_transition_count: 2 });
    assert_eq!(i.mouse_left, PRESSED);
}

#[test]
fn controller_added_is_left_to_caller() {
    let (mut s, mut i) = setup();
    let e = Event::ControllerDeviceAdded { which: 2 };
    assert_eq!(s.handle_event(&mut i, &e, false), EventReaction::ControllerAdded(2));
    assert_eq!(s.controllers, vec![false; 4]);
}

#[test]
fn controller_removed_empties_slot() {
    let (mut s, mut i) = setup();
    s.add_game_controller(2, Ok(())).unwrap();
    let e = Event::ControllerDeviceRemoved { which: 2 };
    assert_eq!(s.handle_event(&mut i, &e, false), EventReaction::ControllerRemoved(2));
    assert_eq!(s.controllers, vec![false; 4]);
}

#[test]
fn joystick_added_and_other_events() {
    let (mut s, mut i) = setup();
    assert_eq!(s.handle_event(&mut i, &Event::JoyDeviceAdded, false), EventReaction::Handled);
    assert_eq!(s.handle_event(&mut i, &Event::Other, false), EventReaction::Unhandled);
    assert!(!i.should_quit);
}

#[test]
fn repeated_event_is_skipped() {
    let (mut s, mut i) = setup();
    s.add_game_controller(1, Ok(())).unwrap();
    let e = Event::ControllerDeviceRemoved { which: 1 };
    assert_eq!(s.handle_event(&mut i, &e, true), EventReaction::Skipped);
    assert_eq!(s.controllers, vec![false, true, false, false]);
    assert_eq!(s.handle_event(&mut i, &Event::Quit, true), EventReaction::Skipped);
    assert!(!i.should_quit);
}

#[test]
fn only_quit_or_escape_quits() {
    let (mut s, mut i) = setup();
    let events = [
        Event::KeyDown { keycode: Some(Keycode(KEYCODE_W)), repeat: false },
        Event::KeyUp { keycode: Some(Keycode(KEYCODE_ESCAPE)), repeat: false },
        Event::Window { win_event: WindowEvent::Other },
        Event::MouseMotion { x: 3, y: 3 },
        Event::ControllerDeviceAdded { which: 1 },
        Event::JoyDeviceAdded,
        Event::Other,
    ];
    for e in events.iter() {
        s.handle_event(&mut i, e, false);
        assert!(!i.should_quit);
    }
}

fn run(events: &[Event]) -> (Input, Vec<bool>, Vec<EventReaction>) {
    let (mut s, mut i) = setup();
    s.add_game_controller(1, Ok(())).unwrap();
    let mut reactions = Vec::new();
    for (k, e) in events.iter().enumerate() {
        let repeats = k > 0 && events[k - 1] == *e;
        let r = s.handle_event(&mut i, e, repeats);
        if r != EventReaction::Skipped {
            reactions.push(r);
        }
    }
    (i, s.controllers, reactions)
}

#[test]
fn runs_of_equal_events_count_once() {
    let w = Event::KeyDown { keycode: Some(Keycode(KEYCODE_W)), repeat: false };
    let wu = Event::KeyUp { keycode: Some(Keycode(KEYCODE_W)), repeat: false };
    let rm = Event::ControllerDeviceRemoved { which: 1 };
    let full = [w, w, w, wu, wu, w, rm, rm, Event::Other, Event::Other];
    let collapsed = [w, wu, w, rm, Event::Other];
    let (a, sa, ra) = run(&full);
    let (b, sb, rb) = run(&collapsed);
    assert_eq!(a.keyboard, b.keyboard);
    assert_eq!(a.keyboard.move_up, ButtonState { ended_down: true, half_transition_count: 3 });
    assert_eq!(sa, sb);
    assert_eq!(ra, rb);
    assert_eq!(ra.len(), 5);
}
