//! The game's input state: button states, the keyboard controller, the mouse,
//! and the mapping from keys to controller buttons.
use vstd::prelude::*;

verus! {

/// Key code of the `w` key.
pub const KEYCODE_W: i32 = 119;
/// Key code of the `a` key.
pub const KEYCODE_A: i32 = 97;
/// Key code of the `s` key.
pub const KEYCODE_S: i32 = 115;
/// Key code of the `d` key.
pub const KEYCODE_D: i32 = 100;
/// Key code of the `q` key.
pub const KEYCODE_Q: i32 = 113;
/// Key code of the `e` key.
pub const KEYCODE_E: i32 = 101;
/// Key code of the `f` key.
pub const KEYCODE_F: i32 = 102;
/// Key code of the space bar.
pub const KEYCODE_SPACE: i32 = 32;
/// Key code of the escape key.
pub const KEYCODE_ESCAPE: i32 = 27;
/// Key code of the up arrow.
pub const KEYCODE_UP: i32 = 1073741906;
/// Key code of the down arrow.
pub const KEYCODE_DOWN: i32 = 1073741905;
/// Key code of the right arrow.
pub const KEYCODE_RIGHT: i32 = 1073741903;
/// Key code of the left arrow.
pub const KEYCODE_LEFT: i32 = 1073741904;

/// A virtual key code, as SDL numbers keys.
#[derive(Clone, Copy, Debug, PartialEq, Eq, Structural)]
pub struct Keycode(pub i32);

/// The state of one button: whether it ended the frame held down, and how
/// often it changed between up and down.
#[derive(Clone, Copy, Debug, PartialEq, Eq, Structural)]
pub struct ButtonState {
    pub ended_down: bool,
    pub half_transition_count: u32,
}

impl ButtonState {
    /// The state after a press (`is_down`) or a release (`!is_down`): a
    /// change of state is counted (the count stops at `u32::MAX`); a press in
    /// the state the button is already in changes nothing.
    pub open spec fn spec_pressed(self, is_down: bool) -> ButtonState {
        if self.ended_down == is_down {
            self
        } else {
            ButtonState {
                ended_down: is_down,
                half_transition_count: if self.half_transition_count < u32::MAX {
                    (self.half_transition_count + 1) as u32
                } else {
                    u32::MAX
                },
            }
        }
    }

    /// A button that is up and has not changed.
    pub fn new() -> (b: ButtonState)
        ensures
            b == (ButtonState { ended_down: false, half_transition_count: 0 }),
    {
        ButtonState { ended_down: false, half_transition_count: 0 }
    }

    /// Records a press (`is_down`) or a release (`!is_down`) of the button.
    pub fn key_press(&mut self, is_down: bool)
        ensures
            *final(self) == old(self).spec_pressed(is_down),
            final(self).ended_down == is_down,
    {
        if self.ended_down != is_down {
            self.ended_down = is_down;
            if self.half_transition_count < u32::MAX {
                self.half_transition_count = self.half_transition_count + 1;
            }
        }
    }
}

/// The buttons of a controller.
#[derive(Clone, Copy, Debug, PartialEq, Eq, Structural)]
pub enum ControllerButton {
    MoveUp,
    MoveDown,
    MoveLeft,
    MoveRight,
    ActionUp,
    ActionDown,
    ActionLeft,
    ActionRight,
    LeftShoulder,
    RightShoulder,
}

/// A game controller: four movement buttons, four action buttons and two
/// shoulder buttons.
#[derive(Clone, Copy, Debug, PartialEq, Eq, Structural)]
pub struct Controller {
    pub move_up: ButtonState,
    pub move_down: ButtonState,
    pub move_left: ButtonState,
    pub move_right: ButtonState,
    pub action_up: ButtonState,
    pub action_down: ButtonState,
    pub action_left: ButtonState,
    pub action_right: ButtonState,
    pub left_shoulder: ButtonState,
    pub right_shoulder: ButtonState,
}

impl Controller {
    /// The state of button `b`.
    pub open spec fn button(self, b: ControllerButton) -> ButtonState {
        match b {
            ControllerButton::MoveUp => self.move_up,
            ControllerButton::MoveDown => self.move_down,
            ControllerButton::MoveLeft => self.move_left,
            ControllerButton::MoveRight => self.move_right,
            ControllerButton::ActionUp => self.action_up,
            ControllerButton::ActionDown => self.action_down,
            ControllerButton::ActionLeft => self.action_left,
            ControllerButton::ActionRight => self.action_right,
            ControllerButton::LeftShoulder => self.left_shoulder,
            ControllerButton::RightShoulder => self.right_shoulder,
        }
    }

    /// The controller with button `b` in state `s` and every other button as
    /// it was.
    pub open spec fn with_button(self, b: ControllerButton, s: ButtonState) -> Controller {
        match b {
            ControllerButton::MoveUp => Controller { move_up: s, ..self },
            ControllerButton::MoveDown => Controller { move_down: s, ..self },
            ControllerButton::MoveLeft => Controller { move_left: s, ..self },
            ControllerButton::MoveRight => Controller { move_right: s, ..self },
            ControllerButton::ActionUp => Controller { action_up: s, ..self },
            ControllerButton::ActionDown => Controller { action_down: s, ..self },
            ControllerButton::ActionLeft => Controller { action_left: s, ..self },
            ControllerButton::ActionRight => Controller { action_right: s, ..self },
            ControllerButton::LeftShoulder => Controller { left_shoulder: s, ..self },
            ControllerButton::RightShoulder => Controller { right_shoulder: s, ..self },
        }
    }

    /// The controller after a press or release of button `b`.
    pub open spec fn spec_press(self, b: ControllerButton, is_down: bool) -> Controller {
        self.with_button(b, self.button(b).spec_pressed(is_down))
    }

    /// The controller after a press or release of key `key`: the button the
    /// key drives changes, and a key that drives no button changes nothing.
    pub open spec fn spec_key(self, key: Keycode, is_down: bool) -> Controller {
        match key_button(key) {
            Some(b) => self.spec_press(b, is_down),
            None => self,
        }
    }

    /// A controller with every button up.
    pub fn new() -> (c: Controller)
        ensures
            forall|b: ControllerButton| #[trigger]
                c.button(b) == (ButtonState { ended_down: false, half_transition_count: 0 }),
    {
        Controller {
            move_up: ButtonState::new(),
            move_down: ButtonState::new(),
            move_left: ButtonState::new(),
            move_right: ButtonState::new(),
            action_up: ButtonState::new(),
            action_down: ButtonState::new(),
            action_left: ButtonState::new(),
            action_right: ButtonState::new(),
            left_shoulder: ButtonState::new(),
            right_shoulder: ButtonState::new(),
        }
    }

    /// Records a press or release of button `b`.
    pub fn press(&mut self, b: ControllerButton, is_down: bool)
        ensures
            *final(self) == old(self).spec_press(b, is_down),
    {
        match b {
            ControllerButton::MoveUp => self.move_up.key_press(is_down),
            ControllerButton::MoveDown => self.move_down.key_press(is_down),
            ControllerButton::MoveLeft => self.move_left.key_press(is_down),
            ControllerButton::MoveRight => self.move_right.key_press(is_down),
            ControllerButton::ActionUp => self.action_up.key_press(is_down),
            ControllerButton::ActionDown => self.action_down.key_press(is_down),
            ControllerButton::ActionLeft => self.action_left.key_press(is_down),
            ControllerButton::ActionRight => self.action_right.key_press(is_down),
            ControllerButton::LeftShoulder => self.left_shoulder.key_press(is_down),
            ControllerButton::RightShoulder => self.right_shoulder.key_press(is_down),
        }
    }
}

/// The controller button a key drives: `w`, `a`, `s`, `d` move, `q` and `e`
/// are the shoulders, the arrow keys are the actions; other keys drive none.
pub open spec fn key_button(key: Keycode) -> Option<ControllerButton> {
    let k = key.0;
    if k == KEYCODE_W {
        Some(ControllerButton::MoveUp)
    } else if k == KEYCODE_A {
        Some(ControllerButton::MoveLeft)
    } else if k == KEYCODE_S {
        Some(ControllerButton::MoveDown)
    } else if k == KEYCODE_D {
        Some(ControllerButton::MoveRight)
    } else if k == KEYCODE_Q {
        Some(ControllerButton::LeftShoulder)
    } else if k == KEYCODE_E {
        Some(ControllerButton::RightShoulder)
    } else if k == KEYCODE_UP {
        Some(ControllerButton::ActionUp)
    } else if k == KEYCODE_DOWN {
        Some(ControllerButton::ActionDown)
    } else if k == KEYCODE_RIGHT {
        Some(ControllerButton::ActionRight)
    } else if k == KEYCODE_LEFT {
        Some(ControllerButton::ActionLeft)
    } else {
        None
    }
}

/// The controller button that key `key` drives, if any.
pub fn button_for_key(key: Keycode) -> (r: Option<ControllerButton>)
    ensures
        r == key_button(key),
{
    let k = key.0;
    if k == KEYCODE_W {
        Some(ControllerButton::MoveUp)
    } else if k == KEYCODE_A {
        Some(ControllerButton::MoveLeft)
    } else if k == KEYCODE_S {
        Some(ControllerButton::MoveDown)
    } else if k == KEYCODE_D {
        Some(ControllerButton::MoveRight)
    } else if k == KEYCODE_Q {
        Some(ControllerButton::LeftShoulder)
    } else if k == KEYCODE_E {
        Some(ControllerButton::RightShoulder)
    } else if k == KEYCODE_UP {
        Some(ControllerButton::ActionUp)
    } else if k == KEYCODE_DOWN {
        Some(ControllerButton::ActionDown)
    } else if k == KEYCODE_RIGHT {
        Some(ControllerButton::ActionRight)
    } else if k == KEYCODE_LEFT {
        Some(ControllerButton::ActionLeft)
    } else {
        None
    }
}

/// Applies a press (`is_down`) or release of `key` to the keyboard
/// controller `input`.
pub fn process_keycode(key: Keycode, is_down: bool, input: &mut Controller)
    ensures
        *final(input) == old(input).spec_key(key, is_down),
{
    match button_for_key(key) {
        Some(b) => input.press(b, is_down),
        None => {},
    }
}

/// Pressing a button leaves every other button as it was, and leaves the
/// pressed button in the state given.
pub proof fn lemma_press_touches_one_button(c: Controller, b: ControllerButton, is_down: bool)
    ensures
        c.spec_press(b, is_down).button(b).ended_down == is_down,
        forall|o: ControllerButton|
            o != b ==> #[trigger] c.spec_press(b, is_down).button(o) == c.button(o),
{
}

/// Two different keys never drive the same button.
pub proof fn lemma_key_buttons_distinct(k1: Keycode, k2: Keycode)
    requires
        key_button(k1) is Some,
        k1 != k2,
    ensures
        key_button(k1) != key_button(k2),
{
}

/// Every controller button is driven by some key.
pub proof fn lemma_every_button_has_a_key(b: ControllerButton)
    ensures
        exists|k: Keycode| key_button(k) == Some(b),
{
    let k = match b {
        ControllerButton::MoveUp => Keycode(KEYCODE_W),
        ControllerButton::MoveDown => Keycode(KEYCODE_S),
        ControllerButton::MoveLeft => Keycode(KEYCODE_A),
        ControllerButton::MoveRight => Keycode(KEYCODE_D),
        ControllerButton::ActionUp => Keycode(KEYCODE_UP),
        ControllerButton::ActionDown => Keycode(KEYCODE_DOWN),
        ControllerButton::ActionLeft => Keycode(KEYCODE_LEFT),
        ControllerButton::ActionRight => Keycode(KEYCODE_RIGHT),
        ControllerButton::LeftShoulder => Keycode(KEYCODE_Q),
        ControllerButton::RightShoulder => Keycode(KEYCODE_E),
    };
    assert(key_button(k) == Some(b));
}

/// Repeating a press or a release changes nothing: the second of two equal
/// presses leaves the button as the first left it.
pub proof fn lemma_key_press_idempotent(b: ButtonState, is_down: bool)
    ensures
        b.spec_pressed(is_down).spec_pressed(is_down) == b.spec_pressed(is_down),
{
}

/// A press followed by a release (or the reverse) leaves the button where it
/// started, with the two changes counted.
pub proof fn lemma_press_release_round_trip(b: ButtonState, is_down: bool)
    requires
        b.ended_down != is_down,
        b.half_transition_count + 2 <= u32::MAX,
    ensures
        b.spec_pressed(is_down).spec_pressed(!is_down).ended_down == b.ended_down,
        b.spec_pressed(is_down).spec_pressed(!is_down).half_transition_count
            == b.half_transition_count + 2,
{
}

/// The input state the event handler updates.
#[derive(Clone, Copy, Debug)]
pub struct Input {
    pub should_quit: bool,
    pub should_resize: Option<(i32, i32)>,
    pub mouse_x: i32,
    pub mouse_y: i32,
    pub mouse_left: ButtonState,
    pub mouse_middle: ButtonState,
    pub mouse_right: ButtonState,
    pub keyboard: Controller,
}

impl Input {
    /// No quit or resize asked for, the mouse at the origin, every button up.
    pub fn new() -> (i: Input)
        ensures
            !i.should_quit,
            i.should_resize is None,
            i.mouse_x == 0,
            i.mouse_y == 0,
            i.mouse_left == (ButtonState { ended_down: false, half_transition_count: 0 }),
            i.mouse_middle == (ButtonState { ended_down: false, half_transition_count: 0 }),
            i.mouse_right == (ButtonState { ended_down: false, half_transition_count: 0 }),
            forall|b: ControllerButton| #[trigger]
                i.keyboard.button(b) == (ButtonState { ended_down: false, half_transition_count: 0 }),
    {
        Input {
            should_quit: false,
            should_resize: None,
            mouse_x: 0,
            mouse_y: 0,
            mouse_left: ButtonState::new(),
            mouse_middle: ButtonState::new(),
            mouse_right: ButtonState::new(),
            keyboard: Controller::new(),
        }
    }

    /// The keyboard controller.
    pub fn get_mut_keyboard(&mut self) -> (k: &mut Controller)
        ensures
            *k == old(self).keyboard,
            final(self).keyboard == *final(k),
            final(self).should_quit == old(self).should_quit,
            final(self).should_resize == old(self).should_resize,
            final(self).mouse_x == old(self).mouse_x,
            final(self).mouse_y == old(self).mouse_y,
            final(self).mouse_left == old(self).mouse_left,
            final(self).mouse_middle == old(self).mouse_middle,
            final(self).mouse_right == old(self).mouse_right,
    {
        &mut self.keyboard
    }
}

} // verus!
