//! Window-system events as the client tells them apart, and what handling
//! one does to the input state and the controller slots.
use vstd::prelude::*;
use crate::input::{
    key_button, lemma_press_touches_one_button, process_keycode, ButtonState, Controller,
    ControllerButton, Input, Keycode, KEYCODE_ESCAPE,
};
use crate::sdl::{slots_after, Sdl};

verus! {

/// The window events the client tells apart.
#[derive(Clone, Copy, Debug, PartialEq, Eq, Structural)]
pub enum WindowEvent {
    Enter,
    Leave,
    SizeChanged(i32, i32),
    Other,
}

/// The mouse buttons the client tells apart.
#[derive(Clone, Copy, Debug, PartialEq, Eq, Structural)]
pub enum MouseButton {
    Left,
    Middle,
    Right,
    Other,
}

/// An event as the client tells events apart; every kind it does not handle
/// is `Other`.
#[derive(Clone, Copy, Debug, PartialEq, Eq, Structural)]
pub enum Event {
    Quit,
    KeyDown { keycode: Option<Keycode>, repeat: bool },
    KeyUp { keycode: Option<Keycode>, repeat: bool },
    Window { win_event: WindowEvent },
    MouseMotion { x: i32, y: i32 },
    MouseButtonDown { mouse_btn: MouseButton },
    MouseButtonUp { mouse_btn: MouseButton },
    ControllerDeviceAdded { which: u32 },
    ControllerDeviceRemoved { which: i32 },
    JoyDeviceAdded,
    Other,
}

/// What the caller still has to do after an event was handled.
#[derive(Clone, Copy, Debug, PartialEq, Eq, Structural)]
pub enum EventReaction {
    /// The event repeated the one before it and was left alone.
    Skipped,
    /// The event was handled completely.
    Handled,
    /// The window changed size to the given width and height; report it.
    Resized(i32, i32),
    /// A controller device was plugged in: report it, open the device and
    /// record it with `Sdl::add_game_controller`.
    ControllerAdded(u32),
    /// A controller device was unplugged and its slot emptied; report it.
    ControllerRemoved(i32),
    /// The event is of a kind the client does not handle; report it.
    Unhandled,
}

/// The button state after a mouse button event on `btn`.
pub open spec fn mouse_pressed(input: Input, btn: MouseButton, is_down: bool) -> Input {
    match btn {
        MouseButton::Left => Input { mouse_left: input.mouse_left.spec_pressed(is_down), ..input },
        MouseButton::Middle => Input {
            mouse_middle: input.mouse_middle.spec_pressed(is_down),
            ..input
        },
        MouseButton::Right => Input {
            mouse_right: input.mouse_right.spec_pressed(is_down),
            ..input
        },
        MouseButton::Other => input,
    }
}

/// The input state after a key event that is not a key repeat.
pub open spec fn key_pressed(input: Input, key: Keycode, repeat: bool, is_down: bool) -> Input {
    if repeat {
        input
    } else {
        Input { keyboard: input.keyboard.spec_key(key, is_down), ..input }
    }
}

/// The input state after handling `event`: quitting on a quit event or on
/// escape pressed, key presses and releases (not repeats) on the keyboard
/// controller, the new window size on a size change, the mouse position on
/// motion, mouse button presses and releases on the left, middle and right
/// buttons; every other event leaves the input as it was.
pub open spec fn event_input(input: Input, event: Event) -> Input {
    match event {
        Event::Quit => Input { should_quit: true, ..input },
        Event::KeyDown { keycode: Some(key), repeat } => if key.0 == KEYCODE_ESCAPE {
            Input { should_quit: true, ..input }
        } else {
            key_pressed(input, key, repeat, true)
        },
        Event::KeyUp { keycode: Some(key), repeat } => key_pressed(input, key, repeat, false),
        Event::Window { win_event: WindowEvent::SizeChanged(x, y) } => Input {
            should_resize: Some((x, y)),
            ..input
        },
        Event::MouseMotion { x, y } => Input { mouse_x: x, mouse_y: y, ..input },
        Event::MouseButtonDown { mouse_btn } => mouse_pressed(input, mouse_btn, true),
        Event::MouseButtonUp { mouse_btn } => mouse_pressed(input, mouse_btn, false),
        _ => input,
    }
}

/// What is left to do after handling `event`.
pub open spec fn event_reaction(event: Event) -> EventReaction {
    match event {
        Event::KeyDown { keycode: None, .. } => EventReaction::Unhandled,
        Event::KeyUp { keycode: None, .. } => EventReaction::Unhandled,
        Event::Window { win_event: WindowEvent::SizeChanged(x, y) } => EventReaction::Resized(x, y),
        Event::ControllerDeviceAdded { which } => EventReaction::ControllerAdded(which),
        Event::ControllerDeviceRemoved { which } => EventReaction::ControllerRemoved(which),
        Event::Other => EventReaction::Unhandled,
        _ => EventReaction::Handled,
    }
}

/// The controller slots after handling `event`: an unplugged device's slot
/// is emptied.
pub open spec fn event_slots(slots: Seq<bool>, event: Event) -> Seq<bool> {
    match event {
        Event::ControllerDeviceRemoved { which } => slots_after(slots, which as int, false),
        _ => slots,
    }
}

fn press_mouse(input: &mut Input, btn: MouseButton, is_down: bool)
    ensures
        *final(input) == mouse_pressed(*old(input), btn, is_down),
{
    match btn {
        MouseButton::Left => input.mouse_left.key_press(is_down),
        MouseButton::Middle => input.mouse_middle.key_press(is_down),
        MouseButton::Right => input.mouse_right.key_press(is_down),
        MouseButton::Other => {},
    }
}

fn press_key(input: &mut Input, key: Keycode, repeat: bool, is_down: bool)
    ensures
        *final(input) == key_pressed(*old(input), key, repeat, is_down),
{
    if !repeat {
        process_keycode(key, is_down, &mut input.keyboard);
    }
}

impl Sdl {
    /// Handles one event. `repeats_last` tells whether the event equals the
    /// one handled just before it; such an event is skipped and changes
    /// nothing. Otherwise the input becomes `event_input`, the controller
    /// slots become `event_slots`, and the result says what is left to do
    /// (`event_reaction`).
    pub fn handle_event(&mut self, input: &mut Input, event: &Event, repeats_last: bool) -> (r:
        EventReaction)
        requires
            old(self).wf(),
        ensures
            final(self).wf(),
            repeats_last ==> r == EventReaction::Skipped && *final(input) == *old(input)
                && final(self).controllers@ == old(self).controllers@,
            !repeats_last ==> r == event_reaction(*event) && *final(input) == event_input(
                *old(input),
                *event,
            ) && final(self).controllers@ == event_slots(old(self).controllers@, *event),
            final(self).controller_count == old(self).controller_count,
            final(self).window_width == old(self).window_width,
            final(self).window_height == old(self).window_height,
            final(self).audio_spec == old(self).audio_spec,
            final(self).do_debug_output == old(self).do_debug_output,
    {
        if repeats_last {
            return EventReaction::Skipped;
        }
        match *event {
            Event::Quit => {
                input.should_quit = true;
                EventReaction::Handled
            },
            Event::KeyDown { keycode: Some(key), repeat } => {
                if key.0 == KEYCODE_ESCAPE {
                    input.should_quit = true;
                } else {
                    press_key(input, key, repeat, true);
                }
                EventReaction::Handled
            },
            Event::KeyUp { keycode: Some(key), repeat } => {
                press_key(input, key, repeat, false);
                EventReaction::Handled
            },
            Event::Window { win_event } => {
                match win_event {
                    WindowEvent::SizeChanged(x, y) => {
                        input.should_resize = Some((x, y));
                        EventReaction::Resized(x, y)
                    },
                    _ => EventReaction::Handled,
                }
            },
            Event::MouseMotion { x, y } => {
                input.mouse_x = x;
                input.mouse_y = y;
                EventReaction::Handled
            },
            Event::MouseButtonDown { mouse_btn } => {
                press_mouse(input, mouse_btn, true);
                EventReaction::Handled
            },
            Event::MouseButtonUp { mouse_btn } => {
                press_mouse(input, mouse_btn, false);
                EventReaction::Handled
            },
            Event::ControllerDeviceAdded { which } => EventReaction::ControllerAdded(which),
            Event::ControllerDeviceRemoved { which } => {
                let _ = self.remove_game_controller(which);
                EventReaction::ControllerRemoved(which)
            },
            Event::JoyDeviceAdded => EventReaction::Handled,
            _ => EventReaction::Unhandled,
        }
    }
}

/// Once a quit is asked for, no event takes it back.
pub proof fn lemma_quit_is_sticky(input: Input, event: Event)
    requires
        input.should_quit,
    ensures
        event_input(input, event).should_quit,
{
}

/// Only a quit event or escape pressed asks for a quit.
pub proof fn lemma_quit_only_on_quit_or_escape(input: Input, event: Event)
    requires
        !input.should_quit,
        event_input(input, event).should_quit,
    ensures
        event == Event::Quit || (event matches Event::KeyDown { keycode: Some(k), .. } && k.0
            == KEYCODE_ESCAPE),
{
}

/// A key repeat never changes the keyboard controller.
pub proof fn lemma_key_repeat_ignored(input: Input, key: Keycode, is_down: bool)
    ensures
        key_pressed(input, key, true, is_down) == input,
{
}

/// The input state and controller slots after handling `event` in full.
pub open spec fn event_step(st: (Input, Seq<bool>), event: Event) -> (Input, Seq<bool>) {
    (event_input(st.0, event), event_slots(st.1, event))
}

/// Whether event `i` of `events` repeats the one just before it.
pub open spec fn repeats_previous(events: Seq<Event>, i: int) -> bool {
    i >= 1 && events[i - 1] == events[i]
}

/// The state after handling `events` one by one as `Sdl::handle_event`
/// does, each flagged as repeating when it equals the event before it.
pub open spec fn run_events(st: (Input, Seq<bool>), events: Seq<Event>) -> (Input, Seq<bool>)
    decreases events.len(),
{
    if events.len() == 0 {
        st
    } else {
        let prev = run_events(st, events.drop_last());
        if repeats_previous(events, events.len() - 1) {
            prev
        } else {
            event_step(prev, events.last())
        }
    }
}

/// What is left to do after each event of `events` that was not skipped,
/// in order.
pub open spec fn run_reactions(events: Seq<Event>) -> Seq<EventReaction>
    decreases events.len(),
{
    if events.len() == 0 {
        Seq::empty()
    } else if repeats_previous(events, events.len() - 1) {
        run_reactions(events.drop_last())
    } else {
        run_reactions(events.drop_last()).push(event_reaction(events.last()))
    }
}

/// `events` with every run of equal consecutive events collapsed to one.
pub open spec fn collapse_runs(events: Seq<Event>) -> Seq<Event>
    decreases events.len(),
{
    if events.len() == 0 {
        Seq::empty()
    } else if repeats_previous(events, events.len() - 1) {
        collapse_runs(events.drop_last())
    } else {
        collapse_runs(events.drop_last()).push(events.last())
    }
}

proof fn lemma_collapse_last(events: Seq<Event>)
    requires
        events.len() > 0,
    ensures
        collapse_runs(events).len() > 0,
        collapse_runs(events).last() == events.last(),
    decreases events.len(),
{
    if repeats_previous(events, events.len() - 1) {
        lemma_collapse_last(events.drop_last());
        assert(events.drop_last().last() == events[events.len() - 2]);
    }
}

proof fn lemma_collapse_idempotent(events: Seq<Event>)
    ensures
        collapse_runs(collapse_runs(events)) == collapse_runs(events),
    decreases events.len(),
{
    if events.len() > 0 {
        let rest = events.drop_last();
        lemma_collapse_idempotent(rest);
        if !repeats_previous(events, events.len() - 1) {
            let c = collapse_runs(rest);
            let d = c.push(events.last());
            assert(d.drop_last() =~= c);
            if rest.len() > 0 {
                lemma_collapse_last(rest);
                assert(rest.last() == events[events.len() - 2]);
                assert(d[d.len() - 2] == c.last());
            }
        }
    }
}

proof fn lemma_run_is_collapsed_run(st: (Input, Seq<bool>), events: Seq<Event>)
    ensures
        run_events(st, events) == run_events(st, collapse_runs(events)),
        run_reactions(events) == run_reactions(collapse_runs(events)),
        forall|i: int|
            0 <= i < collapse_runs(events).len() ==> !repeats_previous(
                collapse_runs(events),
                i,
            ),
    decreases events.len(),
{
    if events.len() > 0 {
        let rest = events.drop_last();
        lemma_run_is_collapsed_run(st, rest);
        let c = collapse_runs(rest);
        if !repeats_previous(events, events.len() - 1) {
            let d = c.push(events.last());
            assert(d.drop_last() =~= c);
            if rest.len() > 0 {
                lemma_collapse_last(rest);
                assert(rest.last() == events[events.len() - 2]);
            }
            assert(!repeats_previous(d, d.len() - 1));
            assert forall|i: int| 0 <= i < d.len() implies !repeats_previous(d, i) by {
                if i < d.len() - 1 {
                    assert(!repeats_previous(c, i));
                    if i >= 1 {
                        assert(d[i - 1] == c[i - 1] && d[i] == c[i]);
                    }
                }
            }
        }
    }
}

/// Handling a run of equal events is handling it once: events handled
/// one by one, each flagged as repeating when it equals the event before
/// it, leave the input state and the controller slots as the same events
/// with every run of equal consecutive events collapsed to one, and leave
/// the same things to do in the same order. Collapsing twice changes
/// nothing, and no event of a collapsed sequence repeats its predecessor.
pub proof fn lemma_repeated_events_collapse(st: (Input, Seq<bool>), events: Seq<Event>)
    ensures
        run_events(st, events) == run_events(st, collapse_runs(events)),
        run_reactions(events) == run_reactions(collapse_runs(events)),
        collapse_runs(collapse_runs(events)) == collapse_runs(events),
        forall|i: int|
            0 <= i < collapse_runs(events).len() ==> !repeats_previous(
                collapse_runs(events),
                i,
            ),
{
    lemma_run_is_collapsed_run(st, events);
    lemma_collapse_idempotent(events);
}

/// `after` is `before` once a press (`is_down`) or release of the button
/// was recorded: the button ends in the state given; a change of state is
/// counted once (the count stops at `u32::MAX`); a press in the state the
/// button is already in changes nothing.
pub open spec fn records_press(before: ButtonState, after: ButtonState, is_down: bool) -> bool {
    &&& after.ended_down == is_down
    &&& before.ended_down == is_down ==> after == before
    &&& before.ended_down != is_down ==> after.half_transition_count == (if before.half_transition_count
        < u32::MAX {
        before.half_transition_count + 1
    } else {
        u32::MAX as int
    })
}

/// A press or release of mouse button `b` is recorded on that same button
/// and on no other: the left, middle and right buttons each record it
/// exactly when `b` names them, and the keyboard, the mouse position, the
/// quit and the resize requests stay as they were.
pub proof fn lemma_mouse_event_drives_its_button(i: Input, b: MouseButton, is_down: bool)
    ensures
        ({
            let e = if is_down {
                Event::MouseButtonDown { mouse_btn: b }
            } else {
                Event::MouseButtonUp { mouse_btn: b }
            };
            let r = event_input(i, e);
            &&& b == MouseButton::Left ==> records_press(i.mouse_left, r.mouse_left, is_down)
            &&& b != MouseButton::Left ==> r.mouse_left == i.mouse_left
            &&& b == MouseButton::Middle ==> records_press(i.mouse_middle, r.mouse_middle, is_down)
            &&& b != MouseButton::Middle ==> r.mouse_middle == i.mouse_middle
            &&& b == MouseButton::Right ==> records_press(i.mouse_right, r.mouse_right, is_down)
            &&& b != MouseButton::Right ==> r.mouse_right == i.mouse_right
            &&& r.keyboard == i.keyboard
            &&& r.mouse_x == i.mouse_x && r.mouse_y == i.mouse_y
            &&& r.should_quit == i.should_quit
            &&& r.should_resize == i.should_resize
        }),
{
}

proof fn lemma_press_records(c: Controller, b: ControllerButton, is_down: bool)
    ensures
        records_press(c.button(b), c.spec_press(b, is_down).button(b), is_down),
{
    match b {
        ControllerButton::MoveUp => {},
        ControllerButton::MoveDown => {},
        ControllerButton::MoveLeft => {},
        ControllerButton::MoveRight => {},
        ControllerButton::ActionUp => {},
        ControllerButton::ActionDown => {},
        ControllerButton::ActionLeft => {},
        ControllerButton::ActionRight => {},
        ControllerButton::LeftShoulder => {},
        ControllerButton::RightShoulder => {},
    }
}

/// A key press or release that is not a repeat is recorded on the button
/// the key drives and on no other; escape pressed asks for a quit instead.
/// The mouse and the other requests stay as they were.
pub proof fn lemma_key_event_drives_its_button(i: Input, key: Keycode, is_down: bool)
    requires
        key.0 != KEYCODE_ESCAPE,
    ensures
        ({
            let e = if is_down {
                Event::KeyDown { keycode: Some(key), repeat: false }
            } else {
                Event::KeyUp { keycode: Some(key), repeat: false }
            };
            let r = event_input(i, e);
            &&& forall|c: ControllerButton|
                key_button(key) == Some(c) ==> records_press(
                    i.keyboard.button(c),
                    #[trigger] r.keyboard.button(c),
                    is_down,
                )
            &&& forall|c: ControllerButton|
                key_button(key) != Some(c) ==> #[trigger] r.keyboard.button(c) == i.keyboard.button(c)
            &&& r.mouse_left == i.mouse_left && r.mouse_middle == i.mouse_middle && r.mouse_right
                == i.mouse_right
            &&& r.mouse_x == i.mouse_x && r.mouse_y == i.mouse_y
            &&& r.should_quit == i.should_quit
            &&& r.should_resize == i.should_resize
        }),
{
    let e = if is_down {
        Event::KeyDown { keycode: Some(key), repeat: false }
    } else {
        Event::KeyUp { keycode: Some(key), repeat: false }
    };
    let r = event_input(i, e);
    assert(r.keyboard == i.keyboard.spec_key(key, is_down));
    assert(r.mouse_left == i.mouse_left && r.mouse_middle == i.mouse_middle && r.mouse_right
        == i.mouse_right);
    match key_button(key) {
        Some(b) => {
            assert(r.keyboard == i.keyboard.spec_press(b, is_down));
            lemma_press_touches_one_button(i.keyboard, b, is_down);
            lemma_press_records(i.keyboard, b, is_down);
        },
        None => {
            assert(r.keyboard == i.keyboard);
        },
    }
}

/// Mouse motion moves the mouse to the event's position, and a window size
/// change records the new size; nothing else changes.
pub proof fn lemma_motion_and_resize(i: Input, x: i32, y: i32)
    ensures
        ({
            let m = event_input(i, Event::MouseMotion { x, y });
            &&& m.mouse_x == x && m.mouse_y == y
            &&& m.keyboard == i.keyboard && m.mouse_left == i.mouse_left
            &&& m.mouse_middle == i.mouse_middle && m.mouse_right == i.mouse_right
            &&& m.should_quit == i.should_quit && m.should_resize == i.should_resize
        }),
        ({
            let r = event_input(i, Event::Window { win_event: WindowEvent::SizeChanged(x, y) });
            &&& r.should_resize == Some((x, y))
            &&& r.keyboard == i.keyboard && r.mouse_left == i.mouse_left
            &&& r.mouse_middle == i.mouse_middle && r.mouse_right == i.mouse_right
            &&& r.mouse_x == i.mouse_x && r.mouse_y == i.mouse_y
            &&& r.should_quit == i.should_quit
        }),
        event_reaction(Event::Window { win_event: WindowEvent::SizeChanged(x, y) })
            == EventReaction::Resized(x, y),
{
}

} // verus!
