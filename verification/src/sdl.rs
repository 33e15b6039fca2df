//! The client's SDL state as plain values: the window size, the audio format
//! asked for, the joystick count and which controller slots hold an open
//! controller.
use vstd::prelude::*;

verus! {

/// The number of controller slots.
pub const MAX_CONTROLLERS: usize = 4;

/// An error reported by SDL, with its message.
#[derive(Clone, Debug, PartialEq, Eq)]
pub enum Error {
    Sdl(String),
}

/// The audio format the client asks SDL for.
#[derive(Clone, Copy, Debug, PartialEq, Eq, Structural)]
pub struct AudioSpecDesired {
    pub freq: Option<i32>,
    pub channels: Option<u8>,
    pub samples: Option<u16>,
}

/// The plain state of the client's SDL layer.
#[derive(Clone, Debug)]
pub struct Sdl {
    pub window_width: u32,
    pub window_height: u32,
    pub audio_spec: AudioSpecDesired,
    /// Slot `i` is `true` while it holds the controller opened from device `i`.
    pub controllers: Vec<bool>,
    pub controller_count: u32,
    pub do_debug_output: bool,
}

/// The slot a controller device index fills: devices `1` to
/// `MAX_CONTROLLERS - 1` fill the slot of their own index; device `0` and
/// larger indices fill none.
pub open spec fn controller_slot(index: int) -> Option<int> {
    if 0 < index < MAX_CONTROLLERS {
        Some(index)
    } else {
        None
    }
}

/// The slot states after the slot of `index` (if any) is set to `open`.
pub open spec fn slots_after(slots: Seq<bool>, index: int, open: bool) -> Seq<bool> {
    match controller_slot(index) {
        Some(s) => slots.update(s, open),
        None => slots,
    }
}

/// The device indices reported when the joystick count changes to `n`: `1`
/// up to, not including, the smaller of `n` and `MAX_CONTROLLERS`.
pub open spec fn reported_indices(n: int) -> Seq<u32> {
    let max = min_count(n);
    if max <= 1 {
        Seq::empty()
    } else {
        Seq::new((max - 1) as nat, |i: int| (i + 1) as u32)
    }
}

pub open spec fn min_count(n: int) -> int {
    if n < MAX_CONTROLLERS {
        n
    } else {
        MAX_CONTROLLERS as int
    }
}

/// The slot that device `index` of an added controller fills, if any.
pub fn added_controller_slot(index: u32) -> (r: Option<usize>)
    ensures
        r matches Some(s) ==> controller_slot(index as int) == Some(s as int),
        r is None ==> controller_slot(index as int) is None,
{
    if index < MAX_CONTROLLERS as u32 && index > 0 {
        Some(index as usize)
    } else {
        None
    }
}

/// The slot that device `index` of a removed controller empties, if any.
pub fn removed_controller_slot(index: i32) -> (r: Option<usize>)
    ensures
        r matches Some(s) ==> controller_slot(index as int) == Some(s as int),
        r is None ==> controller_slot(index as int) is None,
{
    if index < MAX_CONTROLLERS as i32 && index > 0 {
        Some(index as usize)
    } else {
        None
    }
}

impl Sdl {
    /// `MAX_CONTROLLERS` slots.
    pub open spec fn wf(&self) -> bool {
        self.controllers@.len() == MAX_CONTROLLERS
    }

    /// The state of a freshly opened client of the given window size: no
    /// joysticks counted, every slot empty, debug output on, and a request
    /// for stereo audio at 44100 Hz with buffers of 4 samples.
    pub fn new(width: u32, height: u32) -> (s: Sdl)
        ensures
            s.wf(),
            s.window_width == width,
            s.window_height == height,
            s.audio_spec == (AudioSpecDesired {
                freq: Some(44100),
                channels: Some(2),
                samples: Some(4),
            }),
            forall|i: int| 0 <= i < MAX_CONTROLLERS ==> !s.controllers@[i],
            s.controller_count == 0,
            s.do_debug_output,
    {
        let mut controllers: Vec<bool> = Vec::new();
        let mut i: usize = 0;
        while i < MAX_CONTROLLERS
            invariant
                i <= MAX_CONTROLLERS,
                controllers@.len() == i,
                forall|k: int| 0 <= k < i ==> !controllers@[k],
            decreases MAX_CONTROLLERS - i,
        {
            controllers.push(false);
            i = i + 1;
        }
        Sdl {
            window_width: width,
            window_height: height,
            audio_spec: AudioSpecDesired { freq: Some(44100), channels: Some(2), samples: Some(4) },
            controllers,
            controller_count: 0,
            do_debug_output: true,
        }
    }

    /// Takes note of the number of joysticks SDL reports. When it differs
    /// from the count on record, the count is updated and the device indices
    /// to report are returned (see `reported_indices`); otherwise nothing
    /// changes and nothing is reported.
    pub fn init_game_controllers(&mut self, num_joysticks: u32) -> (reported: Vec<u32>)
        ensures
            old(self).controller_count != num_joysticks ==> reported@ == reported_indices(
                num_joysticks as int,
            ),
            old(self).controller_count == num_joysticks ==> reported@.len() == 0,
            final(self).controller_count == num_joysticks,
            final(self).controllers@ == old(self).controllers@,
            final(self).window_width == old(self).window_width,
            final(self).window_height == old(self).window_height,
            final(self).audio_spec == old(self).audio_spec,
            final(self).do_debug_output == old(self).do_debug_output,
    {
        let mut reported: Vec<u32> = Vec::new();
        if self.controller_count != num_joysticks {
            let max: u32 = MAX_CONTROLLERS as u32;
            let max: u32 = if num_joysticks < max {
                num_joysticks
            } else {
                max
            };
            let mut index: u32 = 1;
            while index < max
                invariant
                    1 <= index,
                    max <= MAX_CONTROLLERS,
                    max == min_count(num_joysticks as int),
                    index <= max || (index == 1 && max == 0),
                    reported@ =~= Seq::new((index - 1) as nat, |i: int| (i + 1) as u32),
                decreases max - index,
            {
                reported.push(index);
                index = index + 1;
            }
            self.controller_count = num_joysticks;
        }
        reported
    }

    /// Records in its slot the controller opened from device `index`:
    /// `opened` is what opening the device gave. For a device without a slot
    /// (see `controller_slot`) nothing changes and `Ok` is returned; for one
    /// with a slot an error of opening is returned unchanged and leaves the
    /// slots as they were, and a success marks the slot.
    pub fn add_game_controller(&mut self, index: u32, opened: Result<(), Error>) -> (r: Result<
        (),
        Error,
    >)
        requires
            old(self).wf(),
        ensures
            controller_slot(index as int) is None ==> r is Ok && final(self).controllers@
                == old(self).controllers@,
            controller_slot(index as int) is Some && opened is Err ==> r == opened
                && final(self).controllers@ == old(self).controllers@,
            controller_slot(index as int) is Some && opened is Ok ==> r is Ok
                && final(self).controllers@ == slots_after(old(self).controllers@, index as int, true),
            final(self).controller_count == old(self).controller_count,
            final(self).window_width == old(self).window_width,
            final(self).window_height == old(self).window_height,
            final(self).audio_spec == old(self).audio_spec,
            final(self).do_debug_output == old(self).do_debug_output,
            final(self).wf(),
    {
        match added_controller_slot(index) {
            Some(slot) => {
                match opened {
                    Err(e) => Err(e),
                    Ok(()) => {
                        self.controllers.set(slot, true);
                        Ok(())
                    },
                }
            },
            None => Ok(()),
        }
    }

    /// Empties the slot of device `index`, if it has one; always succeeds.
    pub fn remove_game_controller(&mut self, index: i32) -> (r: Result<(), Error>)
        requires
            old(self).wf(),
        ensures
            r is Ok,
            final(self).controllers@ == slots_after(old(self).controllers@, index as int, false),
            final(self).wf(),
            final(self).controller_count == old(self).controller_count,
            final(self).window_width == old(self).window_width,
            final(self).window_height == old(self).window_height,
            final(self).audio_spec == old(self).audio_spec,
            final(self).do_debug_output == old(self).do_debug_output,
    {
        match removed_controller_slot(index) {
            Some(slot) => {
                self.controllers.set(slot, false);
            },
            None => {},
        }
        Ok(())
    }
}

/// Slot `0` never receives a controller: adding device `0` leaves every slot
/// as it was.
pub proof fn lemma_slot_zero_never_filled(slots: Seq<bool>, open: bool)
    ensures
        slots_after(slots, 0, open) == slots,
{
}

/// Removing a device that was just added leaves the slots as they were
/// before the addition, when its slot was empty then.
pub proof fn lemma_add_then_remove(slots: Seq<bool>, index: int)
    requires
        slots.len() == MAX_CONTROLLERS,
        controller_slot(index) matches Some(s) ==> !slots[s],
    ensures
        slots_after(slots_after(slots, index, true), index, false) == slots,
{
    assert(slots_after(slots_after(slots, index, true), index, false) =~= slots);
}

/// Removing a device twice is the same as removing it once.
pub proof fn lemma_remove_idempotent(slots: Seq<bool>, index: int)
    requires
        slots.len() == MAX_CONTROLLERS,
    ensures
        slots_after(slots_after(slots, index, false), index, false) == slots_after(
            slots,
            index,
            false,
        ),
{
    assert(slots_after(slots_after(slots, index, false), index, false) =~= slots_after(
        slots,
        index,
        false,
    ));
}

/// At most `MAX_CONTROLLERS - 1` devices are ever reported.
pub proof fn lemma_reported_indices_bounded(n: int)
    ensures
        reported_indices(n).len() < MAX_CONTROLLERS,
        forall|i: int|
            0 <= i < reported_indices(n).len() ==> 1 <= #[trigger] reported_indices(n)[i]
                < MAX_CONTROLLERS,
{
}

} // verus!
