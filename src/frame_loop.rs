use vstd::prelude::*;
use crate::error::AdapterError;

verus! {

/// Where the program stands: acquiring the device, drawing frames, or at one
/// of its two ends.
#[derive(Clone, Copy, Debug, PartialEq, Eq, Structural)]
pub enum FrameLoop {
    /// The device and the adapter are not there yet.
    Initializing,
    /// Drawing frame number `frame`.
    Rendering { frame: u64 },
    /// A key was pressed: the machine is to be reset.
    Resetting,
    /// Start-up failed with `error`; nothing more can be done.
    Aborted { error: AdapterError },
}

/// What the caller does next.
#[derive(Clone, Copy, Debug, PartialEq, Eq, Structural)]
pub enum Action {
    /// Acquire the video device and build the adapter.
    Acquire,
    /// Draw frame number `frame`, show it, and poll for a key; wait the
    /// frame interval first, unless it is the first frame.
    Render { frame: u64 },
    /// Ask the firmware for a reset.
    Reset,
    /// Give up with `error`.
    Abort { error: AdapterError },
}

/// What the caller reports after carrying out an action.
#[derive(Clone, Copy, Debug, PartialEq, Eq)]
pub enum Event {
    /// The device was acquired and the adapter built.
    Acquired,
    /// The device could not be acquired.
    AcquisitionFailed,
    /// A frame ended: how drawing it went, and whether a key was pressed.
    FrameEnded { result: Result<(), AdapterError>, key_pressed: bool },
}

/// The action that state `s` asks for.
pub open spec fn action_of(s: FrameLoop) -> Action {
    match s {
        FrameLoop::Initializing => Action::Acquire,
        FrameLoop::Rendering { frame } => Action::Render { frame },
        FrameLoop::Resetting => Action::Reset,
        FrameLoop::Aborted { error } => Action::Abort { error },
    }
}

/// The state after state `s` sees event `e`. A key press ends the loop; a
/// device error only costs the frame it struck; any other failure ends the
/// program. An event that does not belong to the state leaves it as it is.
pub open spec fn next_state(s: FrameLoop, e: Event) -> FrameLoop {
    match (s, e) {
        (FrameLoop::Initializing, Event::Acquired) => FrameLoop::Rendering { frame: 0 },
        (FrameLoop::Initializing, Event::AcquisitionFailed) => FrameLoop::Aborted {
            error: AdapterError::DeviceUnavailable,
        },
        (FrameLoop::Rendering { frame }, Event::FrameEnded { result, key_pressed }) => {
            if key_pressed {
                FrameLoop::Resetting
            } else if result matches Err(err) && err != AdapterError::DeviceError {
                FrameLoop::Aborted { error: result->Err_0 }
            } else {
                FrameLoop::Rendering { frame: ((frame + 1) % 0x1_0000_0000_0000_0000) as u64 }
            }
        },
        _ => s,
    }
}

impl FrameLoop {
    /// The loop before anything has been done.
    pub fn new() -> (s: FrameLoop)
        ensures
            s == FrameLoop::Initializing,
    {
        FrameLoop::Initializing
    }

    /// The action this state asks for.
    pub fn action(&self) -> (a: Action)
        ensures
            a == action_of(*self),
    {
        match *self {
            FrameLoop::Initializing => Action::Acquire,
            FrameLoop::Rendering { frame } => Action::Render { frame },
            FrameLoop::Resetting => Action::Reset,
            FrameLoop::Aborted { error } => Action::Abort { error },
        }
    }

    /// Moves on from this state on event `e`, and says what to do next.
    pub fn step(&self, e: Event) -> (r: (FrameLoop, Action))
        ensures
            r.0 == next_state(*self, e),
            r.1 == action_of(r.0),
    {
        let next = match (*self, e) {
            (FrameLoop::Initializing, Event::Acquired) => FrameLoop::Rendering { frame: 0 },
            (FrameLoop::Initializing, Event::AcquisitionFailed) => FrameLoop::Aborted {
                error: AdapterError::DeviceUnavailable,
            },
            (FrameLoop::Rendering { frame }, Event::FrameEnded { result, key_pressed }) => {
                if key_pressed {
                    FrameLoop::Resetting
                } else {
                    match result {
                        Err(err) if err != AdapterError::DeviceError => FrameLoop::Aborted { error: err },
                        _ => FrameLoop::Rendering { frame: frame.wrapping_add(1) },
                    }
                }
            },
            _ => *self,
        };
        (next, next.action())
    }

    /// Whether the loop has reached one of its ends.
    pub fn is_finished(&self) -> (b: bool)
        ensures
            b == (*self is Resetting || *self is Aborted),
    {
        match *self {
            FrameLoop::Resetting | FrameLoop::Aborted { .. } => true,
            _ => false,
        }
    }
}

/// Once the loop has reached one of its ends, no event moves it on.
pub proof fn lemma_ends_are_final(s: FrameLoop, e: Event)
    requires
        s is Resetting || s is Aborted,
    ensures
        next_state(s, e) == s,
{
}

} // verus!
