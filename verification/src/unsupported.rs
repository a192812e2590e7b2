//! Everything that is neither Windows nor macOS: Linux, for now.
//!
//! Linux needs evdev, or a compositor protocol on Wayland, and which one depends
//! on the session rather than on the distribution. So it reports honestly instead
//! of silently doing nothing: a machine here still pairs, syncs and holds its
//! place in the layout, and says plainly that it cannot take over a keyboard.

use vstd::prelude::*;

use crate::input::InputEvent;
use crate::model::DisplayInfo;

verus! {

/// Why this machine's hardware did not do what it was asked.
#[derive(Debug)]
pub enum InputError {
    /// This platform is not supported yet.
    Unsupported(&'static str),
    /// The operating system refused.
    Os(String),
    /// Input capture is already running.
    AlreadyRunning,
}

pub type InputResult<T> = core::result::Result<T, InputError>;

pub fn enumerate_displays() -> (r: InputResult<Vec<DisplayInfo>>)
    ensures
        r == Err::<Vec<DisplayInfo>, InputError>(InputError::Unsupported("display enumeration")),
{
    Err(InputError::Unsupported("display enumeration"))
}

pub fn inject(_event: InputEvent) -> (r: InputResult<()>)
    ensures
        r == Err::<(), InputError>(InputError::Unsupported("input injection")),
{
    Err(InputError::Unsupported("input injection"))
}

pub fn cursor_position() -> (r: InputResult<(i32, i32)>)
    ensures
        r == Err::<(i32, i32), InputError>(
            InputError::Unsupported("reading the cursor position"),
        ),
{
    Err(InputError::Unsupported("reading the cursor position"))
}

pub fn set_cursor_position(_x: i32, _y: i32) -> (r: InputResult<()>)
    ensures
        r == Err::<(), InputError>(InputError::Unsupported("moving the cursor")),
{
    Err(InputError::Unsupported("moving the cursor"))
}

/// A capture that never runs.
pub struct Capture;

impl Capture {
    pub fn start() -> (r: InputResult<Self>)
        ensures
            r == Err::<Capture, InputError>(InputError::Unsupported("input capture")),
    {
        Err(InputError::Unsupported("input capture"))
    }

    pub fn set_suppressing(&self, _suppress: bool) {
    }

    pub fn is_suppressing(&self) -> (r: bool)
        ensures
            !r,
    {
        false
    }

    pub fn heartbeat(&self) {
    }
}

} // verus!
