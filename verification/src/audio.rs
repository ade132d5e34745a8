//! The audio output selection setting: the one piece of audio configuration
//! the rest of the system consults. When audio is disabled, nothing may call
//! into the sound backend.

use vstd::prelude::*;

verus! {

/// Where sound should go. `Off` exists because the sound backend cannot be
/// started on every system; the game must still function without it.
#[derive(Clone, Copy, Debug, PartialEq, Eq, Structural)]
pub enum AudioOutput {
    Off,
    /// Let the backend pick a device.
    Automatic,
}

impl AudioOutput {
    /// Whether the sound backend may be used at all.
    pub fn is_enabled(&self) -> (r: bool)
        ensures
            r == (*self != AudioOutput::Off),
    {
        match self {
            AudioOutput::Off => false,
            AudioOutput::Automatic => true,
        }
    }
}

} // verus!
