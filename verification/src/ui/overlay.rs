//! The small window that appears while you are talking: a level meter and a
//! line of status. The widgets and the meter's drawing belong to the
//! application; what each phase is called and what the status line says at
//! the start of an utterance are decided here.

use vstd::prelude::*;

use crate::model::config::Mode;

verus! {

/// What the overlay is showing.
#[derive(Clone, Copy, Debug, PartialEq, Eq, Structural)]
pub enum Phase {
    Listening,
    Transcribing,
    Polishing,
}

impl Phase {
    /// The overlay's title in this phase.
    pub fn title(self) -> (t: &'static str)
        ensures
            self == Phase::Listening ==> t@ == "Listening"@,
            self == Phase::Transcribing ==> t@ == "Transcribing"@,
            self == Phase::Polishing ==> t@ == "Cleaning up"@,
    {
        match self {
            Phase::Listening => "Listening",
            Phase::Transcribing => "Transcribing",
            Phase::Polishing => "Cleaning up",
        }
    }

    /// Whether the level meter shows: only while listening. In the other
    /// phases a spinner stands in its place.
    pub fn shows_meter(self) -> (b: bool)
        ensures
            b == (self == Phase::Listening),
    {
        self == Phase::Listening
    }
}

/// The line under the title at the start of an utterance: in batch mode how
/// to stop, and in streaming mode a placeholder the live text replaces.
pub fn opening_detail(mode: Mode) -> (t: &'static str)
    ensures
        mode == Mode::Batch ==> t@ == "Press the shortcut again to stop"@,
        mode == Mode::Streaming ==> t@ == "Listening…"@,
{
    match mode {
        Mode::Batch => "Press the shortcut again to stop",
        Mode::Streaming => "Listening…",
    }
}

} // verus!
