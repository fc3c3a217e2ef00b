//! Everything the user can change, and nothing they cannot.

use vstd::prelude::*;

use super::vocabulary::Vocabulary;

verus! {

/// Which speech model runs, which decides what else is possible.
#[derive(Clone, Copy, Debug, PartialEq, Eq, Structural)]
pub enum Mode {
    /// Record first, transcribe once at the end. Most accurate, and the only
    /// mode where the language-model cleanup pass can run, because that pass
    /// needs a finished sentence to work on.
    Batch,
    /// Transcribe while the user is still speaking, a chunk at a time. There
    /// is no finished transcript to clean up until the user stops, so cleanup
    /// is skipped.
    Streaming,
}

impl Default for Mode {
    fn default() -> (m: Self)
        ensures
            m == Mode::Batch,
    {
        Mode::Batch
    }
}

impl Mode {
    /// Whether the cleanup pass can run at all in this mode.
    pub fn allows_cleanup(self) -> (b: bool)
        ensures
            b == (self == Mode::Batch),
    {
        match self {
            Mode::Batch => true,
            Mode::Streaming => false,
        }
    }

    /// The name the config file uses for the mode.
    pub fn as_str(self) -> (s: &'static str)
        ensures
            self == Mode::Batch ==> s@ == "batch"@,
            self == Mode::Streaming ==> s@ == "streaming"@,
    {
        match self {
            Mode::Batch => "batch",
            Mode::Streaming => "streaming",
        }
    }
}

/// How the transcript reaches the window the user is looking at.
#[derive(Clone, Copy, Debug, PartialEq, Eq, Structural)]
pub enum Delivery {
    /// Synthesize the keystrokes. Costs one consent dialog, ever, and then
    /// works in every window including the terminal.
    Type,
    /// Put the transcript on the clipboard and say so. Needs no permission at
    /// all, and is what Scribe falls back to when consent is refused.
    Clipboard,
}

impl Default for Delivery {
    fn default() -> (d: Self)
        ensures
            d == Delivery::Type,
    {
        Delivery::Type
    }
}

/// The address of the language model when nobody says otherwise: the
/// llama-server this machine already runs.
pub fn default_endpoint() -> (s: String)
    ensures
        s@ == "http://127.0.0.1:8080"@,
{
    "http://127.0.0.1:8080".to_owned()
}

/// The default of a switch that starts out on.
pub fn default_true() -> (b: bool)
    ensures
        b,
{
    true
}

#[derive(Clone, Debug, PartialEq, Eq)]
pub struct Config {
    pub mode: Mode,
    pub delivery: Delivery,
    /// The accelerator, in the form GTK and gnome-settings-daemon both parse.
    pub shortcut: String,
    /// Rewrite spoken numbers as digits before delivering the transcript.
    pub spell_numbers: bool,
    /// Run the transcript past the local language model to strip the "um"s.
    pub cleanup: bool,
    pub endpoint: String,
    /// Empty means "whatever the server has loaded", which is the common case
    /// for a single-model llama-server.
    pub cleanup_model: String,
    /// PipeWire target for recording. Empty means the system default.
    pub source: String,
    pub vocabulary: Vocabulary,
}

impl Config {
    /// The settings of a first run.
    pub open spec fn is_default(&self) -> bool {
        &&& self.mode == Mode::Batch
        &&& self.delivery == Delivery::Type
        &&& self.shortcut@ == "<Super><Alt>d"@
        &&& self.spell_numbers
        &&& !self.cleanup
        &&& self.endpoint@ == "http://127.0.0.1:8080"@
        &&& self.cleanup_model@ == Seq::<char>::empty()
        &&& self.source@ == Seq::<char>::empty()
        &&& self.vocabulary@ == Seq::<super::vocabulary::Rule>::empty()
    }

    /// Whether cleanup should actually run, which is not the same as whether
    /// the user asked for it: streaming has nothing finished to clean up.
    pub fn cleanup_runs(&self) -> (b: bool)
        ensures
            b == (self.cleanup && self.mode == Mode::Batch),
    {
        self.cleanup && self.mode.allows_cleanup()
    }
}

impl Default for Config {
    fn default() -> (c: Self)
        ensures
            c.is_default(),
    {
        Self {
            mode: Mode::Batch,
            delivery: Delivery::Type,
            shortcut: "<Super><Alt>d".to_owned(),
            spell_numbers: default_true(),
            cleanup: false,
            endpoint: default_endpoint(),
            cleanup_model: String::new(),
            source: String::new(),
            vocabulary: Vocabulary::default(),
        }
    }
}

} // verus!
