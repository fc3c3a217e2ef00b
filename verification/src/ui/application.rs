//! How a dictation moves from one step to the next.
//!
//! The application drives the recorder, the speech engine, the cleanup pass
//! and the typist; every decision between those steps is made here, from the
//! state it is in and what just happened, and the application performs what
//! the answer asks for. The shortcut is a toggle: press to start, press again
//! to stop.

use vstd::prelude::*;

use crate::model::config::{Config, Delivery, Mode};
use crate::model::numbers::{digits_fit, spec_to_digits};
use crate::model::polish;
use crate::model::vocabulary::spec_apply;
use crate::text::{has_content, is_blank, trim};
use super::engine::EngineError;
use super::recorder::SAMPLE_RATE;

verus! {

/// What Scribe is doing right now.
#[derive(Clone, Copy, Debug, PartialEq, Eq, Structural)]
pub enum Activity {
    Idle,
    Listening,
    Working,
}

/// What a press of the shortcut asks for.
#[derive(Clone, Copy, Debug, PartialEq, Eq, Structural)]
pub enum Press {
    /// Start recording.
    Start,
    /// Stop recording and transcribe what was said.
    Stop,
    /// Nothing.
    Ignore,
}

/// What a command line handed over by a second invocation asks for.
#[derive(Clone, Copy, Debug, PartialEq, Eq, Structural)]
pub enum Command {
    /// Act on the shortcut.
    Press(Press),
    /// Show the settings window.
    Present,
}

/// The shortcut: start when idle, stop when listening. A second press while
/// transcribing is a user who thinks nothing happened; starting another
/// recording on top would lose the one in flight, so it is ignored.
pub open spec fn spec_on_toggle(activity: Activity) -> Press {
    match activity {
        Activity::Idle => Press::Start,
        Activity::Listening => Press::Stop,
        Activity::Working => Press::Ignore,
    }
}

/// What a press of the shortcut does, given what Scribe is doing.
pub fn on_toggle(activity: Activity) -> (p: Press)
    ensures
        p == spec_on_toggle(activity),
{
    match activity {
        Activity::Idle => Press::Start,
        Activity::Listening => Press::Stop,
        Activity::Working => Press::Ignore,
    }
}

/// `--toggle` acts as the shortcut does; `--stop` stops a recording and does
/// nothing otherwise; with neither, the settings window is shown.
pub fn on_command(toggle: bool, stop: bool, activity: Activity) -> (c: Command)
    ensures
        toggle ==> c == Command::Press(spec_on_toggle(activity)),
        !toggle && stop ==> c == Command::Press(
            if activity == Activity::Listening {
                Press::Stop
            } else {
                Press::Ignore
            },
        ),
        !toggle && !stop ==> c == Command::Present,
{
    if toggle {
        Command::Press(on_toggle(activity))
    } else if stop {
        if activity == Activity::Listening {
            Command::Press(Press::Stop)
        } else {
            Command::Press(Press::Ignore)
        }
    } else {
        Command::Present
    }
}

/// The fewest samples worth transcribing: a quarter of a second. Transcribing
/// silence produces a hallucinated sentence often enough to be worth refusing
/// outright.
pub open spec fn too_short(samples: nat) -> bool {
    samples < SAMPLE_RATE / 4
}

/// What to do once recording has stopped.
#[derive(Clone, Copy, Debug, PartialEq, Eq, Structural)]
pub enum Stopped {
    /// There was no recording; nothing to do.
    Nothing,
    /// The streaming model has already said everything it is going to:
    /// deliver what it said.
    DeliverPartial,
    /// Too little was said to be worth transcribing; drop it.
    Discard,
    /// Hand the audio to the batch model.
    Transcribe,
}

/// A dictation, from the first press to the text being handed on.
pub struct Dictation {
    activity: Activity,
}

impl Dictation {
    pub closed spec fn activity_view(&self) -> Activity {
        self.activity
    }

    /// Nothing happening yet.
    pub fn new() -> (d: Self)
        ensures
            d.activity_view() == Activity::Idle,
    {
        Dictation { activity: Activity::Idle }
    }

    pub fn activity(&self) -> (a: Activity)
        ensures
            a == self.activity_view(),
    {
        self.activity
    }

    /// The shortcut was pressed.
    pub fn press(&self) -> (p: Press)
        ensures
            p == spec_on_toggle(self.activity_view()),
    {
        on_toggle(self.activity)
    }

    /// The recorder was asked to start; `started` says whether it did. If it
    /// did not, nothing is listening and the user is told why.
    pub fn recording(&mut self, started: bool)
        ensures
            final(self).activity_view() == if started {
                Activity::Listening
            } else {
                old(self).activity_view()
            },
    {
        if started {
            self.activity = Activity::Listening;
        }
    }

    /// Recording was asked to stop. `had_recorder` says whether one was
    /// running, and `samples` how much audio it gave back.
    pub fn stop(&mut self, had_recorder: bool, mode: Mode, samples: usize) -> (s: Stopped)
        ensures
            !had_recorder ==> s == Stopped::Nothing && final(self).activity_view() == Activity::Idle,
            had_recorder && mode == Mode::Streaming ==> s == Stopped::DeliverPartial
                && final(self).activity_view() == Activity::Working,
            had_recorder && mode == Mode::Batch && too_short(samples as nat) ==> s == Stopped::Discard
                && final(self).activity_view() == Activity::Idle,
            had_recorder && mode == Mode::Batch && !too_short(samples as nat) ==> s
                == Stopped::Transcribe && final(self).activity_view() == Activity::Working,
    {
        if !had_recorder {
            self.activity = Activity::Idle;
            return Stopped::Nothing;
        }
        self.activity = Activity::Working;
        match mode {
            Mode::Streaming => Stopped::DeliverPartial,
            Mode::Batch => {
                if samples < (SAMPLE_RATE / 4) as usize {
                    self.activity = Activity::Idle;
                    Stopped::Discard
                } else {
                    Stopped::Transcribe
                }
            },
        }
    }

    /// The batch model failed: the user is told, and nothing is delivered.
    pub fn transcription_failed(&mut self)
        ensures
            final(self).activity_view() == Activity::Idle,
    {
        self.activity = Activity::Idle;
    }

    /// The text is on its way to the user: ready for the next dictation.
    pub fn finish(&mut self)
        ensures
            final(self).activity_view() == Activity::Idle,
    {
        self.activity = Activity::Idle;
    }
}

/// Whether a transcript goes past the cleanup model: only when cleanup runs
/// for this config and there is something besides whitespace to clean.
pub fn needs_cleanup(config: &Config, text: &str) -> (b: bool)
    ensures
        b == (config.cleanup && config.mode == Mode::Batch && has_content(text@)),
{
    config.cleanup_runs() && !is_blank(text)
}

/// Where a finished transcript goes.
#[derive(Debug, PartialEq, Eq)]
pub enum Handoff {
    /// The rules left nothing to deliver.
    Nothing,
    /// Put it on the clipboard and tell the user to paste.
    Clipboard(String),
    /// Type it into the focused window.
    Type(String),
}

/// The text a transcript becomes once the user's own rules have run.
pub open spec fn finished_text(config: Config, raw: Seq<char>) -> Seq<char> {
    trim(
        spec_apply(
            config.vocabulary@,
            if config.spell_numbers {
                spec_to_digits(raw)
            } else {
                raw
            },
        ),
    )
}

/// Apply the user's own rules and decide where the result goes: nowhere when
/// nothing is left, to the clipboard when the user asked for that or typing
/// is not possible, and otherwise into the focused window.
pub fn handoff(config: &Config, raw: &str, can_type: bool) -> (h: Handoff)
    requires
        config.spell_numbers ==> digits_fit(raw@),
    ensures
        finished_text(*config, raw@).len() == 0 ==> h == Handoff::Nothing,
        finished_text(*config, raw@).len() > 0 && (config.delivery == Delivery::Clipboard
            || !can_type) ==> (h matches Handoff::Clipboard(t) && t@ == finished_text(*config, raw@)),
        finished_text(*config, raw@).len() > 0 && config.delivery == Delivery::Type && can_type
            ==> (h matches Handoff::Type(t) && t@ == finished_text(*config, raw@)),
{
    let text = polish(raw, &config.vocabulary, config.spell_numbers);
    if text.as_str().unicode_len() == 0 {
        return Handoff::Nothing;
    }
    match config.delivery {
        Delivery::Clipboard => Handoff::Clipboard(text),
        Delivery::Type => if can_type {
            Handoff::Type(text)
        } else {
            Handoff::Clipboard(text)
        },
    }
}

/// What to say after copying a transcript the user asked to have copied, or
/// that could not be typed.
pub const COPIED_NOTICE: &'static str = "Copied. Press Ctrl+V to paste.";

/// What to say when the typist fell back to the clipboard.
pub const FELL_BACK_NOTICE: &'static str = "Mynah cannot type into other windows, so the text was copied.";

/// The banner across the settings window: the missing shortcut support comes
/// first, then a config that belongs to a newer version, and otherwise none.
pub fn banner(shortcut_supported: bool, read_only: bool) -> (b: Option<&'static str>)
    ensures
        !shortcut_supported ==> (b matches Some(t) && t@ == "This desktop does not provide GNOME's custom shortcuts. Bind a key to “mynah --toggle” yourself."@),
        shortcut_supported && read_only ==> (b matches Some(t) && t@ == "These settings were written by a newer Mynah and will not be saved over."@),
        shortcut_supported && !read_only ==> b is None,
{
    if !shortcut_supported {
        Some("This desktop does not provide GNOME's custom shortcuts. Bind a key to “mynah --toggle” yourself.")
    } else if read_only {
        Some("These settings were written by a newer Mynah and will not be saved over.")
    } else {
        None
    }
}

/// The keysyms of the keys held down alongside another: the shifts, controls,
/// alts, supers, metas and hypers of both hands, the locks, and the ISO level
/// shifts.
pub open spec fn spec_is_modifier_key(keyval: u32) -> bool {
    ||| 0xffe1 <= keyval <= 0xffee
    ||| keyval == 0xff7f
    ||| keyval == 0xfe03
    ||| keyval == 0xfe11
}

/// Whether a key is one of those held down alongside another.
///
/// Every keypress in the capture dialog arrives here, including the Ctrl that
/// begins "Ctrl+Alt+D". Treating one of those as the shortcut itself would
/// bind the modifier alone.
pub fn is_modifier_key(keyval: u32) -> (b: bool)
    ensures
        b == spec_is_modifier_key(keyval),
{
    (0xffe1 <= keyval && keyval <= 0xffee) || keyval == 0xff7f || keyval == 0xfe03 || keyval
        == 0xfe11
}

/// What a keypress in the capture dialog means.
#[derive(Clone, Copy, Debug, PartialEq, Eq, Structural)]
pub enum Capture {
    /// A bare modifier: the user is still reaching for the key.
    Wait,
    /// A key with no modifier, which would swallow that key for the whole
    /// desktop: ask for one.
    NeedModifier,
    /// A key with modifiers: this is the shortcut.
    Accept,
}

/// Judge a keypress in the capture dialog.
pub fn capture(keyval: u32, has_modifiers: bool) -> (c: Capture)
    ensures
        spec_is_modifier_key(keyval) ==> c == Capture::Wait,
        !spec_is_modifier_key(keyval) && !has_modifiers ==> c == Capture::NeedModifier,
        !spec_is_modifier_key(keyval) && has_modifiers ==> c == Capture::Accept,
{
    if is_modifier_key(keyval) {
        Capture::Wait
    } else if !has_modifiers {
        Capture::NeedModifier
    } else {
        Capture::Accept
    }
}

/// The streaming model's input, cut into whole chunks of `size` samples in
/// the order they arrived; what is left over waits for more audio.
pub fn take_chunks<T: Copy>(pending: &mut Vec<T>, size: usize) -> (chunks: Vec<Vec<T>>)
    requires
        size > 0,
    ensures
        chunks@.len() == old(pending)@.len() as int / (size as int),
        forall|c: int|
            0 <= c < chunks@.len() ==> #[trigger] chunks@[c]@ == old(pending)@.subrange(
                c * size,
                (c + 1) * size,
            ),
        final(pending)@ == old(pending)@.skip(chunks@.len() * size),
{
    let ghost before = pending@;
    let n = pending.len();
    let mut chunks: Vec<Vec<T>> = Vec::new();
    let mut start: usize = 0;
    assert(0 * size == 0) by (nonlinear_arith);
    while n - start >= size
        invariant
            size > 0,
            n == before.len(),
            pending@ == before,
            start <= n,
            start == chunks@.len() * size,
            forall|c: int|
                0 <= c < chunks@.len() ==> #[trigger] chunks@[c]@ == before.subrange(
                    c * size,
                    (c + 1) * size,
                ),
        decreases n - start,
    {
        let mut chunk: Vec<T> = Vec::new();
        let mut i: usize = start;
        while i < start + size
            invariant
                n == before.len(),
                pending@ == before,
                start + size <= n,
                start <= i <= start + size,
                chunk@ == before.subrange(start as int, i as int),
            decreases start + size - i,
        {
            chunk.push(pending[i]);
            assert(before.subrange(start as int, i as int).push(before[i as int]) =~= before.subrange(
                start as int,
                i + 1,
            ));
            i += 1;
        }
        proof {
            assert((chunks@.len() + 1) * size == chunks@.len() * size + size) by (nonlinear_arith);
        }
        chunks.push(chunk);
        start = start + size;
    }
    let mut rest: Vec<T> = Vec::new();
    let mut i: usize = start;
    while i < n
        invariant
            n == before.len(),
            pending@ == before,
            start <= i <= n,
            rest@ == before.subrange(start as int, i as int),
        decreases n - i,
    {
        rest.push(pending[i]);
        assert(before.subrange(start as int, i as int).push(before[i as int]) =~= before.subrange(
            start as int,
            i + 1,
        ));
        i += 1;
    }
    proof {
        let k = chunks@.len();
        assert(n - start < size);
        assert(n as int / (size as int) == k as int) by (nonlinear_arith)
            requires
                start == k * size,
                start <= n,
                n - start < size,
                size > 0,
        ;
    }
    *pending = rest;
    assert(pending@ =~= before.skip(start as int));
    chunks
}

/// What to tell a user who pressed the shortcut before the model for their
/// mode was downloaded.
pub fn not_installed_notice(mode: Mode) -> (t: String)
    ensures
        mode == Mode::Batch ==> t@ == "The speech model has not been downloaded yet."@
            + " Open Mynah to download it."@,
        mode == Mode::Streaming ==> t@ == "The streaming speech model has not been downloaded yet."@
            + " Open Mynah to download it."@,
{
    EngineError::NotInstalled(mode).message().concat(" Open Mynah to download it.")
}

/// What to tell the user once a new shortcut is registered, given the
/// accelerator as a person reads it.
pub fn shortcut_set_notice(label: &str) -> (t: String)
    ensures
        t@ == label@ + " now starts dictation."@,
{
    label.to_owned().concat(" now starts dictation.")
}

/// Every key held down alongside another is a modifier, so pressing it in
/// the capture dialog waits for the real key: Shift, Control, Caps Lock,
/// Shift Lock, Meta, Alt, Super and Hyper on either hand, Num Lock, and the
/// ISO level 3 and level 5 shifts, by their keysyms. Nothing below the
/// function-key block (letters, digits, Latin-1) is a modifier.
pub proof fn law_every_modifier_key_waits(keyval: u32)
    ensures
        keyval == 0xffe1 || keyval == 0xffe2 || keyval == 0xffe3 || keyval == 0xffe4 || keyval
            == 0xffe5 || keyval == 0xffe6 || keyval == 0xffe7 || keyval == 0xffe8 || keyval
            == 0xffe9 || keyval == 0xffea || keyval == 0xffeb || keyval == 0xffec || keyval
            == 0xffed || keyval == 0xffee || keyval == 0xff7f || keyval == 0xfe03 || keyval
            == 0xfe11 ==> spec_is_modifier_key(keyval),
        keyval < 0xfe00 ==> !spec_is_modifier_key(keyval),
{
}

} // verus!
