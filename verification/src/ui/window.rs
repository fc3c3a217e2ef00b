//! What the settings window shows.
//!
//! The widgets belong to the application. Which row says what, which choice
//! in a drop-down stands for which setting, and when a control is offered at
//! all, are decided here.

use vstd::prelude::*;

use crate::model::config::{Delivery, Mode};

verus! {

/// The position of a mode in the mode drop-down: "Accurate", then "Live".
pub open spec fn spec_mode_index(mode: Mode) -> u32 {
    match mode {
        Mode::Batch => 0,
        Mode::Streaming => 1,
    }
}

/// The mode a drop-down position stands for: the second is live, anything
/// else is accurate.
pub open spec fn spec_mode_at(index: u32) -> Mode {
    if index == 1 {
        Mode::Streaming
    } else {
        Mode::Batch
    }
}

/// The position of a delivery in its drop-down: typing, then the clipboard.
pub open spec fn spec_delivery_index(delivery: Delivery) -> u32 {
    match delivery {
        Delivery::Type => 0,
        Delivery::Clipboard => 1,
    }
}

/// The delivery a drop-down position stands for.
pub open spec fn spec_delivery_at(index: u32) -> Delivery {
    if index == 1 {
        Delivery::Clipboard
    } else {
        Delivery::Type
    }
}

pub fn mode_index(mode: Mode) -> (i: u32)
    ensures
        i == spec_mode_index(mode),
{
    match mode {
        Mode::Batch => 0,
        Mode::Streaming => 1,
    }
}

pub fn mode_at(index: u32) -> (m: Mode)
    ensures
        m == spec_mode_at(index),
{
    if index == 1 {
        Mode::Streaming
    } else {
        Mode::Batch
    }
}

pub fn delivery_index(delivery: Delivery) -> (i: u32)
    ensures
        i == spec_delivery_index(delivery),
{
    match delivery {
        Delivery::Type => 0,
        Delivery::Clipboard => 1,
    }
}

pub fn delivery_at(index: u32) -> (d: Delivery)
    ensures
        d == spec_delivery_at(index),
{
    if index == 1 {
        Delivery::Clipboard
    } else {
        Delivery::Type
    }
}

/// Showing a setting and reading it back gives the setting: the drop-downs
/// lose nothing on the way through the window.
pub proof fn law_the_window_round_trips_its_choices(mode: Mode, delivery: Delivery)
    ensures
        spec_mode_at(spec_mode_index(mode)) == mode,
        spec_delivery_at(spec_delivery_index(delivery)) == delivery,
{
}

/// The subtitle under the cleanup switch, which is only offered where it can
/// run.
pub fn cleanup_subtitle(mode: Mode) -> (t: &'static str)
    ensures
        mode == Mode::Batch ==> t@
            == "Removes “um” and false starts. Adds a moment before the text appears."@,
        mode == Mode::Streaming ==> t@
            == "Not available in Live mode: there is no finished sentence to tidy."@,
{
    match mode {
        Mode::Batch => "Removes “um” and false starts. Adds a moment before the text appears.",
        Mode::Streaming => "Not available in Live mode: there is no finished sentence to tidy.",
    }
}

/// The name each mode's model goes by.
pub fn model_name(mode: Mode) -> (t: &'static str)
    ensures
        mode == Mode::Batch ==> t@ == "Parakeet TDT 0.6B"@,
        mode == Mode::Streaming ==> t@ == "Nemotron streaming 0.6B"@,
{
    match mode {
        Mode::Batch => "Parakeet TDT 0.6B",
        Mode::Streaming => "Nemotron streaming 0.6B",
    }
}

/// The model button: an installed model can be removed, a missing one
/// downloaded. The flag says whether the button is the destructive kind.
pub fn model_button(installed: bool) -> (b: (&'static str, bool))
    ensures
        installed ==> b.0@ == "Remove"@ && b.1,
        !installed ==> b.0@ == "Download"@ && !b.1,
{
    if installed {
        ("Remove", true)
    } else {
        ("Download", false)
    }
}

/// How the live-preview switch is offered. In Live mode the words always
/// appear, so the switch would control nothing; and it needs the streaming
/// model, so without that it is explained rather than left doing nothing.
pub struct PreviewRow {
    pub sensitive: bool,
    pub subtitle: &'static str,
}

pub fn preview_row(mode: Mode, available: bool) -> (r: PreviewRow)
    ensures
        r.sensitive == (mode == Mode::Batch && available),
        !available ==> r.subtitle@ == "Needs the streaming model, which has not been downloaded"@,
        available && mode == Mode::Batch ==> r.subtitle@ == "Fills the recording window while you talk"@,
        available && mode == Mode::Streaming ==> r.subtitle@ == "Always on in Live mode"@,
{
    let optional = mode == Mode::Batch;
    let subtitle = if !available {
        "Needs the streaming model, which has not been downloaded"
    } else if optional {
        "Fills the recording window while you talk"
    } else {
        "Always on in Live mode"
    };
    PreviewRow { sensitive: optional && available, subtitle }
}

/// How the typing-permission row reads.
pub struct PermissionRow {
    pub subtitle: &'static str,
    pub button: &'static str,
    pub show_button: bool,
    /// Whether the row is marked as an error.
    pub error: bool,
}

/// Say whether Scribe may type into other windows, and by what route: the
/// extension needs no permission; a grant needs nothing more; a refusal is
/// marked and can be asked again; and before either, the user is told GNOME
/// will ask.
pub fn permission_row(granted: bool, refused: bool, via_extension: bool) -> (r: PermissionRow)
    ensures
        via_extension ==> r.subtitle@
            == "Handled by the Scribe shell extension — no permission needed"@ && r.button@
            == "Allow typing"@ && !r.show_button && !r.error,
        !via_extension && granted ==> r.subtitle@
            == "Granted — Scribe can type into the focused window"@ && r.button@ == "Ask again"@
            && !r.show_button && !r.error,
        !via_extension && !granted && refused ==> r.subtitle@
            == "Refused — transcripts are going to the clipboard instead"@ && r.button@
            == "Ask again"@ && r.show_button && r.error,
        !via_extension && !granted && !refused ==> r.subtitle@
            == "GNOME will ask the first time Scribe types somewhere"@ && r.button@
            == "Allow typing"@ && r.show_button && !r.error,
{
    if via_extension {
        PermissionRow {
            subtitle: "Handled by the Scribe shell extension — no permission needed",
            button: "Allow typing",
            show_button: false,
            error: false,
        }
    } else if granted {
        PermissionRow {
            subtitle: "Granted — Scribe can type into the focused window",
            button: "Ask again",
            show_button: false,
            error: false,
        }
    } else if refused {
        PermissionRow {
            subtitle: "Refused — transcripts are going to the clipboard instead",
            button: "Ask again",
            show_button: true,
            error: true,
        }
    } else {
        PermissionRow {
            subtitle: "GNOME will ask the first time Scribe types somewhere",
            button: "Allow typing",
            show_button: true,
            error: false,
        }
    }
}

/// The subtitle under the shortcut row, given the accelerator as a person
/// reads it and whether GNOME has it registered.
pub fn shortcut_subtitle(key: &str, registered: bool) -> (t: String)
    ensures
        registered ==> t@ == key@ + " — press to start, press again to stop"@,
        !registered ==> t@ == key@ + " — not registered with GNOME"@,
{
    if registered {
        key.to_owned().concat(" — press to start, press again to stop")
    } else {
        key.to_owned().concat(" — not registered with GNOME")
    }
}

} // verus!
