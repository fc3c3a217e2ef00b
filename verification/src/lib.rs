//! Scribe — dictation for the GNOME desktop.
//!
//! This crate holds the part of Scribe that can be reasoned about without a
//! display: the settings, the spelled-number rewriting, the vocabulary rules,
//! the decisions the config file is opened and saved by, and the rules the
//! desktop-facing code follows when it types, cleans up, downloads and
//! transcribes.

pub mod model;
pub mod text;
pub mod ui;

use vstd::prelude::*;

verus! {

/// The application identifier.
pub const APP_ID: &'static str = "us.hagreli.Scribe";

} // verus!
