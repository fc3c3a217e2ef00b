//! The companion GNOME Shell extension.
//!
//! Typing into somebody else's window needs code running inside the
//! compositor, and the extension is that code. This is the client half: the
//! names it is reached by, the protocol version the two agree on, and what a
//! version reply means. The D-Bus calls belong to the application.

use vstd::prelude::*;

use crate::text::{decimal, push_decimal, string_from_chars};

verus! {

pub const BUS_NAME: &'static str = "us.hagreli.Scribe.Shell";

pub const OBJECT_PATH: &'static str = "/us/hagreli/Scribe/Shell";

pub const INTERFACE: &'static str = "us.hagreli.Scribe.Shell";

/// Bumped together with the extension's own.
pub const PROTOCOL_VERSION: u32 = 1;

/// The extension's uuid, for telling the user what to enable.
pub const UUID: &'static str = "scribe@hagreli.us";

/// Why the extension could not take the text.
#[derive(Debug, PartialEq, Eq)]
pub enum ShellError {
    /// Nothing owns the extension's bus name.
    NotRunning,
    /// The extension is older or newer than this build of Scribe.
    Mismatched { found: u32 },
    /// The extension refused the call; the detail is the bus's own.
    Call(String),
}

impl ShellError {
    /// What to tell the user.
    pub fn message(&self) -> (m: String)
        ensures
            match self {
                ShellError::NotRunning => m@ == "The Scribe shell extension is not running. Enable it with “gnome-extensions enable "@
                    + UUID@ + "”."@,
                ShellError::Mismatched { found } => m@ == "The Scribe shell extension speaks version "@
                    + decimal(*found as nat) + ", but this Scribe speaks version "@ + decimal(
                    PROTOCOL_VERSION as nat,
                ) + ". Reinstall so the two match."@,
                ShellError::Call(e) => m@ == "The shell extension refused to insert the text: "@ + e@,
            },
    {
        match self {
            ShellError::NotRunning => "The Scribe shell extension is not running. Enable it with “gnome-extensions enable ".to_owned().concat(
                UUID,
            ).concat("”."),
            ShellError::Mismatched { found } => {
                let mut found_digits: Vec<char> = Vec::new();
                push_decimal(&mut found_digits, *found as u64);
                let mut ours: Vec<char> = Vec::new();
                push_decimal(&mut ours, PROTOCOL_VERSION as u64);
                "The Scribe shell extension speaks version ".to_owned().concat(
                    string_from_chars(&found_digits).as_str(),
                ).concat(", but this Scribe speaks version ").concat(
                    string_from_chars(&ours).as_str(),
                ).concat(". Reinstall so the two match.")
            },
            ShellError::Call(e) => "The shell extension refused to insert the text: ".to_owned().concat(
                e.as_str(),
            ),
        }
    }
}

/// What a `ProtocolVersion` reply means: no reply is an extension that is
/// not running, and a version other than ours is a mismatch.
pub fn check_version(reply: Option<u32>) -> (r: Result<(), ShellError>)
    ensures
        reply is None ==> r == Err::<(), ShellError>(ShellError::NotRunning),
        reply == Some(PROTOCOL_VERSION) ==> r is Ok,
        forall|v: u32|
            reply == Some(v) && v != PROTOCOL_VERSION ==> r == Err::<(), ShellError>(
                ShellError::Mismatched { found: v },
            ),
{
    match reply {
        None => Err(ShellError::NotRunning),
        Some(found) => if found == PROTOCOL_VERSION {
            Ok(())
        } else {
            Err(ShellError::Mismatched { found })
        },
    }
}

/// Whether the extension is loaded and speaks our version. Checked per
/// dictation rather than cached: an extension can be enabled or disabled at
/// any moment.
pub fn is_available(reply: Option<u32>) -> (b: bool)
    ensures
        b == (reply == Some(PROTOCOL_VERSION)),
{
    match reply {
        Some(found) => found == PROTOCOL_VERSION,
        None => false,
    }
}

} // verus!
