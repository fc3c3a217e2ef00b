//! Getting the transcript into somebody else's window.
//!
//! Wayland gives a client no way to type into a window it does not own. The
//! companion shell extension can, from inside the compositor, and is tried
//! first. Otherwise the RemoteDesktop portal is used: one consent dialog,
//! then a session that GNOME may close on its own schedule. When neither can
//! type, the transcript goes to the clipboard, the floor this app will not
//! drop below.
//!
//! The portal session is a small state machine, kept here. The application
//! performs the D-Bus calls it asks for and reports back what happened.

use vstd::prelude::*;

use crate::text::{chars_of, has_content, lemma_trim_empty, string_from_chars, trim, trim_chars};

verus! {

/// The keysym for a character, as the portal's `NotifyKeyboardKeysym` takes it.
pub open spec fn spec_keysym(ch: char) -> u32 {
    if ch == '\n' || ch == '\r' {
        0xff0d
    } else if ch == '\t' {
        0xff09
    } else if ch == '\u{8}' {
        0xff08
    } else if (ch as u32) < 0x100 {
        ch as u32
    } else {
        (0x0100_0000 + ch as u32) as u32
    }
}

/// The keysym for a character.
///
/// Latin-1 maps onto keysyms one for one; everything above it uses the
/// Unicode range the X11 keysym registry set aside for exactly this. Going
/// through keysyms rather than keycodes is what makes this
/// layout-independent.
pub fn keysym_for(ch: char) -> (k: u32)
    ensures
        k == spec_keysym(ch),
{
    if ch == '\n' || ch == '\r' {
        0xff0d
    } else if ch == '\t' {
        0xff09
    } else if ch == '\u{8}' {
        0xff08
    } else if (ch as u32) < 0x100 {
        ch as u32
    } else {
        0x0100_0000 + ch as u32
    }
}

/// What became of an attempt to deliver a transcript.
#[derive(Clone, Copy, Debug, PartialEq, Eq, Structural)]
pub enum Delivered {
    /// Typed into the focused window.
    Typed,
    /// Put on the clipboard, because that is what the user asked for or the
    /// only thing left after consent was refused.
    Copied,
}

/// Where the portal session stands.
#[derive(Clone, Copy, Debug, PartialEq, Eq, Structural)]
pub enum SessionState {
    Idle,
    Starting,
    Ready,
    /// Consent was refused. Not retried for the rest of the run unless the
    /// user asks: asking again on every utterance would be its own kind of
    /// broken.
    Refused,
}

/// A transcript waiting on the portal. `ticket` is how the caller finds the
/// one waiting to be told what became of it.
pub struct Queued {
    pub ticket: u64,
    pub text: String,
    /// How many sessions this text has already been tried against. A closed
    /// session earns one retry; a second failure means something else is
    /// wrong and the clipboard is the honest answer.
    pub attempts: u8,
}

/// What to do first with a transcript.
#[derive(Debug, PartialEq, Eq)]
pub enum Opening {
    /// Nothing to type: report it typed.
    Done,
    /// No bus to reach anything over: copy it.
    Copy,
    /// Offer it to the shell extension, then to the portal.
    TryExtension,
}

/// What to do with a transcript the extension did not take.
#[derive(Debug, PartialEq, Eq)]
pub enum Route {
    /// Type it through the portal session with this handle.
    TypeNow(String),
    /// Copy it to the clipboard and report it copied.
    Copy,
    /// It is queued; the session is already being opened.
    Queued,
    /// It is queued; open the session now.
    QueuedAndStart,
}

/// What to do about a transcript that failed to type on a fresh session.
#[derive(Debug, PartialEq, Eq)]
pub enum Retry {
    /// It is queued again; open the session now if `start` is set.
    Again { start: bool },
    /// Copy it to the clipboard and report it copied.
    Copy,
}


/// What to do first with a transcript: nothing when it is empty, copy it when
/// there is no bus to reach anything over, and otherwise offer it to the
/// shell extension before the portal.
pub fn opening(text: &str, connected: bool) -> (o: Opening)
    ensures
        text@.len() == 0 ==> o == Opening::Done,
        text@.len() > 0 && !connected ==> o == Opening::Copy,
        text@.len() > 0 && connected ==> o == Opening::TryExtension,
{
    if text.is_empty() {
        Opening::Done
    } else if !connected {
        Opening::Copy
    } else {
        Opening::TryExtension
    }
}

/// The portal session and the transcripts waiting on it.
pub struct Typing {
    state: SessionState,
    session: Option<String>,
    pending: Vec<Queued>,
}

pub open spec fn queued_view(q: Queued) -> (u64, Seq<char>, u8) {
    (q.ticket, q.text@, q.attempts)
}

impl Typing {
    pub closed spec fn state_view(&self) -> SessionState {
        self.state
    }

    pub closed spec fn session_view(&self) -> Option<Seq<char>> {
        match self.session {
            Some(s) => Some(s@),
            None => None,
        }
    }

    /// The waiting transcripts, oldest first, as (ticket, text, attempts).
    pub closed spec fn pending_view(&self) -> Seq<(u64, Seq<char>, u8)> {
        self.pending@.map_values(|q: Queued| queued_view(q))
    }

    pub fn new() -> (t: Self)
        ensures
            t.state_view() == SessionState::Idle,
            t.session_view() is None,
            t.pending_view().len() == 0,
    {
        let t = Self { state: SessionState::Idle, session: None, pending: Vec::new() };
        assert(t.pending_view() =~= Seq::<(u64, Seq<char>, u8)>::empty());
        t
    }

    pub fn state(&self) -> (s: SessionState)
        ensures
            s == self.state_view(),
    {
        self.state
    }

    /// Whether typing is still worth attempting.
    pub fn is_available(&self, connected: bool) -> (b: bool)
        ensures
            b == (connected && self.state_view() != SessionState::Refused),
    {
        connected && self.state != SessionState::Refused
    }

    /// Whether permission has actually been granted, rather than merely not
    /// refused yet. The extension needs none.
    pub fn is_ready(&self, via_extension: bool) -> (b: bool)
        ensures
            b == (self.state_view() == SessionState::Ready || via_extension),
    {
        self.state == SessionState::Ready || via_extension
    }

    /// Whether the user has turned Scribe down this run.
    pub fn was_refused(&self) -> (b: bool)
        ensures
            b == (self.state_view() == SessionState::Refused),
    {
        self.state == SessionState::Refused
    }

    /// The handle of the open session, if any.
    pub fn session(&self) -> (s: Option<&str>)
        ensures
            match (s, self.session_view()) {
                (Some(a), Some(b)) => a@ == b,
                (None, None) => true,
                _ => false,
            },
    {
        match &self.session {
            Some(h) => Some(h.as_str()),
            None => None,
        }
    }

    /// Let a refusal be reconsidered, so the settings window can offer a way
    /// back without restarting Scribe.
    pub fn allow_retry(&mut self)
        ensures
            final(self).state_view() == if old(self).state_view() == SessionState::Refused {
                SessionState::Idle
            } else {
                old(self).state_view()
            },
            final(self).session_view() == old(self).session_view(),
            final(self).pending_view() == old(self).pending_view(),
    {
        if self.state == SessionState::Refused {
            self.state = SessionState::Idle;
        }
    }

    /// Whether to open the session now: only when none is open or opening,
    /// the user has not refused, the extension cannot do the job instead, and
    /// there is a bus to open it on.
    pub fn should_open(&self, via_extension: bool, connected: bool) -> (b: bool)
        ensures
            b == (self.state_view() == SessionState::Idle && !via_extension && connected),
    {
        self.state == SessionState::Idle && !via_extension && connected
    }

    /// Begin opening the session. Only an idle session starts; the answer
    /// says whether the caller should go on to ask the portal.
    pub fn start(&mut self) -> (go: bool)
        ensures
            go == (old(self).state_view() == SessionState::Idle),
            final(self).state_view() == if go {
                SessionState::Starting
            } else {
                old(self).state_view()
            },
            final(self).session_view() == old(self).session_view(),
            final(self).pending_view() == old(self).pending_view(),
    {
        if self.state != SessionState::Idle {
            return false;
        }
        self.state = SessionState::Starting;
        true
    }

    fn enqueue(&mut self, ticket: u64, text: String, attempts: u8)
        ensures
            final(self).state_view() == old(self).state_view(),
            final(self).session_view() == old(self).session_view(),
            final(self).pending_view() == old(self).pending_view().push((ticket, text@, attempts)),
    {
        let ghost before = self.pending@;
        self.pending.push(Queued { ticket, text, attempts });
        assert(self.pending@.map_values(|q: Queued| queued_view(q)) =~= before.map_values(
            |q: Queued| queued_view(q),
        ).push((ticket, text@, attempts)));
    }

    /// Decide what to do with a transcript the extension did not take.
    ///
    /// With a session up it is typed now. After a refusal, or with no
    /// session handle, it is copied. Otherwise it waits for the session, so
    /// the first dictation is not lost to the consent dialog, and whether it
    /// ends up typed or copied is not reported until the user has answered.
    pub fn route(&mut self, ticket: u64, text: String) -> (r: Route)
        ensures
            final(self).state_view() == old(self).state_view(),
            final(self).session_view() == old(self).session_view(),
            match old(self).state_view() {
                SessionState::Ready => match old(self).session_view() {
                    Some(h) => r matches Route::TypeNow(s) && s@ == h && final(self).pending_view()
                        == old(self).pending_view(),
                    None => r == Route::Copy && final(self).pending_view() == old(self).pending_view(),
                },
                SessionState::Refused => r == Route::Copy && final(self).pending_view() == old(
                    self,
                ).pending_view(),
                SessionState::Starting => r == Route::Queued && final(self).pending_view() == old(
                    self,
                ).pending_view().push((ticket, text@, 0)),
                SessionState::Idle => r == Route::QueuedAndStart && final(self).pending_view()
                    == old(self).pending_view().push((ticket, text@, 0)),
            },
    {
        match self.state {
            SessionState::Ready => match &self.session {
                Some(h) => Route::TypeNow(h.clone()),
                None => Route::Copy,
            },
            SessionState::Refused => Route::Copy,
            SessionState::Starting => {
                self.enqueue(ticket, text, 0);
                Route::Queued
            },
            SessionState::Idle => {
                self.enqueue(ticket, text, 0);
                Route::QueuedAndStart
            },
        }
    }

    /// The session handle is no longer good. Ask for another one next time
    /// rather than failing every dictation from here on.
    pub fn invalidate(&mut self)
        ensures
            final(self).session_view() is None,
            final(self).state_view() == if old(self).state_view() == SessionState::Ready {
                SessionState::Idle
            } else {
                old(self).state_view()
            },
            final(self).pending_view() == old(self).pending_view(),
    {
        self.session = None;
        if self.state == SessionState::Ready {
            self.state = SessionState::Idle;
        }
    }

    /// Typing into a session that worked before failed: GNOME closed it. The
    /// handle is dropped and the transcript waits, with one attempt counted,
    /// for a fresh session, which the caller then starts.
    pub fn type_failed(&mut self, ticket: u64, text: String)
        ensures
            final(self).session_view() is None,
            final(self).state_view() == if old(self).state_view() == SessionState::Ready {
                SessionState::Idle
            } else {
                old(self).state_view()
            },
            final(self).pending_view() == old(self).pending_view().push((ticket, text@, 1)),
    {
        self.invalidate();
        self.enqueue(ticket, text, 1);
    }

    /// The portal created a session with this handle.
    pub fn session_created(&mut self, handle: String)
        ensures
            final(self).session_view() == Some(handle@),
            final(self).state_view() == old(self).state_view(),
            final(self).pending_view() == old(self).pending_view(),
    {
        self.session = Some(handle);
    }

    /// The session started: typing may begin.
    pub fn started(&mut self)
        ensures
            final(self).state_view() == SessionState::Ready,
            final(self).session_view() == old(self).session_view(),
            final(self).pending_view() == old(self).pending_view(),
    {
        self.state = SessionState::Ready;
    }

    /// Take everything waiting, oldest first.
    pub fn take_pending(&mut self) -> (taken: Vec<Queued>)
        ensures
            taken@.map_values(|q: Queued| queued_view(q)) == old(self).pending_view(),
            final(self).pending_view().len() == 0,
            final(self).state_view() == old(self).state_view(),
            final(self).session_view() == old(self).session_view(),
    {
        let mut taken: Vec<Queued> = Vec::new();
        std::mem::swap(&mut taken, &mut self.pending);
        assert(self.pending_view() =~= Seq::<(u64, Seq<char>, u8)>::empty());
        taken
    }

    /// Consent was refused or the session died. Everything queued is handed
    /// back to go to the clipboard, and typing is not tried again this run.
    pub fn give_up(&mut self) -> (taken: Vec<Queued>)
        ensures
            final(self).state_view() == SessionState::Refused,
            final(self).session_view() is None,
            final(self).pending_view().len() == 0,
            taken@.map_values(|q: Queued| queued_view(q)) == old(self).pending_view(),
    {
        self.state = SessionState::Refused;
        self.session = None;
        self.take_pending()
    }

    /// A queued transcript failed to type on a freshly started session. The
    /// first such failure earns one retry on a new session; after that the
    /// clipboard is the honest answer.
    pub fn retry(&mut self, queued: Queued) -> (r: Retry)
        ensures
            queued.attempts < 1 ==> {
                &&& final(self).session_view() is None
                &&& final(self).pending_view() == old(self).pending_view().push(
                    (queued.ticket, queued.text@, (queued.attempts + 1) as u8),
                )
                &&& r == Retry::Again { start: old(self).state_view() == SessionState::Ready || old(self).state_view() == SessionState::Idle }
                &&& final(self).state_view() == if old(self).state_view() == SessionState::Ready
                    || old(self).state_view() == SessionState::Idle {
                    SessionState::Starting
                } else {
                    old(self).state_view()
                }
            },
            queued.attempts >= 1 ==> {
                &&& r == Retry::Copy
                &&& final(self).state_view() == old(self).state_view()
                &&& final(self).session_view() == old(self).session_view()
                &&& final(self).pending_view() == old(self).pending_view()
            },
    {
        if queued.attempts < 1 {
            self.invalidate();
            self.enqueue(queued.ticket, queued.text, queued.attempts + 1);
            let go = self.start();
            Retry::Again { start: go }
        } else {
            Retry::Copy
        }
    }
}

/// The portal interface that types.
pub const INTERFACE: &'static str = "org.freedesktop.portal.RemoteDesktop";

/// Keyboard device type, as the portal's `SelectDevices` numbers them.
pub const KEYBOARD: u32 = 1;

/// Persist until the user explicitly revokes the grant.
pub const PERSIST_UNTIL_REVOKED: u32 = 2;

/// The key events that type `text`: for each character in turn, its keysym
/// pressed (state 1) and then released (state 0).
pub open spec fn spec_keystrokes(text: Seq<char>) -> Seq<(u32, u32)> {
    Seq::new(
        2 * text.len(),
        |i: int| (spec_keysym(text[i / 2]), if i % 2 == 0 { 1u32 } else { 0u32 }),
    )
}

/// The key events that type `text`.
pub fn keystrokes(text: &str) -> (events: Vec<(u32, u32)>)
    ensures
        events@ == spec_keystrokes(text@),
{
    let chars = chars_of(text);
    let mut events: Vec<(u32, u32)> = Vec::new();
    let mut k: usize = 0;
    while k < chars.len()
        invariant
            chars@ == text@,
            k <= chars@.len(),
            events@ =~= Seq::new(
                2 * k as nat,
                |i: int| (spec_keysym(chars@[i / 2]), if i % 2 == 0 { 1u32 } else { 0u32 }),
            ),
        decreases chars.len() - k,
    {
        let keysym = keysym_for(chars[k]);
        events.push((keysym, 1));
        events.push((keysym, 0));
        k += 1;
    }
    events
}

/// The restore token kept from the last session, given what the token file
/// holds: its text without surrounding whitespace, and none when that is
/// empty.
pub fn saved_token(content: &str) -> (t: Option<String>)
    ensures
        has_content(content@) ==> (t matches Some(s) && s@ == trim(content@)),
        !has_content(content@) ==> t is None,
{
    let chars = chars_of(content);
    let trimmed = trim_chars(&chars);
    proof {
        lemma_trim_empty(content@);
    }
    if trimmed.len() == 0 {
        None
    } else {
        Some(string_from_chars(&trimmed))
    }
}

/// Each character is typed with its own keysym, pressed and then released,
/// in the order of the text: a printable Latin-1 character is sent as its
/// own code, and a character beyond Latin-1 as its code in the Unicode
/// keysym range.
pub proof fn law_each_character_is_typed_as_itself(text: Seq<char>)
    ensures
        spec_keystrokes(text).len() == 2 * text.len(),
        forall|i: int|
            0 <= i < text.len() ==> #[trigger] spec_keystrokes(text)[2 * i] == (
                spec_keysym(text[i]),
                1u32,
            ) && spec_keystrokes(text)[2 * i + 1] == (spec_keysym(text[i]), 0u32),
        forall|i: int|
            0 <= i < text.len() && 0x20 <= (text[i] as u32) < 0x100 ==> #[trigger] spec_keystrokes(
                text,
            )[2 * i] == (text[i] as u32, 1u32),
        forall|i: int|
            0 <= i < text.len() && (text[i] as u32) >= 0x100 ==> (#[trigger] spec_keystrokes(
                text,
            )[2 * i]).0 == (0x0100_0000 + text[i] as u32) as u32,
{
    assert forall|i: int| 0 <= i < text.len() implies #[trigger] spec_keystrokes(text)[2 * i] == (
        spec_keysym(text[i]),
        1u32,
    ) && spec_keystrokes(text)[2 * i + 1] == (spec_keysym(text[i]), 0u32) by {
        assert((2 * i) / 2 == i && (2 * i) % 2 == 0) by (nonlinear_arith)
            requires
                0 <= i,
        ;
        assert((2 * i + 1) / 2 == i && (2 * i + 1) % 2 == 1) by (nonlinear_arith)
            requires
                0 <= i,
        ;
    }
    assert forall|i: int| 0 <= i < text.len() implies {
        &&& 0x20 <= (text[i] as u32) < 0x100 ==> spec_keysym(#[trigger] text[i]) == text[i] as u32
        &&& (text[i] as u32) >= 0x100 ==> spec_keysym(text[i]) == (0x0100_0000 + text[i] as u32) as u32
    } by {
        let c = text[i];
        assert('\n' as u32 == 10 && '\r' as u32 == 13 && '\t' as u32 == 9 && '\u{8}' as u32 == 8);
    }
}

} // verus!
