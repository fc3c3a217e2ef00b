//! The global shortcut.
//!
//! Scribe registers a custom keybinding with gnome-settings-daemon, the same
//! way the Settings app's own Keyboard panel does, and that binding runs
//! `mynah --toggle`. It needs no consent dialog, no portal and no privileges,
//! and it survives reboots because it is stored in dconf rather than held by
//! this process. It cannot tell a press from a release, so dictation is a
//! toggle.
//!
//! Reading and writing the settings, and parsing accelerators, belong to the
//! application; what is written, and when a binding counts as installed, are
//! decided here.

use vstd::prelude::*;

use crate::text::same_text;

verus! {

pub const MEDIA_KEYS: &'static str = "org.gnome.settings-daemon.plugins.media-keys";

pub const CUSTOM_KEYBINDING: &'static str = "org.gnome.settings-daemon.plugins.media-keys.custom-keybinding";

/// Where the binding lives: a path of our own, so that it cannot collide with
/// whatever the user has already bound under GNOME's numbered slots.
pub const PATH: &'static str = "/org/gnome/settings-daemon/plugins/media-keys/custom-keybindings/mynah/";

/// The binding's name, as the Keyboard panel lists it.
pub const NAME: &'static str = "Mynah dictation";

/// Why a shortcut could not be registered.
#[derive(Debug, PartialEq, Eq)]
pub enum ShortcutError {
    /// gnome-settings-daemon's schema is not installed, so this is not GNOME.
    Unsupported,
    /// The accelerator is not one GTK can parse.
    Unparsable(String),
}

impl ShortcutError {
    /// What to tell the user.
    pub fn message(&self) -> (m: String)
        ensures
            match self {
                ShortcutError::Unsupported => m@ == "This desktop does not provide GNOME's custom keyboard shortcuts, so Mynah cannot register one. Bind a shortcut to “mynah --toggle” in your desktop's own keyboard settings instead."@,
                ShortcutError::Unparsable(accel) => m@ == "“"@ + accel@ + "” is not a keyboard shortcut Mynah understands."@,
            },
    {
        match self {
            ShortcutError::Unsupported => "This desktop does not provide GNOME's custom keyboard shortcuts, so Mynah cannot register one. Bind a shortcut to “mynah --toggle” in your desktop's own keyboard settings instead.".to_owned(),
            ShortcutError::Unparsable(accel) => "“".to_owned().concat(accel.as_str()).concat(
                "” is not a keyboard shortcut Mynah understands.",
            ),
        }
    }
}

/// The command the shortcut runs: this binary by its absolute path when that
/// is known, because gnome-settings-daemon spawns with its own environment,
/// and by its bare name otherwise.
pub fn toggle_command(binary: Option<&str>) -> (c: String)
    ensures
        c@ == match binary {
            Some(b) => b@,
            None => "mynah"@,
        } + " --toggle"@,
{
    let base = match binary {
        Some(b) => b.to_owned(),
        None => "mynah".to_owned(),
    };
    base.concat(" --toggle")
}

/// Whether a binding may be installed: the desktop must have the settings,
/// and the accelerator must parse.
pub fn check_install(supported: bool, parsable: bool, accel: &str) -> (r: Result<(), ShortcutError>)
    ensures
        !supported ==> r == Err::<(), ShortcutError>(ShortcutError::Unsupported),
        supported && !parsable ==> (r matches Err(ShortcutError::Unparsable(a)) && a@ == accel@),
        supported && parsable ==> r is Ok,
{
    if !supported {
        Err(ShortcutError::Unsupported)
    } else if !parsable {
        Err(ShortcutError::Unparsable(accel.to_owned()))
    } else {
        Ok(())
    }
}

pub open spec fn texts(paths: Seq<String>) -> Seq<Seq<char>> {
    paths.map_values(|p: String| p@)
}

/// Whether the list of custom bindings holds ours.
pub fn is_registered(paths: &Vec<String>) -> (b: bool)
    ensures
        b == texts(paths@).contains(PATH@),
{
    let mut k: usize = 0;
    while k < paths.len()
        invariant
            k <= paths@.len(),
            forall|j: int| 0 <= j < k ==> paths@[j]@ != PATH@,
        decreases paths.len() - k,
    {
        if same_text(paths[k].as_str(), PATH) {
            assert(texts(paths@)[k as int] == PATH@);
            return true;
        }
        k += 1;
    }
    proof {
        if texts(paths@).contains(PATH@) {
            let j = choose|j: int| 0 <= j < texts(paths@).len() && texts(paths@)[j] == PATH@;
            assert(paths@[j]@ == PATH@);
        }
    }
    false
}

/// The list of custom bindings with ours added at the end, or nothing to
/// write when it is already there.
pub fn with_binding(paths: &Vec<String>) -> (r: Option<Vec<String>>)
    ensures
        texts(paths@).contains(PATH@) ==> r is None,
        !texts(paths@).contains(PATH@) ==> (r matches Some(v) && texts(v@) == texts(paths@).push(
            PATH@,
        )),
{
    if is_registered(paths) {
        return None;
    }
    let mut v: Vec<String> = Vec::new();
    let mut k: usize = 0;
    while k < paths.len()
        invariant
            k <= paths@.len(),
            texts(v@) == texts(paths@.take(k as int)),
        decreases paths.len() - k,
    {
        v.push(paths[k].clone());
        assert(texts(paths@.take(k + 1)) =~= texts(paths@.take(k as int)).push(paths@[k as int]@));
        k += 1;
    }
    assert(paths@.take(paths@.len() as int) =~= paths@);
    v.push(PATH.to_owned());
    assert(texts(v@) =~= texts(paths@).push(PATH@));
    Some(v)
}

/// The list of custom bindings with ours taken out, leaving the user's other
/// shortcuts alone and in their order.
pub fn without_binding(paths: &Vec<String>) -> (r: Vec<String>)
    ensures
        texts(r@) == texts(paths@).filter(|p: Seq<char>| p != PATH@),
{
    let mut v: Vec<String> = Vec::new();
    let mut k: usize = 0;
    while k < paths.len()
        invariant
            k <= paths@.len(),
            texts(v@) == texts(paths@.take(k as int)).filter(|p: Seq<char>| p != PATH@),
        decreases paths.len() - k,
    {
        proof {
            reveal_with_fuel(Seq::filter, 1);
            assert(texts(paths@.take(k + 1)) =~= texts(paths@.take(k as int)).push(paths@[k as int]@));
            assert(texts(paths@.take(k + 1)).drop_last() =~= texts(paths@.take(k as int)));
        }
        if !same_text(paths[k].as_str(), PATH) {
            v.push(paths[k].clone());
            assert(texts(v@) =~= texts(paths@.take(k as int)).filter(|p: Seq<char>| p != PATH@).push(
                paths@[k as int]@,
            ));
        }
        k += 1;
    }
    assert(paths@.take(paths@.len() as int) =~= paths@);
    v
}

/// What is registered, given whether our path is in the list and the
/// accelerator stored under it: nothing unless both are there.
pub fn installed_accel(registered: bool, accel: &str) -> (r: Option<String>)
    ensures
        registered && accel@.len() > 0 ==> (r matches Some(a) && a@ == accel@),
        !(registered && accel@.len() > 0) ==> r is None,
{
    if registered && accel.unicode_len() > 0 {
        Some(accel.to_owned())
    } else {
        None
    }
}

proof fn lemma_filter_keeps_all(s: Seq<Seq<char>>)
    requires
        !s.contains(PATH@),
    ensures
        s.filter(|p: Seq<char>| p != PATH@) == s,
    decreases s.len(),
{
    reveal_with_fuel(Seq::filter, 1);
    if s.len() > 0 {
        assert(!s.drop_last().contains(PATH@)) by {
            if s.drop_last().contains(PATH@) {
                let j = choose|j: int| 0 <= j < s.drop_last().len() && s.drop_last()[j] == PATH@;
                assert(s[j] == PATH@);
            }
        }
        lemma_filter_keeps_all(s.drop_last());
        assert(s.last() != PATH@) by {
            if s.last() == PATH@ {
                assert(s[s.len() - 1] == PATH@);
            }
        }
        assert(s.drop_last().push(s.last()) =~= s);
    } else {
        assert(s.filter(|p: Seq<char>| p != PATH@) =~= s);
    }
}

/// Taking the binding out undoes putting it in: for a list of custom
/// bindings that does not hold ours, adding ours and then removing it gives
/// back the list as it was, every other shortcut in its place.
pub proof fn law_remove_undoes_install(paths: Seq<String>)
    requires
        !texts(paths).contains(PATH@),
    ensures
        texts(paths).push(PATH@).filter(|p: Seq<char>| p != PATH@) == texts(paths),
{
    reveal_with_fuel(Seq::filter, 1);
    assert(texts(paths).push(PATH@).drop_last() =~= texts(paths));
    lemma_filter_keeps_all(texts(paths));
}

} // verus!
