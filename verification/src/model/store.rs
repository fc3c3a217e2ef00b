//! The decisions behind the config file on disk.
//!
//! The file is one small JSON object. A file that cannot be parsed is moved
//! aside rather than overwritten, and a file written by a newer Scribe is held
//! read-only so that a downgrade cannot quietly delete keys it does not know.
//! Reading, writing and renaming are done by the caller; this module decides
//! what the store holds and what a save should do.

use vstd::prelude::*;

use super::config::Config;
use crate::text::{chars_of, join, join_path};

verus! {

/// Bumped only when a change cannot be expressed as "new key, old default".
pub const VERSION: u32 = 1;

/// What happened when the store was opened, so the UI can say so.
#[derive(Debug, PartialEq, Eq)]
pub enum LoadOutcome {
    /// No file yet. A first run.
    Fresh,
    Loaded,
    /// The file could not be parsed and was renamed to the given path.
    Recovered(String),
    /// The file was written by a newer Scribe. Loaded as far as possible and
    /// held read-only.
    TooNew { found: u32 },
}

/// What reading the file found.
pub enum Found {
    /// There was no file to read.
    Missing,
    /// The file parsed, with this version and these settings.
    Parsed { version: u32, config: Config },
    /// The file did not parse, and was moved aside to `aside`.
    Unreadable { aside: String },
}

/// What a save should do.
#[derive(Debug, PartialEq, Eq)]
pub enum SavePlan {
    /// Nothing: the store is read-only, and refusing to save is the point.
    Skip,
    /// Report that this copy of the settings is not backed by a file.
    NoPath,
    /// Write the settings, stamped with `VERSION`, to this path.
    Write(String),
}

/// A save plan, as contracts speak of it.
pub enum PlanView {
    Skip,
    NoPath,
    Write(Seq<char>),
}

impl SavePlan {
    pub open spec fn view(self) -> PlanView {
        match self {
            SavePlan::Skip => PlanView::Skip,
            SavePlan::NoPath => PlanView::NoPath,
            SavePlan::Write(p) => PlanView::Write(p@),
        }
    }
}

/// What a save does: nothing for a read-only store, a report that there is
/// nowhere to write for a store with no path, and otherwise a write to its
/// path.
pub open spec fn spec_save_plan(read_only: bool, path: Option<Seq<char>>) -> PlanView {
    if read_only {
        PlanView::Skip
    } else {
        match path {
            None => PlanView::NoPath,
            Some(p) => PlanView::Write(p),
        }
    }
}

/// Whether opening a file that read as `found` leaves the store read-only:
/// only when it was written by a newer version.
pub open spec fn spec_opened_read_only(found: Found) -> bool {
    match found {
        Found::Parsed { version, .. } => version > VERSION,
        _ => false,
    }
}

pub struct Store {
    path: Option<String>,
    config: Config,
    read_only: bool,
}

impl Store {
    pub closed spec fn path_view(&self) -> Option<Seq<char>> {
        match self.path {
            Some(p) => Some(p@),
            None => None,
        }
    }

    pub closed spec fn config_view(&self) -> Config {
        self.config
    }

    pub closed spec fn read_only_view(&self) -> bool {
        self.read_only
    }

    /// A store with no file behind it.
    pub fn detached() -> (s: Self)
        ensures
            s.path_view() is None,
            s.config_view().is_default(),
            !s.read_only_view(),
    {
        Self { path: None, config: Config::default(), read_only: false }
    }

    pub fn config(&self) -> (c: &Config)
        ensures
            *c == self.config_view(),
    {
        &self.config
    }

    pub fn set_config(&mut self, config: Config)
        ensures
            final(self).config_view() == config,
            final(self).path_view() == old(self).path_view(),
            final(self).read_only_view() == old(self).read_only_view(),
    {
        self.config = config;
    }

    pub fn is_read_only(&self) -> (b: bool)
        ensures
            b == self.read_only_view(),
    {
        self.read_only
    }

    pub fn path(&self) -> (p: Option<&str>)
        ensures
            match (p, self.path_view()) {
                (Some(a), Some(b)) => a@ == b,
                (None, None) => true,
                _ => false,
            },
    {
        match &self.path {
            Some(p) => Some(p.as_str()),
            None => None,
        }
    }

    /// The file Scribe uses when nobody says otherwise: `scribe/config.json`
    /// under `$XDG_CONFIG_HOME` when that is set to an absolute path, and
    /// under `$HOME/.config` otherwise.
    pub open spec fn spec_default_path(xdg_config_home: Option<Seq<char>>, home: Seq<char>) -> Seq<char> {
        let base = match xdg_config_home {
            Some(x) => if x.len() > 0 && x[0] == '/' {
                x
            } else {
                join_path(home, ".config"@)
            },
            None => join_path(home, ".config"@),
        };
        join_path(join_path(base, "scribe"@), "config.json"@)
    }

    /// The default config file, given the environment's `XDG_CONFIG_HOME`
    /// and `HOME`.
    pub fn default_path(xdg_config_home: Option<&str>, home: &str) -> (p: String)
        ensures
            p@ == Self::spec_default_path(
                match xdg_config_home {
                    Some(x) => Some(x@),
                    None => None,
                },
                home@,
            ),
    {
        let absolute = match xdg_config_home {
            Some(x) => {
                let chars = chars_of(x);
                chars.len() > 0 && chars[0] == '/'
            },
            None => false,
        };
        let base = match xdg_config_home {
            Some(x) => if absolute {
                x.to_owned()
            } else {
                join(home, ".config")
            },
            None => join(home, ".config"),
        };
        join(join(base.as_str(), "scribe").as_str(), "config.json")
    }

    /// The store for the file at `path`, given what reading it found.
    ///
    /// A missing file is a fresh start and a file that did not parse is
    /// replaced by the defaults; both are writable. A file from a newer
    /// version is loaded and held read-only.
    pub fn opened(path: String, found: Found) -> (r: (Self, LoadOutcome))
        ensures
            r.0.path_view() == Some(path@),
            r.0.read_only_view() == spec_opened_read_only(found),
            match found {
                Found::Missing => {
                    &&& r.0.config_view().is_default()
                    &&& !r.0.read_only_view()
                    &&& r.1 == LoadOutcome::Fresh
                },
                Found::Parsed { version, config } => {
                    &&& r.0.config_view() == config
                    &&& r.0.read_only_view() == (version > VERSION)
                    &&& r.1 == if version > VERSION {
                        LoadOutcome::TooNew { found: version }
                    } else {
                        LoadOutcome::Loaded
                    }
                },
                Found::Unreadable { aside } => {
                    &&& r.0.config_view().is_default()
                    &&& !r.0.read_only_view()
                    &&& r.1 == LoadOutcome::Recovered(aside)
                },
            },
    {
        match found {
            Found::Missing => (
                Self { path: Some(path), config: Config::default(), read_only: false },
                LoadOutcome::Fresh,
            ),
            Found::Parsed { version, config } => {
                if version > VERSION {
                    (Self { path: Some(path), config, read_only: true }, LoadOutcome::TooNew { found: version })
                } else {
                    (Self { path: Some(path), config, read_only: false }, LoadOutcome::Loaded)
                }
            },
            Found::Unreadable { aside } => (
                Self { path: Some(path), config: Config::default(), read_only: false },
                LoadOutcome::Recovered(aside),
            ),
        }
    }

    /// What saving should do. A read-only store reports success without
    /// writing; a store with no path has nowhere to go.
    pub fn save_plan(&self) -> (p: SavePlan)
        ensures
            p.view() == spec_save_plan(self.read_only_view(), self.path_view()),
            self.read_only_view() ==> p == SavePlan::Skip,
            !self.read_only_view() && self.path_view() is None ==> p == SavePlan::NoPath,
            !self.read_only_view() && self.path_view() is Some ==> (p matches SavePlan::Write(w)
                && Some(w@) == self.path_view()),
    {
        if self.read_only {
            return SavePlan::Skip;
        }
        match &self.path {
            None => SavePlan::NoPath,
            Some(p) => SavePlan::Write(p.clone()),
        }
    }
}

/// A file written by a newer version is held read-only and never written
/// over: opening it and then saving writes nothing.
pub proof fn law_a_newer_file_is_never_written_over(path: String, version: u32, config: Config)
    requires
        version > VERSION,
    ensures
        spec_save_plan(
            spec_opened_read_only(Found::Parsed { version, config }),
            Some(path@),
        ) == PlanView::Skip,
{
}

/// A file that could not be read does not cost the user their app: the store
/// opened in its place saves back to the same path, and a missing file is
/// written at the path it was looked for at.
pub proof fn law_a_replaced_file_is_saved_in_place(path: String, aside: String)
    ensures
        spec_save_plan(spec_opened_read_only(Found::Unreadable { aside }), Some(path@))
            == PlanView::Write(path@),
        spec_save_plan(spec_opened_read_only(Found::Missing), Some(path@)) == PlanView::Write(
            path@,
        ),
{
}

} // verus!
