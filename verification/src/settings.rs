//! The user's settings and their defaults.
use vstd::prelude::*;
use crate::paths::{settings_file_path, settings_path_under, system_data_dir};

verus! {

/// Which columns the log search looks in.
#[derive(Clone, Copy, Debug, PartialEq, Eq, Structural)]
pub enum SearchScope {
    /// Every column: app, window title, previous app, bundle id and time.
    All,
    /// The time, as RFC 3339 text.
    Time,
    /// The app's name and bundle id.
    App,
    /// The window title.
    Title,
    /// The previous app.
    Prev,
}

impl Default for SearchScope {
    /// Searching all columns.
    fn default() -> (res: SearchScope)
        ensures
            res == SearchScope::All,
    {
        SearchScope::All
    }
}

/// `true`: the value of a setting that is on unless the stored settings
/// say otherwise.
pub fn default_true() -> (res: bool)
    ensures
        res,
{
    true
}

/// The settings in force where none are stored.
pub open spec fn default_settings() -> Settings {
    Settings {
        autostart: false,
        search_scope: SearchScope::All,
        show_tray: true,
        start_minimized: false,
    }
}

/// The user's settings.
#[derive(Clone, Copy, Debug, PartialEq, Eq, Structural)]
pub struct Settings {
    /// Start at login.
    pub autostart: bool,
    /// The columns the log search looks in.
    pub search_scope: SearchScope,
    /// Show the menu-bar icon.
    pub show_tray: bool,
    /// Start with the window hidden.
    pub start_minimized: bool,
}

impl Default for Settings {
    /// No start at login, search in all columns, menu-bar icon shown,
    /// window shown at start.
    fn default() -> (res: Settings)
        ensures
            res == default_settings(),
    {
        Settings {
            autostart: false,
            search_scope: SearchScope::All,
            show_tray: true,
            start_minimized: false,
        }
    }
}

impl Settings {
    /// The settings file, in the application's data directory.
    pub fn path() -> (res: String)
        ensures
            exists|base: Option<Seq<char>>| res@ == settings_file_path(base),
    {
        let base = system_data_dir();
        settings_path_under(base)
    }

    /// The settings that stored fields give: a scope that is not stored is
    /// `All`, a menu-bar setting that is not stored is on, and a
    /// start-minimized setting that is not stored is off.
    pub fn from_stored(
        autostart: bool,
        search_scope: Option<SearchScope>,
        show_tray: Option<bool>,
        start_minimized: Option<bool>,
    ) -> (res: Settings)
        ensures
            res.autostart == autostart,
            res.search_scope == match search_scope {
                Some(s) => s,
                None => SearchScope::All,
            },
            res.show_tray == match show_tray {
                Some(b) => b,
                None => true,
            },
            res.start_minimized == match start_minimized {
                Some(b) => b,
                None => false,
            },
    {
        let search_scope = match search_scope {
            Some(s) => s,
            None => SearchScope::default(),
        };
        let show_tray = match show_tray {
            Some(b) => b,
            None => default_true(),
        };
        let start_minimized = match start_minimized {
            Some(b) => b,
            None => false,
        };
        Settings { autostart, search_scope, show_tray, start_minimized }
    }

    /// The settings in force after loading: those read, or the defaults
    /// where the file could not be read or parsed.
    pub fn from_loaded(loaded: Option<Settings>) -> (res: Settings)
        ensures
            res == match loaded {
                Some(s) => s,
                None => default_settings(),
            },
    {
        match loaded {
            Some(s) => s,
            None => Settings::default(),
        }
    }
}

} // verus!
