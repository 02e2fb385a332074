//! User preferences such as the cache TTL, search mode and output format.
//!
//! Reading and writing `preferences.json` is the caller's part: a service
//! built by `load` knows its file, and `save` says what to write there.

use vstd::prelude::*;

use crate::config::Config;
use crate::domain::{OutputFormat, SearchMode, UserPreferences};
use crate::paths::{join_path, join_spec};

verus! {

/// Name of the preferences file inside the configuration directory.
pub const PREFERENCES_FILE: &'static str = "preferences.json";

/// The current preferences, and the file they are persisted to, if any.
#[derive(Debug, Clone)]
pub struct PreferencesService {
    prefs: UserPreferences,
    path: Option<String>,
}

impl View for PreferencesService {
    type V = UserPreferences;

    closed spec fn view(&self) -> UserPreferences {
        self.prefs
    }
}

/// The preferences a service holds once loaded: those stored, or the
/// defaults (24-hour cache TTL, no refresh on launch, local filtering, table
/// output) when nothing was stored yet.
pub open spec fn loaded_preferences(stored: Option<UserPreferences>) -> UserPreferences {
    match stored {
        Some(p) => p,
        None => UserPreferences {
            cache_ttl_hours: 24,
            auto_refresh_on_launch: false,
            search_mode: SearchMode::LocalFilter,
            output_format: OutputFormat::Table,
        },
    }
}

impl PreferencesService {
    pub closed spec fn path_spec(&self) -> Option<Seq<char>> {
        crate::locator::opt_string_view(self.path)
    }

    /// A service holding the given preferences, not backed by a file.
    pub fn new(prefs: UserPreferences) -> (r: Self)
        ensures
            r@ == prefs,
            r.path_spec() is None,
    {
        PreferencesService { prefs, path: None }
    }

    /// The service backed by the preferences file of the configuration, holding
    /// the stored preferences, or the defaults when there are none yet (in which
    /// case the caller writes them).
    pub fn load(config: &Config, stored: Option<UserPreferences>) -> (r: Self)
        ensures
            r@ == loaded_preferences(stored),
            r.path_spec() == Some(join_spec(config@.config_dir, PREFERENCES_FILE@)),
    {
        let path = join_path(config.config_dir().as_str(), PREFERENCES_FILE);
        let prefs = match stored {
            Some(p) => p,
            None => UserPreferences::default(),
        };
        PreferencesService { prefs, path: Some(path) }
    }

    /// The file backing the service, if any.
    pub fn path(&self) -> (r: Option<&String>)
        ensures
            match r {
                Some(p) => self.path_spec() == Some(p@),
                None => self.path_spec() is None,
            },
    {
        match &self.path {
            Some(p) => Some(p),
            None => None,
        }
    }

    /// Cache time-to-live in hours.
    pub fn cache_ttl_hours(&self) -> (r: u16)
        ensures
            r == self@.cache_ttl_hours,
    {
        self.prefs.cache_ttl_hours
    }

    /// How searches are applied.
    pub fn search_mode(&self) -> (r: SearchMode)
        ensures
            r == self@.search_mode,
    {
        self.prefs.search_mode
    }

    /// How results are printed.
    pub fn output_format(&self) -> (r: OutputFormat)
        ensures
            r == self@.output_format,
    {
        self.prefs.output_format
    }

    /// Whether sources refresh when the CLI starts.
    pub fn auto_refresh_on_launch(&self) -> (r: bool)
        ensures
            r == self@.auto_refresh_on_launch,
    {
        self.prefs.auto_refresh_on_launch
    }

    /// All preferences.
    pub fn preferences(&self) -> (r: &UserPreferences)
        ensures
            *r == self@,
    {
        &self.prefs
    }

    /// Sets the cache time-to-live.
    pub fn set_cache_ttl_hours(&mut self, hours: u16)
        ensures
            final(self)@ == (UserPreferences { cache_ttl_hours: hours, ..old(self)@ }),
            final(self).path_spec() == old(self).path_spec(),
    {
        self.prefs.cache_ttl_hours = hours;
    }

    /// Sets the search mode.
    pub fn set_search_mode(&mut self, mode: SearchMode)
        ensures
            final(self)@ == (UserPreferences { search_mode: mode, ..old(self)@ }),
            final(self).path_spec() == old(self).path_spec(),
    {
        self.prefs.search_mode = mode;
    }

    /// Sets the output format.
    pub fn set_output_format(&mut self, format: OutputFormat)
        ensures
            final(self)@ == (UserPreferences { output_format: format, ..old(self)@ }),
            final(self).path_spec() == old(self).path_spec(),
    {
        self.prefs.output_format = format;
    }

    /// Sets whether sources refresh when the CLI starts.
    pub fn set_auto_refresh_on_launch(&mut self, enabled: bool)
        ensures
            final(self)@ == (UserPreferences { auto_refresh_on_launch: enabled, ..old(self)@ }),
            final(self).path_spec() == old(self).path_spec(),
    {
        self.prefs.auto_refresh_on_launch = enabled;
    }

    /// Replaces all preferences.
    pub fn update(&mut self, prefs: UserPreferences)
        ensures
            final(self)@ == prefs,
            final(self).path_spec() == old(self).path_spec(),
    {
        self.prefs = prefs;
    }

    /// What persisting the preferences writes: the service's file and the
    /// current preferences; nothing for a service without a file.
    pub fn save(&self) -> (r: Option<(String, UserPreferences)>)
        ensures
            match self.path_spec() {
                Some(p) => r matches Some((path, prefs)) && path@ == p && prefs == self@,
                None => r is None,
            },
    {
        match &self.path {
            Some(p) => Some((p.clone(), self.prefs)),
            None => None,
        }
    }

    /// Replaces all preferences and says what persisting them writes.
    pub fn update_and_save(&mut self, prefs: UserPreferences) -> (r: Option<(String, UserPreferences)>)
        ensures
            final(self)@ == prefs,
            final(self).path_spec() == old(self).path_spec(),
            match old(self).path_spec() {
                Some(p) => r matches Some((path, saved)) && path@ == p && saved == prefs,
                None => r is None,
            },
    {
        self.update(prefs);
        self.save()
    }

    /// A copy of the service.
    pub fn duplicate(&self) -> (r: Self)
        ensures
            r@ == self@,
            r.path_spec() == self.path_spec(),
    {
        let path = match &self.path {
            Some(p) => Some(p.clone()),
            None => None,
        };
        PreferencesService { prefs: self.prefs, path }
    }
}

} // verus!
