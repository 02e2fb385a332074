//! Directory layout of the marketplace's persisted state.
//!
//! All state lives beneath one base directory: `cache/`, `config/` and
//! `logs/`. The base is the override given by `GEMINI_MARKETPLACE_HOME`, or
//! else `<gemini config>/extensions/marketplace`, where the Gemini config
//! directory is `GEMINI_CONFIG` or `<home>/.gemini`.

use vstd::prelude::*;

use crate::error::MarketplaceError;
use crate::paths::{join_path, join_spec, parent_path, parent_spec};

verus! {

/// Paths of the marketplace's cache, configuration and log directories.
#[derive(Debug, Clone)]
pub struct Config {
    cache_dir: String,
    config_dir: String,
    log_dir: String,
}

/// What the library reads of a configuration: its three directories.
pub struct ConfigView {
    pub cache_dir: Seq<char>,
    pub config_dir: Seq<char>,
    pub log_dir: Seq<char>,
}

impl View for Config {
    type V = ConfigView;

    closed spec fn view(&self) -> ConfigView {
        ConfigView { cache_dir: self.cache_dir@, config_dir: self.config_dir@, log_dir: self.log_dir@ }
    }
}

/// The layout anchored at `base`.
pub open spec fn layout_spec(base: Seq<char>) -> ConfigView {
    ConfigView {
        cache_dir: join_spec(base, "cache"@),
        config_dir: join_spec(base, "config"@),
        log_dir: join_spec(base, "logs"@),
    }
}

/// The base directory chosen from the environment, or `None` when no home
/// directory is known.
pub open spec fn base_dir_spec(
    marketplace_home: Option<Seq<char>>,
    gemini_config: Option<Seq<char>>,
    home_dir: Option<Seq<char>>,
) -> Option<Seq<char>> {
    match marketplace_home {
        Some(h) => Some(h),
        None => {
            let gemini = match gemini_config {
                Some(g) => Some(g),
                None => match home_dir {
                    Some(h) => Some(join_spec(h, ".gemini"@)),
                    None => None,
                },
            };
            match gemini {
                Some(g) => Some(join_spec(join_spec(g, "extensions"@), "marketplace"@)),
                None => None,
            }
        },
    }
}

impl Config {
    /// The layout anchored at an explicit base directory.
    pub fn from_base_path(base: &str) -> (r: Config)
        ensures
            r@ == layout_spec(base@),
    {
        Config {
            cache_dir: join_path(base, "cache"),
            config_dir: join_path(base, "config"),
            log_dir: join_path(base, "logs"),
        }
    }

    /// The layout for the given environment: `marketplace_home` is the value of
    /// `GEMINI_MARKETPLACE_HOME`, `gemini_config` that of `GEMINI_CONFIG`, and
    /// `home_dir` the user's home directory. Fails only when neither override is
    /// set and the home directory is unknown.
    pub fn new(
        marketplace_home: Option<String>,
        gemini_config: Option<String>,
        home_dir: Option<String>,
    ) -> (r: Result<Config, MarketplaceError>)
        ensures
            match base_dir_spec(
                crate::locator::opt_string_view(marketplace_home),
                crate::locator::opt_string_view(gemini_config),
                crate::locator::opt_string_view(home_dir),
            ) {
                Some(b) => r matches Ok(c) && c@ == layout_spec(b),
                None => r matches Err(MarketplaceError::Configuration(m))
                    && m@ == "Unable to resolve home directory for Gemini config"@,
            },
    {
        if let Some(h) = marketplace_home {
            return Ok(Config::from_base_path(h.as_str()));
        }
        let gemini = match gemini_config {
            Some(g) => g,
            None => match home_dir {
                Some(h) => join_path(h.as_str(), ".gemini"),
                None => {
                    return Err(MarketplaceError::Configuration(
                        String::from_str("Unable to resolve home directory for Gemini config"),
                    ));
                },
            },
        };
        let extensions = join_path(gemini.as_str(), "extensions");
        let base = join_path(extensions.as_str(), "marketplace");
        Ok(Config::from_base_path(base.as_str()))
    }

    /// Directory holding cache files.
    pub fn cache_dir(&self) -> (r: &String)
        ensures
            r@ == self@.cache_dir,
    {
        &self.cache_dir
    }

    /// Directory holding configuration files.
    pub fn config_dir(&self) -> (r: &String)
        ensures
            r@ == self@.config_dir,
    {
        &self.config_dir
    }

    /// Directory holding logs.
    pub fn log_dir(&self) -> (r: &String)
        ensures
            r@ == self@.log_dir,
    {
        &self.log_dir
    }

    /// The directory the Gemini CLI stores extensions in: the grandparent of
    /// the configuration directory, when it has one.
    pub fn extensions_root(&self) -> (r: Option<String>)
        ensures
            match parent_spec(self@.config_dir) {
                Some(p) => match parent_spec(p) {
                    Some(g) => r matches Some(s) && s@ == g,
                    None => r is None,
                },
                None => r is None,
            },
    {
        match parent_path(self.config_dir.as_str()) {
            Some(p) => parent_path(p.as_str()),
            None => None,
        }
    }
}

/// The on-disk layout of marketplace state.
#[derive(Debug, Clone)]
pub struct CacheLayout {
    root: String,
    cache_dir: String,
    config_dir: String,
    log_dir: String,
}

/// What the library reads of a layout: its four directories.
pub struct CacheLayoutView {
    pub root: Seq<char>,
    pub cache_dir: Seq<char>,
    pub config_dir: Seq<char>,
    pub log_dir: Seq<char>,
}

impl View for CacheLayout {
    type V = CacheLayoutView;

    closed spec fn view(&self) -> CacheLayoutView {
        CacheLayoutView {
            root: self.root@,
            cache_dir: self.cache_dir@,
            config_dir: self.config_dir@,
            log_dir: self.log_dir@,
        }
    }
}

impl CacheLayout {
    /// The layout of a configuration, whose directories the caller creates:
    /// its directories, and as root the parent of the configuration directory
    /// (the directory itself when it has none).
    pub fn ensure(config: &Config) -> (r: CacheLayout)
        ensures
            r@.root == (match parent_spec(config@.config_dir) {
                Some(p) => p,
                None => config@.config_dir,
            }),
            r@.cache_dir == config@.cache_dir,
            r@.config_dir == config@.config_dir,
            r@.log_dir == config@.log_dir,
    {
        let root = match parent_path(config.config_dir().as_str()) {
            Some(p) => p,
            None => config.config_dir().clone(),
        };
        CacheLayout {
            root,
            cache_dir: config.cache_dir().clone(),
            config_dir: config.config_dir().clone(),
            log_dir: config.log_dir().clone(),
        }
    }

    /// Root directory of the marketplace state.
    pub fn root(&self) -> (r: &String)
        ensures
            r@ == self@.root,
    {
        &self.root
    }

    /// Directory storing cached manifests and metadata.
    pub fn cache_dir(&self) -> (r: &String)
        ensures
            r@ == self@.cache_dir,
    {
        &self.cache_dir
    }

    /// Directory storing preferences, sources and the refresh queue.
    pub fn config_dir(&self) -> (r: &String)
        ensures
            r@ == self@.config_dir,
    {
        &self.config_dir
    }

    /// Directory storing logs.
    pub fn log_dir(&self) -> (r: &String)
        ensures
            r@ == self@.log_dir,
    {
        &self.log_dir
    }
}

/// The layout of a configuration (see `CacheLayout::ensure`).
pub fn ensure_layout(config: &Config) -> (r: CacheLayout)
    ensures
        r@.root == (match parent_spec(config@.config_dir) {
            Some(p) => p,
            None => config@.config_dir,
        }),
        r@.cache_dir == config@.cache_dir,
        r@.config_dir == config@.config_dir,
        r@.log_dir == config@.log_dir,
{
    CacheLayout::ensure(config)
}

} // verus!
