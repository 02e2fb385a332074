//! The registry of marketplace sources and the rules for changing it.
//!
//! The registry is read from and written to `sources.json` by the caller;
//! every successful change below is one the caller persists.

use vstd::prelude::*;

use crate::config::Config;
use crate::domain::{MarketplaceSource, MarketplaceSourceView};
use crate::locator::{Url, url_parse, UrlView};
use crate::paths::{join_path, join_spec};
use crate::text::str_eq;

verus! {

/// Name of the registry file inside the configuration directory.
pub const SOURCES_FILE: &'static str = "sources.json";

/// URL of the curated default source.
pub const DEFAULT_SOURCE_URL: &'static str = "https://github.com/athola/gemini-marketplace";

/// Why a registry change was refused.
#[derive(Debug, Clone, PartialEq, Eq)]
pub enum RegistryError {
    /// The default source URL does not parse.
    InvalidDefaultUrl,
    /// No source is marked as the default.
    NoDefault,
    /// A source with this slug is already registered.
    DuplicateSlug { slug: String },
    /// The default source can only be disabled.
    DefaultNotRemovable,
    /// No source has this slug.
    NotFound { slug: String },
}

impl RegistryError {
    /// The message reported for the error.
    pub fn message(&self) -> (r: String)
        ensures
            r@ == (match *self {
                RegistryError::InvalidDefaultUrl => "Failed to parse default source URL"@,
                RegistryError::NoDefault => "Default source not found in registry"@,
                RegistryError::DuplicateSlug { slug } => "Source with slug '"@ + slug@ + "' already exists"@,
                RegistryError::DefaultNotRemovable => "Cannot remove default source; use disable_source instead"@,
                RegistryError::NotFound { slug } => "Source '"@ + slug@ + "' not found"@,
            }),
    {
        match self {
            RegistryError::InvalidDefaultUrl => String::from_str("Failed to parse default source URL"),
            RegistryError::NoDefault => String::from_str("Default source not found in registry"),
            RegistryError::DuplicateSlug { slug } => {
                let mut s = String::from_str("Source with slug '");
                s.append(slug.as_str());
                s.append("' already exists");
                s
            },
            RegistryError::DefaultNotRemovable => String::from_str(
                "Cannot remove default source; use disable_source instead",
            ),
            RegistryError::NotFound { slug } => {
                let mut s = String::from_str("Source '");
                s.append(slug.as_str());
                s.append("' not found");
                s
            },
        }
    }
}

pub open spec fn sources_view(v: Seq<MarketplaceSource>) -> Seq<MarketplaceSourceView> {
    v.map_values(|s: MarketplaceSource| s@)
}

/// The index of the first source with slug `slug`.
pub open spec fn first_with_slug(s: Seq<MarketplaceSourceView>, slug: Seq<char>) -> Option<int>
    decreases s.len(),
{
    if s.len() == 0 {
        None
    } else if s[0].slug == slug {
        Some(0)
    } else {
        match first_with_slug(s.drop_first(), slug) {
            Some(i) => Some(i + 1),
            None => None,
        }
    }
}

/// The index of the first default source.
pub open spec fn first_default(s: Seq<MarketplaceSourceView>) -> Option<int>
    decreases s.len(),
{
    if s.len() == 0 {
        None
    } else if s[0].default {
        Some(0)
    } else {
        match first_default(s.drop_first()) {
            Some(i) => Some(i + 1),
            None => None,
        }
    }
}

/// The sources whose slug differs from `slug`, in order.
pub open spec fn without_slug(s: Seq<MarketplaceSourceView>, slug: Seq<char>) -> Seq<MarketplaceSourceView> {
    s.filter(|x: MarketplaceSourceView| x.slug != slug)
}

pub proof fn lemma_first_with_slug(s: Seq<MarketplaceSourceView>, slug: Seq<char>)
    ensures
        first_with_slug(s, slug) matches Some(i) ==> 0 <= i < s.len() && s[i].slug == slug && forall|k: int|
            0 <= k < i ==> s[k].slug != slug,
        first_with_slug(s, slug) is None ==> forall|k: int| 0 <= k < s.len() ==> s[k].slug != slug,
    decreases s.len(),
{
    if s.len() > 0 && s[0].slug != slug {
        lemma_first_with_slug(s.drop_first(), slug);
        assert forall|k: int| 1 <= k < s.len() implies s[k] == s.drop_first()[k - 1] by {}
    }
}

pub proof fn lemma_first_default(s: Seq<MarketplaceSourceView>)
    ensures
        first_default(s) matches Some(i) ==> 0 <= i < s.len() && s[i].default && forall|k: int|
            0 <= k < i ==> !s[k].default,
        first_default(s) is None ==> forall|k: int| 0 <= k < s.len() ==> !s[k].default,
    decreases s.len(),
{
    if s.len() > 0 && !s[0].default {
        lemma_first_default(s.drop_first());
        assert forall|k: int| 1 <= k < s.len() implies s[k] == s.drop_first()[k - 1] by {}
    }
}

/// The registry with the default curated source only.
pub open spec fn default_registry_spec(url: UrlView) -> Seq<MarketplaceSourceView> {
    seq![crate::domain::default_curated_view(url)]
}

/// Finds the first source with the given slug.
fn find_slug(sources: &Vec<MarketplaceSource>, slug: &str) -> (r: Option<usize>)
    ensures
        match r {
            Some(i) => first_with_slug(sources_view(sources@), slug@) == Some(i as int),
            None => first_with_slug(sources_view(sources@), slug@) is None,
        },
{
    let ghost s = sources_view(sources@);
    proof {
        lemma_first_with_slug(s, slug@);
    }
    let mut i: usize = 0;
    while i < sources.len()
        invariant
            0 <= i <= sources@.len(),
            s == sources_view(sources@),
            first_with_slug(s, slug@) matches Some(f) ==> i <= f,
            first_with_slug(s, slug@) matches Some(f) ==> s[f].slug == slug@,
            first_with_slug(s, slug@) matches Some(f) ==> forall|k: int| 0 <= k < f ==> s[k].slug != slug@,
            first_with_slug(s, slug@) is None ==> forall|k: int| 0 <= k < s.len() ==> s[k].slug != slug@,
        decreases sources@.len() - i,
    {
        if str_eq(sources[i].slug.as_str(), slug) {
            proof {
                assert(s[i as int].slug == slug@);
            }
            return Some(i);
        }
        proof {
            assert(s[i as int].slug != slug@);
        }
        i = i + 1;
    }
    None
}

/// Source registry service: the registry file's location and its contents.
pub struct SourcesService {
    config: Config,
    sources_path: String,
    sources: Vec<MarketplaceSource>,
}

impl View for SourcesService {
    type V = Seq<MarketplaceSourceView>;

    closed spec fn view(&self) -> Seq<MarketplaceSourceView> {
        sources_view(self.sources@)
    }
}

impl SourcesService {
    pub closed spec fn path_spec(&self) -> Seq<char> {
        self.sources_path@
    }

    /// The configuration the service was built for.
    pub closed spec fn config_spec(&self) -> Config {
        self.config
    }

    /// The service for a configuration, holding the registry read from
    /// `sources.json`; when there is no such file yet, the registry holds the
    /// default curated source only.
    pub fn new(config: Config, stored: Option<Vec<MarketplaceSource>>) -> (r: Result<Self, RegistryError>)
        ensures
            r matches Ok(svc) ==> svc.path_spec() == join_spec(config@.config_dir, SOURCES_FILE@),
            r matches Ok(svc) ==> svc.config_spec() == config,
            match stored {
                Some(v) => r matches Ok(svc) && svc@ == sources_view(v@),
                None => match url_parse(DEFAULT_SOURCE_URL@) {
                    Ok(u) => r matches Ok(svc) && svc@ == default_registry_spec(u),
                    Err(_) => r == Err::<SourcesService, RegistryError>(RegistryError::InvalidDefaultUrl),
                },
            },
    {
        let sources_path = join_path(config.config_dir().as_str(), SOURCES_FILE);
        let sources = match stored {
            Some(v) => v,
            None => {
                let url = match Url::parse(DEFAULT_SOURCE_URL) {
                    Ok(u) => u,
                    Err(_) => return Err(RegistryError::InvalidDefaultUrl),
                };
                let mut v: Vec<MarketplaceSource> = Vec::new();
                v.push(MarketplaceSource::default_curated(url));
                proof {
                    assert(sources_view(v@) =~= default_registry_spec(v@[0].url@));
                }
                v
            },
        };
        Ok(SourcesService { config, sources_path, sources })
    }

    /// Path of the registry file.
    pub fn sources_path(&self) -> (r: &String)
        ensures
            r@ == self.path_spec(),
    {
        &self.sources_path
    }

    /// The configuration the service was built for.
    pub fn config(&self) -> (r: &Config)
        ensures
            *r == self.config_spec(),
    {
        &self.config
    }

    /// The default source (the first marked as default).
    pub fn get_default_source(&self) -> (r: Result<MarketplaceSource, RegistryError>)
        ensures
            match first_default(self@) {
                Some(i) => r matches Ok(s) && s@ == self@[i],
                None => r == Err::<MarketplaceSource, RegistryError>(RegistryError::NoDefault),
            },
    {
        let ghost s = self@;
        proof {
            lemma_first_default(s);
        }
        let mut i: usize = 0;
        while i < self.sources.len()
            invariant
                0 <= i <= self.sources@.len(),
                s == sources_view(self.sources@),
                forall|k: int| 0 <= k < i ==> !s[k].default,
            decreases self.sources@.len() - i,
        {
            if self.sources[i].default {
                proof {
                    lemma_first_default(s);
                    assert(s[i as int].default);
                    match first_default(s) {
                        Some(f) => {
                            assert(!(f < i));
                            assert(!(i < f));
                        },
                        None => {},
                    }
                }
                return Ok(self.sources[i].duplicate());
            }
            proof {
                assert(!s[i as int].default);
            }
            i = i + 1;
        }
        Err(RegistryError::NoDefault)
    }

    /// Copies of all registered sources, in registry order.
    pub fn list_sources(&self) -> (r: Vec<MarketplaceSource>)
        ensures
            sources_view(r@) == self@,
    {
        let mut out: Vec<MarketplaceSource> = Vec::new();
        let mut i: usize = 0;
        while i < self.sources.len()
            invariant
                0 <= i <= self.sources@.len(),
                out@.len() == i,
                sources_view(out@) == sources_view(self.sources@).subrange(0, i as int),
            decreases self.sources@.len() - i,
        {
            let copy = self.sources[i].duplicate();
            out.push(copy);
            proof {
                assert(sources_view(out@) =~= sources_view(self.sources@).subrange(0, i + 1));
            }
            i = i + 1;
        }
        assert(sources_view(self.sources@).subrange(0, self.sources@.len() as int) =~= sources_view(self.sources@));
        out
    }

    /// Registers a new source, refused when its slug is taken.
    pub fn add_source(&mut self, source: MarketplaceSource) -> (r: Result<(), RegistryError>)
        ensures
            final(self).path_spec() == old(self).path_spec(),
            match first_with_slug(old(self)@, source@.slug) {
                Some(_) => r matches Err(RegistryError::DuplicateSlug { slug }) && slug@ == source@.slug
                    && final(self)@ == old(self)@,
                None => r is Ok && final(self)@ == old(self)@.push(source@),
            },
    {
        match find_slug(&self.sources, source.slug.as_str()) {
            Some(_) => Err(RegistryError::DuplicateSlug { slug: source.slug }),
            None => {
                self.sources.push(source);
                proof {
                    assert(sources_view(self.sources@) =~= sources_view(old(self).sources@).push(source@));
                }
                Ok(())
            },
        }
    }

    /// Removes every source with the given slug. Refused when the first such
    /// source is the default one (it can only be disabled), or when none has it.
    pub fn remove_source(&mut self, slug: &str) -> (r: Result<(), RegistryError>)
        ensures
            final(self).path_spec() == old(self).path_spec(),
            match first_with_slug(old(self)@, slug@) {
                Some(i) => if old(self)@[i].default {
                    r == Err::<(), RegistryError>(RegistryError::DefaultNotRemovable) && final(self)@ == old(self)@
                } else {
                    r is Ok && final(self)@ == without_slug(old(self)@, slug@)
                },
                None => r matches Err(RegistryError::NotFound { slug: s }) && s@ == slug@ && final(self)@ == old(self)@,
            },
    {
        let ghost s = self@;
        match find_slug(&self.sources, slug) {
            None => {
                return Err(RegistryError::NotFound { slug: String::from_str(slug) });
            },
            Some(i) => {
                proof {
                    lemma_first_with_slug(s, slug@);
                    assert(s[i as int] == self.sources@[i as int]@);
                }
                if self.sources[i].default {
                    return Err(RegistryError::DefaultNotRemovable);
                }
            },
        }
        let mut kept: Vec<MarketplaceSource> = Vec::new();
        let mut rest: Vec<MarketplaceSource> = Vec::new();
        std::mem::swap(&mut rest, &mut self.sources);
        let n = rest.len();
        proof {
            assert(sources_view(rest@) =~= s.subrange(0, n as int));
            assert(s.subrange(0, 0).filter(|x: MarketplaceSourceView| x.slug != slug@) =~= Seq::empty());
            assert(sources_view(kept@) =~= without_slug(s.subrange(0, 0), slug@));
        }
        let mut i: usize = 0;
        while i < n
            invariant
                0 <= i <= n,
                n == s.len(),
                sources_view(rest@) == s.subrange(i as int, n as int),
                rest@.len() == n - i,
                sources_view(kept@) == without_slug(s.subrange(0, i as int), slug@),
            decreases n - i,
        {
            let ghost before = rest@;
            let item = rest.remove(0);
            proof {
                assert forall|m: int| 0 <= m < rest@.len() implies #[trigger] sources_view(rest@)[m] == s[i + 1 + m] by {
                    assert(sources_view(before)[m + 1] == before[m + 1]@);
                }
                assert(sources_view(before)[0] == before[0]@);
                assert(item@ == s[i as int]);
                assert(sources_view(rest@) =~= s.subrange(i + 1, n as int));
                let pre = s.subrange(0, i as int);
                let post = s.subrange(0, i + 1);
                assert(post =~= pre.push(s[i as int]));
                assert(post.drop_last() =~= pre);
                reveal_with_fuel(Seq::filter, 2);
            }
            if !str_eq(item.slug.as_str(), slug) {
                kept.push(item);
                proof {
                    assert(sources_view(kept@) =~= without_slug(s.subrange(0, i + 1), slug@));
                }
            } else {
                proof {
                    assert(without_slug(s.subrange(0, i + 1), slug@) == without_slug(s.subrange(0, i as int), slug@));
                }
            }
            i = i + 1;
        }
        assert(s.subrange(0, n as int) =~= s);
        self.sources = kept;
        Ok(())
    }

    /// Sets the enabled flag of the first source with the given slug.
    fn set_enabled(&mut self, slug: &str, enabled: bool) -> (r: Result<(), RegistryError>)
        ensures
            final(self).path_spec() == old(self).path_spec(),
            match first_with_slug(old(self)@, slug@) {
                Some(i) => r is Ok && final(self)@ == old(self)@.update(
                    i,
                    MarketplaceSourceView { enabled, ..old(self)@[i] },
                ),
                None => r matches Err(RegistryError::NotFound { slug: s }) && s@ == slug@ && final(self)@ == old(self)@,
            },
    {
        match find_slug(&self.sources, slug) {
            None => Err(RegistryError::NotFound { slug: String::from_str(slug) }),
            Some(i) => {
                proof {
                    lemma_first_with_slug(sources_view(self.sources@), slug@);
                }
                let mut item = self.sources.remove(i);
                item.enabled = enabled;
                self.sources.insert(i, item);
                proof {
                    assert(sources_view(self.sources@) =~= sources_view(old(self).sources@).update(
                        i as int,
                        MarketplaceSourceView { enabled, ..sources_view(old(self).sources@)[i as int] },
                    ));
                }
                Ok(())
            },
        }
    }

    /// Disables the first source with the given slug.
    pub fn disable_source(&mut self, slug: &str) -> (r: Result<(), RegistryError>)
        ensures
            final(self).path_spec() == old(self).path_spec(),
            match first_with_slug(old(self)@, slug@) {
                Some(i) => r is Ok && final(self)@ == old(self)@.update(
                    i,
                    MarketplaceSourceView { enabled: false, ..old(self)@[i] },
                ),
                None => r matches Err(RegistryError::NotFound { slug: s }) && s@ == slug@ && final(self)@ == old(self)@,
            },
    {
        self.set_enabled(slug, false)
    }

    /// Enables the first source with the given slug.
    pub fn enable_source(&mut self, slug: &str) -> (r: Result<(), RegistryError>)
        ensures
            final(self).path_spec() == old(self).path_spec(),
            match first_with_slug(old(self)@, slug@) {
                Some(i) => r is Ok && final(self)@ == old(self)@.update(
                    i,
                    MarketplaceSourceView { enabled: true, ..old(self)@[i] },
                ),
                None => r matches Err(RegistryError::NotFound { slug: s }) && s@ == slug@ && final(self)@ == old(self)@,
            },
    {
        self.set_enabled(slug, true)
    }
}

} // verus!
