//! Domain-level structs representing marketplace entities.

use std::collections::BTreeMap;
use vstd::prelude::*;

use crate::locator::{Url, UrlView};
use crate::text::{
    chars_of, concat, second_field, second_field_spec, str_eq, strings_view, to_lowercase,
    u64_to_decimal, decimal_spec, unicode_lowercase,
};
use crate::time::{TimeSpan, Timestamp, MAX_TIMESTAMP_NANOS};
use crate::version::Version;

verus! {

/// Unique identifier format: `source-slug/extension-slug`.
#[derive(Debug, Clone, PartialEq, Eq, Hash)]
pub struct ExtensionId(pub String);

impl ExtensionId {
    /// The identifier `source_slug/extension_slug`.
    pub fn new(source_slug: &str, extension_slug: &str) -> (r: Self)
        ensures
            r.0@ == source_slug@ + seq!['/'] + extension_slug@,
    {
        let with_slash = concat(source_slug, "/");
        proof {
            reveal_strlit("/");
        }
        ExtensionId(concat(with_slash.as_str(), extension_slug))
    }

    /// A copy of the identifier.
    pub fn duplicate(&self) -> (r: Self)
        ensures
            r.0@ == self.0@,
    {
        ExtensionId(self.0.clone())
    }
}

/// Installation state of an extension.
#[derive(Debug, Clone, PartialEq, Eq)]
pub enum InstallStatus {
    NotInstalled,
    Installed { version: Version },
    UpdateAvailable { installed_version: Version, latest_version: Version },
    Unknown,
}

/// Whether the status counts as installed (installed, or installed with an update available).
pub open spec fn is_installed_status(s: InstallStatus) -> bool {
    s is Installed || s is UpdateAvailable
}

/// A marketplace extension as listed by a source.
#[derive(Debug, Clone, PartialEq)]
pub struct Extension {
    pub id: ExtensionId,
    pub source_slug: String,
    pub extension_slug: String,
    pub display_name: String,
    pub summary: String,
    pub repository_url: Url,
    pub homepage_url: Option<Url>,
    pub documentation_url: Option<Url>,
    pub version: Version,
    pub author: String,
    pub license: Option<String>,
    pub categories: Vec<String>,
    pub tags: Vec<String>,
    pub compatibility: Vec<String>,
    pub install_status: InstallStatus,
    pub manifest_checksum: String,
    pub readme_excerpt: Option<String>,
    pub last_synced_at: Option<Timestamp>,
    pub cache_expires_at: Option<Timestamp>,
    pub validation_summary: ValidationSummary,
    pub manifest_path: Option<String>,
}

/// Whether some item before position `upto` has the lowercase form `key`.
pub open spec fn key_seen(items: Seq<Seq<char>>, upto: int, key: Seq<char>) -> bool {
    exists|k: int| 0 <= k < upto && #[trigger] unicode_lowercase(items[k]) == key
}

/// The items, keeping only the first of those that agree after lowercasing.
pub open spec fn dedup_case_insensitive_spec(items: Seq<Seq<char>>) -> Seq<Seq<char>>
    decreases items.len(),
{
    if items.len() == 0 {
        Seq::empty()
    } else {
        let prev = dedup_case_insensitive_spec(items.drop_last());
        if key_seen(items, items.len() - 1, unicode_lowercase(items.last())) {
            prev
        } else {
            prev.push(items.last())
        }
    }
}

pub open spec fn strs_view(items: Seq<&str>) -> Seq<Seq<char>> {
    items.map_values(|s: &str| s@)
}

/// The lowercase forms of the dedup result are exactly the lowercase forms seen so far.
pub proof fn lemma_dedup_keys(items: Seq<Seq<char>>, key: Seq<char>)
    ensures
        (exists|j: int|
            0 <= j < dedup_case_insensitive_spec(items).len() && #[trigger] unicode_lowercase(
                dedup_case_insensitive_spec(items)[j],
            ) == key) <==> key_seen(items, items.len() as int, key),
    decreases items.len(),
{
    if items.len() > 0 {
        let init = items.drop_last();
        lemma_dedup_keys(init, key);
        let prev = dedup_case_insensitive_spec(init);
        assert forall|k: int| 0 <= k < init.len() implies init[k] == items[k] by {}
        if key_seen(init, init.len() as int, key) {
            let k = choose|k: int| 0 <= k < init.len() && #[trigger] unicode_lowercase(init[k]) == key;
            assert(unicode_lowercase(items[k]) == key);
        }
        if key_seen(items, items.len() as int, key) {
            let k = choose|k: int| 0 <= k < items.len() && #[trigger] unicode_lowercase(items[k]) == key;
            if k < init.len() {
                assert(unicode_lowercase(init[k]) == key);
            }
        }
        if key_seen(items, items.len() - 1, unicode_lowercase(items.last())) {
            let k = choose|k: int| 0 <= k < items.len() - 1 && #[trigger] unicode_lowercase(items[k])
                == unicode_lowercase(items.last());
            assert(unicode_lowercase(init[k]) == unicode_lowercase(items.last()));
        } else {
            let d = prev.push(items.last());
            assert forall|j: int| 0 <= j < prev.len() implies d[j] == prev[j] by {}
            if unicode_lowercase(items.last()) == key {
                assert(unicode_lowercase(d[d.len() - 1]) == key);
            }
        }
    }
}

/// Collapses entries that agree case-insensitively, keeping the first spelling.
pub fn dedup_case_insensitive(items: &[&str]) -> (r: Vec<String>)
    ensures
        strings_view(r@) == dedup_case_insensitive_spec(strs_view(items@)),
{
    let ghost all = strs_view(items@);
    let mut result: Vec<String> = Vec::new();
    let mut keys: Vec<String> = Vec::new();
    let mut i: usize = 0;
    while i < items.len()
        invariant
            0 <= i <= items@.len(),
            all == strs_view(items@),
            strings_view(result@) == dedup_case_insensitive_spec(all.subrange(0, i as int)),
            keys@.len() == result@.len(),
            forall|j: int| 0 <= j < keys@.len() ==> #[trigger] keys@[j]@ == unicode_lowercase(result@[j]@),
        decreases items@.len() - i,
    {
        let value: &str = items[i];
        let key = to_lowercase(value);
        let mut found = false;
        let mut j: usize = 0;
        while j < keys.len()
            invariant
                0 <= j <= keys@.len(),
                !found ==> forall|m: int| 0 <= m < j ==> #[trigger] keys@[m]@ != key@,
                found ==> exists|m: int| 0 <= m < keys@.len() && #[trigger] keys@[m]@ == key@,
            decreases keys@.len() - j,
        {
            if str_eq(keys[j].as_str(), key.as_str()) {
                found = true;
            }
            j = j + 1;
        }
        proof {
            let pre = all.subrange(0, i as int);
            let post = all.subrange(0, i + 1);
            assert(post.drop_last() =~= pre);
            assert(post.last() == value@);
            assert forall|k: int| 0 <= k < pre.len() implies pre[k] == post[k] by {}
            lemma_dedup_keys(pre, key@);
            let d = dedup_case_insensitive_spec(pre);
            if found {
                let m = choose|m: int| 0 <= m < keys@.len() && #[trigger] keys@[m]@ == key@;
                assert(unicode_lowercase(d[m]) == key@);
                let k = choose|k: int| 0 <= k < pre.len() && #[trigger] unicode_lowercase(pre[k]) == key@;
                assert(unicode_lowercase(post[k]) == key@);
            } else {
                if key_seen(post, post.len() - 1, key@) {
                    let k = choose|k: int| 0 <= k < post.len() - 1 && #[trigger] unicode_lowercase(post[k]) == key@;
                    assert(unicode_lowercase(pre[k]) == key@);
                    let m = choose|m: int| 0 <= m < d.len() && #[trigger] unicode_lowercase(d[m]) == key@;
                    assert(keys@[m]@ == key@);
                }
            }
        }
        if !found {
            result.push(String::from_str(value));
            keys.push(key);
            proof {
                assert(strings_view(result@) =~= dedup_case_insensitive_spec(all.subrange(0, i as int)).push(value@));
            }
        }
        i = i + 1;
    }
    assert(all.subrange(0, items@.len() as int) =~= all);
    result
}

impl Extension {
    /// Builds an extension from its listing metadata. The extension slug is the
    /// second `/`-separated field of the identifier; categories and compatibility
    /// entries that repeat case-insensitively are collapsed to their first spelling.
    pub fn new(
        id: ExtensionId,
        display_name: &str,
        summary: &str,
        repository_url: Url,
        version: Version,
        author: &str,
        source_slug: &str,
        categories: &[&str],
        compatibility: &[&str],
        install_status: InstallStatus,
        last_seen: Option<Timestamp>,
        validation_summary: ValidationSummary,
        manifest_path: &str,
        readme_excerpt: Option<String>,
    ) -> (r: Self)
        ensures
            r.id.0@ == id.0@,
            r.source_slug@ == source_slug@,
            r.extension_slug@ == second_field_spec(id.0@, '/'),
            r.display_name@ == display_name@,
            r.summary@ == summary@,
            r.repository_url@ == repository_url@,
            r.homepage_url is None,
            r.documentation_url is None,
            r.version@ == version@,
            r.author@ == author@,
            r.license is None,
            strings_view(r.categories@) == dedup_case_insensitive_spec(strs_view(categories@)),
            r.tags@.len() == 0,
            strings_view(r.compatibility@) == dedup_case_insensitive_spec(strs_view(compatibility@)),
            r.install_status == install_status,
            r.manifest_checksum@.len() == 0,
            r.readme_excerpt == readme_excerpt,
            r.last_synced_at == last_seen,
            r.cache_expires_at is None,
            r.validation_summary == validation_summary,
            r.manifest_path matches Some(p) && p@ == manifest_path@,
    {
        let extension_slug = second_field(id.0.as_str(), '/');
        Extension {
            id,
            source_slug: String::from_str(source_slug),
            extension_slug,
            display_name: String::from_str(display_name),
            summary: String::from_str(summary),
            repository_url,
            homepage_url: None,
            documentation_url: None,
            version,
            author: String::from_str(author),
            license: None,
            categories: dedup_case_insensitive(categories),
            tags: Vec::new(),
            compatibility: dedup_case_insensitive(compatibility),
            install_status,
            manifest_checksum: String::new(),
            readme_excerpt,
            last_synced_at: last_seen,
            cache_expires_at: None,
            validation_summary,
            manifest_path: Some(String::from_str(manifest_path)),
        }
    }
}

/// Kind of location a marketplace source points at.
#[derive(Debug, Clone, Copy, PartialEq, Eq, Structural)]
pub enum SourceType {
    GithubRepo,
    GitUrl,
    LocalPath,
}

/// Outcome of the last synchronization of a source.
#[derive(Debug, Clone, PartialEq, Eq)]
pub enum SyncStatus {
    Idle,
    Syncing,
    Healthy,
    Warning { warnings: Vec<String> },
    Error { message: String },
}

/// What the library reads of a sync status.
pub enum SyncStatusView {
    Idle,
    Syncing,
    Healthy,
    Warning { warnings: Seq<Seq<char>> },
    Error { message: Seq<char> },
}

impl View for SyncStatus {
    type V = SyncStatusView;

    open spec fn view(&self) -> SyncStatusView {
        match self {
            SyncStatus::Idle => SyncStatusView::Idle,
            SyncStatus::Syncing => SyncStatusView::Syncing,
            SyncStatus::Healthy => SyncStatusView::Healthy,
            SyncStatus::Warning { warnings } => SyncStatusView::Warning { warnings: strings_view(warnings@) },
            SyncStatus::Error { message } => SyncStatusView::Error { message: message@ },
        }
    }
}

impl SyncStatus {
    /// A copy of the status.
    pub fn duplicate(&self) -> (r: SyncStatus)
        ensures
            r@ == self@,
    {
        match self {
            SyncStatus::Idle => SyncStatus::Idle,
            SyncStatus::Syncing => SyncStatus::Syncing,
            SyncStatus::Healthy => SyncStatus::Healthy,
            SyncStatus::Warning { warnings } => SyncStatus::Warning { warnings: crate::text::clone_strings(warnings) },
            SyncStatus::Error { message } => SyncStatus::Error { message: message.clone() },
        }
    }
}

/// A place the marketplace reads extension manifests from.
#[derive(Debug, Clone, PartialEq, Eq)]
pub struct MarketplaceSource {
    pub slug: String,
    pub display_name: String,
    pub url: Url,
    pub source_type: SourceType,
    pub default: bool,
    pub enabled: bool,
    pub requires_auth: bool,
    pub last_synced_at: Option<Timestamp>,
    pub last_sync_status: SyncStatus,
    pub etag: Option<String>,
    pub poll_interval_hours: Option<u16>,
    pub recursion_depth: u8,
}

/// What the library reads of a marketplace source.
pub struct MarketplaceSourceView {
    pub slug: Seq<char>,
    pub display_name: Seq<char>,
    pub url: UrlView,
    pub source_type: SourceType,
    pub default: bool,
    pub enabled: bool,
    pub requires_auth: bool,
    pub last_synced_at: Option<Timestamp>,
    pub last_sync_status: SyncStatusView,
    pub etag: Option<Seq<char>>,
    pub poll_interval_hours: Option<u16>,
    pub recursion_depth: u8,
}

impl View for MarketplaceSource {
    type V = MarketplaceSourceView;

    open spec fn view(&self) -> MarketplaceSourceView {
        MarketplaceSourceView {
            slug: self.slug@,
            display_name: self.display_name@,
            url: self.url@,
            source_type: self.source_type,
            default: self.default,
            enabled: self.enabled,
            requires_auth: self.requires_auth,
            last_synced_at: self.last_synced_at,
            last_sync_status: self.last_sync_status@,
            etag: crate::locator::opt_string_view(self.etag),
            poll_interval_hours: self.poll_interval_hours,
            recursion_depth: self.recursion_depth,
        }
    }
}

/// The curated default source at `url`.
pub open spec fn default_curated_view(url: UrlView) -> MarketplaceSourceView {
    MarketplaceSourceView {
        slug: "athola"@,
        display_name: "Athola Curated"@,
        url,
        source_type: SourceType::GithubRepo,
        default: true,
        enabled: true,
        requires_auth: false,
        last_synced_at: None,
        last_sync_status: SyncStatusView::Idle,
        etag: None,
        poll_interval_hours: None,
        recursion_depth: 5,
    }
}

impl MarketplaceSource {
    /// The curated default source (`athola`), enabled, not requiring auth,
    /// idle, with recursion depth 5.
    pub fn default_curated(url: Url) -> (r: Self)
        ensures
            r@ == default_curated_view(url@),
            r.slug@ == "athola"@,
            r.display_name@ == "Athola Curated"@,
            r.url@ == url@,
            r.source_type == SourceType::GithubRepo,
            r.default,
            r.enabled,
            !r.requires_auth,
            r.last_synced_at is None,
            r.last_sync_status@ == SyncStatusView::Idle,
            r.etag is None,
            r.poll_interval_hours is None,
            r.recursion_depth == 5,
    {
        MarketplaceSource {
            slug: String::from_str("athola"),
            display_name: String::from_str("Athola Curated"),
            url,
            source_type: SourceType::GithubRepo,
            default: true,
            enabled: true,
            requires_auth: false,
            last_synced_at: None,
            last_sync_status: SyncStatus::Idle,
            etag: None,
            poll_interval_hours: None,
            recursion_depth: 5,
        }
    }

    /// A non-default source with the given fields, idle and not requiring auth.
    pub fn new(
        slug: &str,
        display_name: &str,
        url: Url,
        source_type: SourceType,
        enabled: bool,
        recursion_depth: u8,
    ) -> (r: Self)
        ensures
            r.slug@ == slug@,
            r.display_name@ == display_name@,
            r.url@ == url@,
            r.source_type == source_type,
            !r.default,
            r.enabled == enabled,
            !r.requires_auth,
            r.last_synced_at is None,
            r.last_sync_status@ == SyncStatusView::Idle,
            r.etag is None,
            r.poll_interval_hours is None,
            r.recursion_depth == recursion_depth,
    {
        MarketplaceSource {
            slug: String::from_str(slug),
            display_name: String::from_str(display_name),
            url,
            source_type,
            default: false,
            enabled,
            requires_auth: false,
            last_synced_at: None,
            last_sync_status: SyncStatus::Idle,
            etag: None,
            poll_interval_hours: None,
            recursion_depth,
        }
    }

    /// The source with `last_synced_at` replaced.
    pub fn with_last_synced_at(self, value: Option<Timestamp>) -> (r: Self)
        ensures
            r@ == (MarketplaceSourceView { last_synced_at: value, ..self@ }),
    {
        let mut s = self;
        s.last_synced_at = value;
        s
    }

    /// The source with `etag` replaced.
    pub fn with_etag(self, value: Option<String>) -> (r: Self)
        ensures
            r@ == (MarketplaceSourceView { etag: crate::locator::opt_string_view(value), ..self@ }),
    {
        let mut s = self;
        s.etag = value;
        s
    }

    /// The source with its sync status replaced.
    pub fn with_sync_status(self, status: SyncStatus) -> (r: Self)
        ensures
            r@ == (MarketplaceSourceView { last_sync_status: status@, ..self@ }),
    {
        let mut s = self;
        s.last_sync_status = status;
        s
    }

    /// The source with `requires_auth` replaced.
    pub fn with_requires_auth(self, requires_auth: bool) -> (r: Self)
        ensures
            r@ == (MarketplaceSourceView { requires_auth, ..self@ }),
    {
        let mut s = self;
        s.requires_auth = requires_auth;
        s
    }

    /// A copy of the source.
    pub fn duplicate(&self) -> (r: Self)
        ensures
            r@ == self@,
    {
        let etag = match &self.etag {
            Some(e) => Some(e.clone()),
            None => None,
        };
        MarketplaceSource {
            slug: self.slug.clone(),
            display_name: self.display_name.clone(),
            url: self.url.duplicate(),
            source_type: self.source_type,
            default: self.default,
            enabled: self.enabled,
            requires_auth: self.requires_auth,
            last_synced_at: self.last_synced_at,
            last_sync_status: self.last_sync_status.duplicate(),
            etag,
            poll_interval_hours: self.poll_interval_hours,
            recursion_depth: self.recursion_depth,
        }
    }
}

/// Metadata of one cached batch of extensions.
#[derive(Debug, Clone, PartialEq)]
pub struct CacheEntry {
    pub source_slug: String,
    pub batch_index: u32,
    pub manifest_checksum: String,
    pub payload_path: String,
    pub fetched_at: Timestamp,
    pub expires_at: Timestamp,
    pub extension_ids: Vec<ExtensionId>,
    pub etag: Option<String>,
}

/// `batch-<index>`, the checksum placeholder of a batch without one.
pub open spec fn batch_checksum_spec(batch_index: u32) -> Seq<char> {
    "batch-"@ + decimal_spec(batch_index as nat)
}

impl CacheEntry {
    /// A cache entry; without a checksum the placeholder `batch-<index>` is used.
    pub fn new(
        source_slug: &str,
        batch_index: u32,
        fetched_at: Timestamp,
        expires_at: Timestamp,
        extension_ids: Vec<ExtensionId>,
        checksum: Option<String>,
    ) -> (r: Self)
        ensures
            r.source_slug@ == source_slug@,
            r.batch_index == batch_index,
            r.manifest_checksum@ == (match checksum {
                Some(c) => c@,
                None => batch_checksum_spec(batch_index),
            }),
            r.payload_path@.len() == 0,
            r.fetched_at == fetched_at,
            r.expires_at == expires_at,
            r.extension_ids == extension_ids,
            r.etag is None,
    {
        let manifest_checksum = match checksum {
            Some(c) => c,
            None => {
                let digits = u64_to_decimal(batch_index as u64);
                concat("batch-", digits.as_str())
            },
        };
        CacheEntry {
            source_slug: String::from_str(source_slug),
            batch_index,
            manifest_checksum,
            payload_path: String::new(),
            fetched_at,
            expires_at,
            extension_ids,
            etag: None,
        }
    }

    /// Whether the entry has expired at `now` (at or after its expiry).
    pub fn is_stale(&self, now: Timestamp) -> (r: bool)
        ensures
            r == (self.expires_at.spec_nanos() <= now.spec_nanos()),
    {
        self.expires_at.is_at_or_before(&now)
    }
}

/// A scheduled refresh of a source.
#[derive(Debug, Clone, PartialEq, Eq)]
pub struct RetryJob {
    pub job_id: String,
    pub source_slug: String,
    pub scheduled_for: Timestamp,
    pub attempt: u16,
    pub reason: String,
}

/// What the library reads of a refresh job.
pub struct RetryJobView {
    pub job_id: Seq<char>,
    pub source_slug: Seq<char>,
    pub scheduled_for: int,
    pub attempt: u16,
    pub reason: Seq<char>,
}

impl View for RetryJob {
    type V = RetryJobView;

    open spec fn view(&self) -> RetryJobView {
        RetryJobView {
            job_id: self.job_id@,
            source_slug: self.source_slug@,
            scheduled_for: self.scheduled_for.spec_nanos(),
            attempt: self.attempt,
            reason: self.reason@,
        }
    }
}

impl RetryJob {
    /// A refresh job with the given fields.
    pub fn new(
        source_slug: &str,
        job_id: &str,
        scheduled_for: Timestamp,
        attempt: u16,
        reason: &str,
    ) -> (r: Self)
        ensures
            r.job_id@ == job_id@,
            r.source_slug@ == source_slug@,
            r.scheduled_for == scheduled_for,
            r.attempt == attempt,
            r.reason@ == reason@,
    {
        RetryJob {
            job_id: String::from_str(job_id),
            source_slug: String::from_str(source_slug),
            scheduled_for,
            attempt,
            reason: String::from_str(reason),
        }
    }

    /// The next attempt: scheduled `backoff` later, attempt count raised by one
    /// (saturating at `u16::MAX`).
    pub fn next_attempt(&self, backoff: TimeSpan) -> (r: Self)
        requires
            self.scheduled_for.spec_nanos() + backoff.spec_nanos() <= MAX_TIMESTAMP_NANOS,
        ensures
            r.job_id@ == self.job_id@,
            r.source_slug@ == self.source_slug@,
            r.scheduled_for.spec_nanos() == self.scheduled_for.spec_nanos() + backoff.spec_nanos(),
            r.attempt == (if self.attempt == u16::MAX { u16::MAX } else { (self.attempt + 1) as u16 }),
            r.reason@ == self.reason@,
    {
        RetryJob {
            job_id: self.job_id.clone(),
            source_slug: self.source_slug.clone(),
            scheduled_for: self.scheduled_for.add(backoff),
            attempt: self.attempt.saturating_add(1),
            reason: self.reason.clone(),
        }
    }

    /// A copy of the job.
    pub fn duplicate(&self) -> (r: Self)
        ensures
            r@ == self@,
    {
        RetryJob {
            job_id: self.job_id.clone(),
            source_slug: self.source_slug.clone(),
            scheduled_for: self.scheduled_for,
            attempt: self.attempt,
            reason: self.reason.clone(),
        }
    }
}

/// Rate-limit state reported by a source.
#[derive(Debug, Clone, PartialEq, Eq)]
pub struct RateLimitWindow {
    pub source_slug: String,
    pub reset_at: Option<Timestamp>,
    pub remaining_requests: Option<u32>,
    pub limit: Option<u32>,
}

impl RateLimitWindow {
    /// A window with the given reset time and remaining requests, and no known limit.
    pub fn new(source_slug: &str, reset_at: Option<Timestamp>, remaining_requests: Option<u32>) -> (r: Self)
        ensures
            r.source_slug@ == source_slug@,
            r.reset_at == reset_at,
            r.remaining_requests == remaining_requests,
            r.limit is None,
    {
        RateLimitWindow {
            source_slug: String::from_str(source_slug),
            reset_at,
            remaining_requests,
            limit: None,
        }
    }

    /// Time left until the window resets: `None` without a reset time or once it has passed.
    pub fn time_until_reset(&self, now: Timestamp) -> (r: Option<TimeSpan>)
        ensures
            r is Some <==> (self.reset_at matches Some(t) && now.spec_nanos() <= t.spec_nanos()),
            r matches Some(d) ==> d.spec_nanos() == self.reset_at->0.spec_nanos() - now.spec_nanos(),
    {
        match self.reset_at {
            Some(reset) => reset.duration_since(now),
            None => None,
        }
    }
}

/// How searches are applied.
#[derive(Debug, Clone, Copy, PartialEq, Eq, Structural)]
pub enum SearchMode {
    LocalFilter,
    PreFetchFilter,
}

/// How results are printed.
#[derive(Debug, Clone, Copy, PartialEq, Eq, Structural)]
pub enum OutputFormat {
    Table,
    Json,
}

impl Default for SearchMode {
    fn default() -> (r: Self)
        ensures
            r == SearchMode::LocalFilter,
    {
        SearchMode::LocalFilter
    }
}

impl Default for OutputFormat {
    fn default() -> (r: Self)
        ensures
            r == OutputFormat::Table,
    {
        OutputFormat::Table
    }
}

/// User-configurable settings.
#[derive(Debug, Clone, Copy, PartialEq, Eq, Structural)]
pub struct UserPreferences {
    pub cache_ttl_hours: u16,
    pub auto_refresh_on_launch: bool,
    pub search_mode: SearchMode,
    pub output_format: OutputFormat,
}

impl Default for UserPreferences {
    /// A 24-hour cache TTL, no refresh on launch, local filtering and table output.
    fn default() -> (r: Self)
        ensures
            r == (UserPreferences {
                cache_ttl_hours: 24,
                auto_refresh_on_launch: false,
                search_mode: SearchMode::LocalFilter,
                output_format: OutputFormat::Table,
            }),
    {
        UserPreferences {
            cache_ttl_hours: 24,
            auto_refresh_on_launch: false,
            search_mode: SearchMode::LocalFilter,
            output_format: OutputFormat::Table,
        }
    }
}

/// Outcome of one validation stage.
#[derive(Debug, Clone, Copy, PartialEq, Eq, Structural)]
pub enum ValidationStatus {
    Pending,
    Passed,
    Warning,
    Failed,
}

/// One validation finding.
#[derive(Debug, Clone, PartialEq, Eq)]
pub struct ValidationError {
    pub code: String,
    pub message: String,
    pub path: String,
}

impl ValidationError {
    /// A finding with the given code, message and JSON path.
    pub fn new(code: &str, message: &str, path: &str) -> (r: Self)
        ensures
            r.code@ == code@,
            r.message@ == message@,
            r.path@ == path@,
    {
        ValidationError {
            code: String::from_str(code),
            message: String::from_str(message),
            path: String::from_str(path),
        }
    }
}

/// Result of schema and semantic validation of a manifest.
#[derive(Debug, Clone, PartialEq, Eq)]
pub struct ValidationSummary {
    pub schema_status: ValidationStatus,
    pub semantic_status: ValidationStatus,
    pub errors: Vec<ValidationError>,
    pub last_checked: Timestamp,
}

impl ValidationSummary {
    /// A summary with the given fields.
    pub fn new(
        schema_status: ValidationStatus,
        semantic_status: ValidationStatus,
        errors: Vec<ValidationError>,
        last_checked: Timestamp,
    ) -> (r: Self)
        ensures
            r == (ValidationSummary { schema_status, semantic_status, errors, last_checked }),
    {
        ValidationSummary { schema_status, semantic_status, errors, last_checked }
    }

    /// Schema passed, semantic validation pending, no findings.
    pub fn new_pending(now: Timestamp) -> (r: Self)
        ensures
            r.schema_status == ValidationStatus::Passed,
            r.semantic_status == ValidationStatus::Pending,
            r.errors@.len() == 0,
            r.last_checked == now,
    {
        Self::new(ValidationStatus::Passed, ValidationStatus::Pending, Vec::new(), now)
    }
}

impl Default for ValidationSummary {
    /// A pending summary checked at the Unix epoch.
    fn default() -> (r: Self)
        ensures
            r.schema_status == ValidationStatus::Passed,
            r.semantic_status == ValidationStatus::Pending,
            r.errors@.len() == 0,
            r.last_checked.spec_nanos() == 0,
    {
        Self::new_pending(Timestamp::unix_epoch())
    }
}

/// Extensions together with the rate-limit windows of their sources.
#[derive(Debug, Clone)]
pub struct ExtensionListView {
    pub extensions: Vec<Extension>,
    pub rate_limit_windows: BTreeMap<String, RateLimitWindow>,
}

/// Sources together with the identifiers of pending refresh jobs.
#[derive(Debug, Clone)]
pub struct SourceStatusView {
    pub sources: Vec<MarketplaceSource>,
    pub pending_refresh_jobs: Vec<String>,
}

} // verus!
