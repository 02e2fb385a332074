//! Serializable view records of the domain entities, as printed by the CLI's
//! JSON output and served by the HTTP API.

use vstd::prelude::*;

use crate::domain::{
    Extension, InstallStatus, MarketplaceSource, SourceType, SyncStatus, SyncStatusView,
    ValidationStatus, ValidationSummary,
};
use crate::text::{clone_strings, strings_view};
use crate::time::Timestamp;
use crate::validation::findings_view;

verus! {

/// Installation state as reported in records.
#[derive(Debug, Clone, Copy, PartialEq, Eq, Structural)]
pub enum InstallState {
    Installed,
    NotInstalled,
    UpdateAvailable,
    Unknown,
}

pub open spec fn install_state_spec(status: InstallStatus) -> InstallState {
    match status {
        InstallStatus::Installed { .. } => InstallState::Installed,
        InstallStatus::NotInstalled => InstallState::NotInstalled,
        InstallStatus::UpdateAvailable { .. } => InstallState::UpdateAvailable,
        InstallStatus::Unknown => InstallState::Unknown,
    }
}

impl InstallState {
    /// The record state of an installation status.
    pub fn from_status(status: &InstallStatus) -> (r: Self)
        ensures
            r == install_state_spec(*status),
    {
        match status {
            InstallStatus::Installed { .. } => InstallState::Installed,
            InstallStatus::NotInstalled => InstallState::NotInstalled,
            InstallStatus::UpdateAvailable { .. } => InstallState::UpdateAvailable,
            InstallStatus::Unknown => InstallState::Unknown,
        }
    }
}

/// The messages of a summary's findings, each as `<path>: <message>`.
pub open spec fn validation_messages_spec(summary: ValidationSummary) -> Seq<Seq<char>> {
    findings_view(summary.errors@).map_values(|f: (Seq<char>, Seq<char>, Seq<char>)| f.2 + ": "@ + f.1)
}

/// The messages of a summary's findings, each as `<path>: <message>`.
pub fn validation_messages(summary: &ValidationSummary) -> (r: Vec<String>)
    ensures
        strings_view(r@) == validation_messages_spec(*summary),
{
    let mut out: Vec<String> = Vec::new();
    let mut i: usize = 0;
    while i < summary.errors.len()
        invariant
            0 <= i <= summary.errors@.len(),
            strings_view(out@) == validation_messages_spec(*summary).subrange(0, i as int),
            out@.len() == i,
        decreases summary.errors@.len() - i,
    {
        let e = &summary.errors[i];
        let mut m = e.path.clone();
        m.append(": ");
        m.append(e.message.as_str());
        proof {
            assert(findings_view(summary.errors@)[i as int] == (e.code@, e.message@, e.path@));
            assert(validation_messages_spec(*summary)[i as int] == m@);
        }
        out.push(m);
        proof {
            assert(strings_view(out@) =~= validation_messages_spec(*summary).subrange(0, i + 1));
        }
        i = i + 1;
    }
    assert(validation_messages_spec(*summary).subrange(0, summary.errors@.len() as int) =~= validation_messages_spec(*summary));
    out
}

/// An extension as presented to users.
#[derive(Debug, Clone, PartialEq)]
pub struct ExtensionRecord {
    pub namespace: String,
    pub name: String,
    pub description: String,
    pub version: String,
    pub author: String,
    pub categories: Vec<String>,
    pub repository_url: String,
    pub readme: Option<String>,
    pub install_status: InstallState,
    pub source_alias: String,
    pub warnings: Vec<String>,
    pub cache_freshness: Option<Timestamp>,
}

impl ExtensionRecord {
    /// The record of an extension.
    pub fn from_extension(extension: &Extension) -> (r: Self)
        ensures
            r.namespace@ == extension.id.0@,
            r.name@ == extension.display_name@,
            r.description@ == extension.summary@,
            r.version@ == extension.version@,
            r.author@ == extension.author@,
            strings_view(r.categories@) == strings_view(extension.categories@),
            r.repository_url@ == extension.repository_url@.serialization,
            crate::locator::opt_string_view(r.readme) == crate::locator::opt_string_view(extension.readme_excerpt),
            r.install_status == install_state_spec(extension.install_status),
            r.source_alias@ == extension.source_slug@,
            strings_view(r.warnings@) == validation_messages_spec(extension.validation_summary),
            r.cache_freshness == extension.last_synced_at,
    {
        let readme = match &extension.readme_excerpt {
            Some(r) => Some(r.clone()),
            None => None,
        };
        ExtensionRecord {
            namespace: extension.id.0.clone(),
            name: extension.display_name.clone(),
            description: extension.summary.clone(),
            version: extension.version.to_text(),
            author: extension.author.clone(),
            categories: clone_strings(&extension.categories),
            repository_url: extension.repository_url.to_text(),
            readme,
            install_status: InstallState::from_status(&extension.install_status),
            source_alias: extension.source_slug.clone(),
            warnings: validation_messages(&extension.validation_summary),
            cache_freshness: extension.last_synced_at,
        }
    }
}

/// Cache bookkeeping of one extension manifest.
#[derive(Debug, Clone, PartialEq)]
pub struct ManifestCacheEntryRecord {
    pub namespace: String,
    pub stored_at: Option<Timestamp>,
    pub ttl_hours: u64,
    pub checksum: String,
    pub schema_valid: bool,
    pub semantic_valid: bool,
    /// Additional metadata, as JSON text.
    pub metadata: Option<String>,
}

/// Whole hours an extension stays cached: from its sync to its expiry (zero
/// when either is unknown or the expiry precedes the sync).
pub open spec fn ttl_hours_spec(synced: Option<Timestamp>, expires: Option<Timestamp>) -> int {
    match (synced, expires) {
        (Some(s), Some(e)) => if s.spec_nanos() <= e.spec_nanos() {
            ((e.spec_nanos() - s.spec_nanos()) / 1_000_000_000) / 3600
        } else {
            0
        },
        _ => 0,
    }
}

impl ManifestCacheEntryRecord {
    /// The cache record of an extension: the schema stage is valid when it
    /// passed, the semantic stage when it passed or only warned.
    pub fn from_extension(extension: &Extension) -> (r: Self)
        ensures
            r.namespace@ == extension.id.0@,
            r.stored_at == extension.last_synced_at,
            r.ttl_hours == ttl_hours_spec(extension.last_synced_at, extension.cache_expires_at),
            r.checksum@ == extension.manifest_checksum@,
            r.schema_valid == (extension.validation_summary.schema_status == ValidationStatus::Passed),
            r.semantic_valid == (extension.validation_summary.semantic_status == ValidationStatus::Passed
                || extension.validation_summary.semantic_status == ValidationStatus::Warning),
            r.metadata is None,
    {
        let ttl_hours: u64 = match (extension.last_synced_at, extension.cache_expires_at) {
            (Some(start), Some(expiry)) => match expiry.duration_since(start) {
                Some(d) => d.as_secs() / 3600,
                None => 0,
            },
            _ => 0,
        };
        ManifestCacheEntryRecord {
            namespace: extension.id.0.clone(),
            stored_at: extension.last_synced_at,
            ttl_hours,
            checksum: extension.manifest_checksum.clone(),
            schema_valid: extension.validation_summary.schema_status == ValidationStatus::Passed,
            semantic_valid: extension.validation_summary.semantic_status == ValidationStatus::Passed
                || extension.validation_summary.semantic_status == ValidationStatus::Warning,
            metadata: None,
        }
    }
}

/// Kind of source as reported in records.
#[derive(Debug, Clone, Copy, PartialEq, Eq, Structural)]
pub enum SourceTypeRecord {
    GithubRepo,
    GitUrl,
    LocalPath,
}

impl SourceTypeRecord {
    /// The record kind of a source type.
    pub fn from_source_type(source_type: &SourceType) -> (r: Self)
        ensures
            r == (match *source_type {
                SourceType::GithubRepo => SourceTypeRecord::GithubRepo,
                SourceType::GitUrl => SourceTypeRecord::GitUrl,
                SourceType::LocalPath => SourceTypeRecord::LocalPath,
            }),
    {
        match source_type {
            SourceType::GithubRepo => SourceTypeRecord::GithubRepo,
            SourceType::GitUrl => SourceTypeRecord::GitUrl,
            SourceType::LocalPath => SourceTypeRecord::LocalPath,
        }
    }
}

/// Error state of a source.
#[derive(Debug, Clone, PartialEq, Eq)]
pub struct SourceErrorRecord {
    pub message: String,
    pub warnings: Vec<String>,
}

impl SourceErrorRecord {
    /// The error state of a sync status: warnings and errors have one, the
    /// other states none.
    pub fn from_sync_status(status: &SyncStatus) -> (r: Option<Self>)
        ensures
            match status@ {
                SyncStatusView::Warning { warnings } => r matches Some(e) && e.message@
                    == "source reported warnings"@ && strings_view(e.warnings@) == warnings,
                SyncStatusView::Error { message } => r matches Some(e) && e.message@ == message
                    && e.warnings@.len() == 0,
                _ => r is None,
            },
    {
        match status {
            SyncStatus::Warning { warnings } => Some(SourceErrorRecord {
                message: String::from_str("source reported warnings"),
                warnings: clone_strings(warnings),
            }),
            SyncStatus::Error { message } => Some(SourceErrorRecord { message: message.clone(), warnings: Vec::new() }),
            _ => None,
        }
    }
}

/// A source as presented to users.
#[derive(Debug, Clone, PartialEq)]
pub struct MarketplaceSourceRecord {
    pub alias: String,
    pub display_name: String,
    pub url: String,
    pub source_type: SourceTypeRecord,
    pub recursion_depth: u8,
    pub enabled: bool,
    pub default: bool,
    pub requires_auth: bool,
    pub last_sync_at: Option<Timestamp>,
    pub error_state: Option<SourceErrorRecord>,
}

impl MarketplaceSourceRecord {
    /// The record of a source.
    pub fn from_source(source: &MarketplaceSource) -> (r: Self)
        ensures
            r.alias@ == source.slug@,
            r.display_name@ == source.display_name@,
            r.url@ == source.url@.serialization,
            r.source_type == (match source.source_type {
                SourceType::GithubRepo => SourceTypeRecord::GithubRepo,
                SourceType::GitUrl => SourceTypeRecord::GitUrl,
                SourceType::LocalPath => SourceTypeRecord::LocalPath,
            }),
            r.recursion_depth == source.recursion_depth,
            r.enabled == source.enabled,
            r.default == source.default,
            r.requires_auth == source.requires_auth,
            r.last_sync_at == source.last_synced_at,
            r.error_state is Some <==> (source.last_sync_status is Warning || source.last_sync_status is Error),
    {
        MarketplaceSourceRecord {
            alias: source.slug.clone(),
            display_name: source.display_name.clone(),
            url: source.url.to_text(),
            source_type: SourceTypeRecord::from_source_type(&source.source_type),
            recursion_depth: source.recursion_depth,
            enabled: source.enabled,
            default: source.default,
            requires_auth: source.requires_auth,
            last_sync_at: source.last_synced_at,
            error_state: SourceErrorRecord::from_sync_status(&source.last_sync_status),
        }
    }
}

} // verus!
