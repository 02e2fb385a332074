use gemini_marketplace::domain::{
    Extension, ExtensionId, InstallStatus, MarketplaceSource, SourceType, SyncStatus, ValidationError,
    ValidationStatus, ValidationSummary,
};
use gemini_marketplace::locator::Url;
use gemini_marketplace::records::{
    ExtensionRecord, InstallState, ManifestCacheEntryRecord, MarketplaceSourceRecord, SourceErrorRecord,
    SourceTypeRecord,
};
use gemini_marketplace::time::{TimeSpan, Timestamp};
use gemini_marketplace::version::Version;

fn parse_url(text: &str) -> Url {
    match Url::parse(text) {
        Ok(u) => u,
        Err(e) => panic!("{e}"),
    }
}

fn parse_version(text: &str) -> Version {
    match Version::parse(text) {
        Ok(v) => v,
        Err(e) => panic!("{e}"),
    }
}

fn sample_extension() -> Extension {
    let now = Timestamp::from_unix_secs(60);
    let mut ext = Extension::new(
        ExtensionId::new("curated", "awesome"),
        "Awesome Extension",
        "Test description",
        parse_url("https://example.com/repo"),
        parse_version("1.2.3"),
        "Example Dev",
        "curated",
        &["cli", "productivity"],
        &["Gemini CLI >=1.0"],
        InstallStatus::Installed { version: parse_version("1.2.3") },
        Some(now),
        ValidationSummary::new(
            ValidationStatus::Passed,
            ValidationStatus::Warning,
            vec![ValidationError::new("schema_warning", "Example warning", "/name")],
            now,
        ),
        "extensions/awesome",
        Some("README excerpt".to_string()),
    );
    ext.cache_expires_at = Some(now.add(TimeSpan::from_secs(60 * 60 * 6)));
    ext
}

fn sample_source() -> MarketplaceSource {
    MarketplaceSource::new(
        "curated",
        "Curated",
        parse_url("https://github.com/athola/gemini-marketplace"),
        SourceType::GithubRepo,
        true,
        5,
    )
}

#[test]
fn extension_record_converts_domain_model() {
    let extension = sample_extension();
    let record = ExtensionRecord::from_extension(&extension);

    assert_eq!(record.namespace, "curated/awesome");
    assert_eq!(record.name, "Awesome Extension");
    assert_eq!(record.install_status, InstallState::Installed);
    assert_eq!(record.source_alias, "curated");
    assert_eq!(record.warnings.len(), 1);
    assert_eq!(record.cache_freshness.unwrap(), Timestamp::from_unix_secs(60));
}

#[test]
fn manifest_cache_entry_record_derives_ttl_hours() {
    let extension = sample_extension();
    let record = ManifestCacheEntryRecord::from_extension(&extension);

    assert_eq!(record.namespace, "curated/awesome");
    assert_eq!(record.ttl_hours, 6);
    assert!(record.schema_valid);
    assert_eq!(record.checksum, extension.manifest_checksum);
}

#[test]
fn marketplace_source_record_round_trips() {
    let source = sample_source();
    let record = MarketplaceSourceRecord::from_source(&source);

    assert_eq!(record.alias, "curated");
    assert_eq!(record.url, "https://github.com/athola/gemini-marketplace");
    assert!(record.enabled);
}

#[test]
fn extension_record_lists_validation_messages_and_version() {
    let record = ExtensionRecord::from_extension(&sample_extension());
    assert_eq!(record.warnings, vec!["/name: Example warning".to_string()]);
    assert_eq!(record.version, "1.2.3");
    assert_eq!(record.repository_url, "https://example.com/repo");
    assert_eq!(record.categories, vec!["cli".to_string(), "productivity".to_string()]);
}

#[test]
fn ttl_hours_is_zero_without_expiry() {
    let mut extension = sample_extension();
    extension.cache_expires_at = None;
    assert_eq!(ManifestCacheEntryRecord::from_extension(&extension).ttl_hours, 0);
    extension.cache_expires_at = Some(Timestamp::unix_epoch());
    assert_eq!(ManifestCacheEntryRecord::from_extension(&extension).ttl_hours, 0);
}

#[test]
fn install_states_follow_install_status() {
    assert_eq!(InstallState::from_status(&InstallStatus::NotInstalled), InstallState::NotInstalled);
    assert_eq!(InstallState::from_status(&InstallStatus::Unknown), InstallState::Unknown);
    let update = InstallStatus::UpdateAvailable {
        installed_version: parse_version("1.0.0"),
        latest_version: parse_version("2.0.0"),
    };
    assert_eq!(InstallState::from_status(&update), InstallState::UpdateAvailable);
}

#[test]
fn source_error_record_reflects_sync_status() {
    assert_eq!(SourceErrorRecord::from_sync_status(&SyncStatus::Idle), None);
    let err = SourceErrorRecord::from_sync_status(&SyncStatus::Error { message: "boom".to_string() });
    assert_eq!(err.map(|e| e.message), Some("boom".to_string()));
    let warn = SourceErrorRecord::from_sync_status(&SyncStatus::Warning { warnings: vec!["w".to_string()] });
    let warn = warn.expect("warning record");
    assert_eq!(warn.message, "source reported warnings");
    assert_eq!(warn.warnings, vec!["w".to_string()]);
    assert_eq!(SourceTypeRecord::from_source_type(&SourceType::LocalPath), SourceTypeRecord::LocalPath);
    let record = MarketplaceSourceRecord::from_source(&sample_source());
    assert_eq!(record.source_type, SourceTypeRecord::GithubRepo);
    assert_eq!(record.error_state, None);
}
