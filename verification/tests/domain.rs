use gemini_marketplace::domain::{
    CacheEntry, Extension, ExtensionId, InstallStatus, RateLimitWindow, RetryJob, ValidationStatus,
    ValidationSummary,
};
use gemini_marketplace::locator::Url;
use gemini_marketplace::time::{TimeSpan, Timestamp};
use gemini_marketplace::version::Version;

#[test]
fn cache_entry_marks_stale_when_expired() {
    let entry = CacheEntry::new(
        "curated",
        0,
        Timestamp::unix_epoch(),
        Timestamp::from_unix_secs(30),
        vec![ExtensionId::new("curated", "awesome-extension")],
        Some("checksum".to_string()),
    );

    assert!(
        entry.is_stale(Timestamp::from_unix_secs(31)),
        "entry should be stale after expiry"
    );
    assert!(
        !entry.is_stale(Timestamp::from_unix_secs(5)),
        "entry should be fresh before expiry"
    );
}

#[test]
fn retry_job_computes_next_schedule_with_backoff() {
    let job = RetryJob::new("curated", "curated::batch-0", Timestamp::unix_epoch(), 1, "timeout");

    let next = job.next_attempt(TimeSpan::from_secs(30));
    assert_eq!(next.attempt, 2);
    assert_eq!(next.scheduled_for, Timestamp::from_unix_secs(30));
}

#[test]
fn rate_limit_window_reports_remaining_time() {
    let window = RateLimitWindow::new("curated", Some(Timestamp::from_unix_secs(90)), Some(10));

    assert_eq!(
        window.time_until_reset(Timestamp::from_unix_secs(50)),
        Some(TimeSpan::from_secs(40))
    );

    assert_eq!(window.time_until_reset(Timestamp::from_unix_secs(100)), None);
}

#[test]
fn cache_entry_without_checksum_uses_batch_placeholder() {
    let entry = CacheEntry::new(
        "curated",
        7,
        Timestamp::unix_epoch(),
        Timestamp::from_unix_secs(30),
        Vec::new(),
        None,
    );
    assert_eq!(entry.manifest_checksum, "batch-7");
    assert!(entry.is_stale(Timestamp::from_unix_secs(30)));
}

#[test]
fn stale_entry_stays_stale_later() {
    let entry = CacheEntry::new("curated", 0, Timestamp::unix_epoch(), Timestamp::from_unix_secs(10), Vec::new(), None);
    for secs in [10u64, 11, 100, 1_000_000] {
        assert!(entry.is_stale(Timestamp::from_unix_secs(secs)));
    }
}

#[test]
fn retry_attempt_count_saturates() {
    let job = RetryJob::new("curated", "job", Timestamp::unix_epoch(), u16::MAX, "timeout");
    let next = job.next_attempt(TimeSpan::from_secs(1));
    assert_eq!(next.attempt, u16::MAX);
    assert_eq!(next.job_id, "job");
}

#[test]
fn extension_collapses_categories_case_insensitively() {
    let version = match Version::parse("1.2.3") {
        Ok(v) => v,
        Err(e) => panic!("{e}"),
    };
    let installed = match Version::parse("1.2.3") {
        Ok(v) => v,
        Err(e) => panic!("{e}"),
    };
    let url = match Url::parse("https://github.com/example/awesome") {
        Ok(u) => u,
        Err(e) => panic!("{e}"),
    };
    let extension = Extension::new(
        ExtensionId::new("curated", "awesome-extension"),
        "Awesome Extension",
        "Great things happen here.",
        url,
        version,
        "Example Dev",
        "curated",
        &["Analytics", "analytics", "CLI"],
        &["Gemini CLI >=1.0"],
        InstallStatus::Installed { version: installed },
        Some(Timestamp::from_unix_secs(60)),
        ValidationSummary::new_pending(Timestamp::unix_epoch()),
        "extensions/awesome",
        Some("Readme excerpt".to_string()),
    );
    assert_eq!(extension.categories, vec!["Analytics".to_string(), "CLI".to_string()]);
    assert_eq!(extension.extension_slug, "awesome-extension");
    assert_eq!(extension.id.0, "curated/awesome-extension");
    assert_eq!(extension.validation_summary.semantic_status, ValidationStatus::Pending);
    assert!(extension.manifest_checksum.is_empty());
}
