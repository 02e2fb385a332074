use gemini_marketplace::config::Config;
use gemini_marketplace::domain::{dedup_case_insensitive, CacheEntry, ExtensionId, RetryJob};
use gemini_marketplace::show::parse_id;
use gemini_marketplace::fetcher::parse_u64;
use gemini_marketplace::refresh::RefreshService;
use gemini_marketplace::status::StatusSnapshot;
use gemini_marketplace::text::{sort_strings, u64_to_decimal};
use gemini_marketplace::time::Timestamp;

#[test]
fn one_job_per_id_after_requeue() {
    let mut service = RefreshService::new(&Config::from_base_path("/tmp/m"), None);
    for (id, secs) in [("a", 5u64), ("b", 3), ("a", 9), ("a", 1)] {
        service.queue_refresh(RetryJob::new("s", id, Timestamp::from_unix_secs(secs), 0, "r"));
    }
    let jobs = service.pending_jobs();
    let ids: Vec<&str> = jobs.iter().map(|j| j.job_id.as_str()).collect();
    assert_eq!(ids, vec!["a", "b"]);
    assert_eq!(jobs[0].scheduled_for, Timestamp::from_unix_secs(1));
}

#[test]
fn draining_splits_due_from_future() {
    let mut service = RefreshService::new(&Config::from_base_path("/tmp/m"), None);
    for (id, secs) in [("x", 10u64), ("y", 20), ("z", 30)] {
        service.queue_refresh(RetryJob::new("s", id, Timestamp::from_unix_secs(secs), 0, "r"));
    }
    let drained = service.drain_due(Timestamp::from_unix_secs(20));
    assert_eq!(drained.len(), 2);
    assert!(drained.iter().all(|j| j.scheduled_for <= Timestamp::from_unix_secs(20)));
    assert!(service.pending_jobs().iter().all(|j| j.scheduled_for > Timestamp::from_unix_secs(20)));
}

#[test]
fn recorded_errors_keep_one_per_source() {
    let mut snapshot = StatusSnapshot::default();
    snapshot.record_error("a", "1", Timestamp::unix_epoch());
    snapshot.record_error("a", "2", Timestamp::unix_epoch());
    assert_eq!(snapshot.last_errors.len(), 1);
    assert_eq!(snapshot.last_errors[0].message, "2");
}

#[test]
fn stale_entries_stay_stale() {
    let entry = CacheEntry::new("s", 0, Timestamp::unix_epoch(), Timestamp::from_unix_secs(5), Vec::new(), None);
    assert!(entry.is_stale(Timestamp::from_unix_secs(5)) && entry.is_stale(Timestamp::from_unix_secs(6)));
}

#[test]
fn decimal_text_round_trips() {
    for n in [0u64, 1, 9, 10, 99, 100, 65_535, u64::MAX] {
        assert_eq!(parse_u64(&u64_to_decimal(n)), Some(n));
    }
}

#[test]
fn dedup_keeps_distinct_keys() {
    let out = dedup_case_insensitive(&["CLI", "cli", "Data", "DATA", "x"]);
    assert_eq!(out, vec!["CLI".to_string(), "Data".to_string(), "x".to_string()]);
}

#[test]
fn sorted_strings_ascend() {
    let sorted = sort_strings(vec!["b".to_string(), "a".to_string(), "é".to_string(), "B".to_string()]);
    assert_eq!(sorted, vec!["B".to_string(), "a".to_string(), "b".to_string(), "é".to_string()]);
}

#[test]
fn extension_id_parses_back_into_its_slugs() {
    let id = ExtensionId::new("curated", "awesome-tool");
    assert_eq!(id.0, "curated/awesome-tool");
    let (source, slug) = parse_id(&id.0).expect("parses");
    assert_eq!(source, "curated");
    assert_eq!(slug, "awesome-tool");
}

fn list_entry(namespace: &str, name: &str) -> gemini_marketplace::catalog::ListEntry {
    gemini_marketplace::catalog::ListEntry {
        namespace: namespace.to_string(),
        display_name: name.to_string(),
        description: String::new(),
        version: "1.0.0".to_string(),
        source: "curated".to_string(),
        installed: false,
        categories: Vec::new(),
        tags: Vec::new(),
    }
}

#[test]
fn listing_sort_is_stable_by_namespace() {
    let entries = vec![
        list_entry("b/x", "first b"),
        list_entry("a/x", "first a"),
        list_entry("b/x", "second b"),
        list_entry("a/x", "second a"),
    ];
    let sorted = gemini_marketplace::catalog::sort_entries(entries);
    let names: Vec<&str> = sorted.iter().map(|e| e.display_name.as_str()).collect();
    assert_eq!(names, vec!["first a", "second a", "first b", "second b"]);
}

#[test]
fn requeue_replaces_the_job_with_the_same_id() {
    let mut service = RefreshService::new(&Config::from_base_path("/tmp/m"), None);
    service.queue_refresh(RetryJob::new("s", "a", Timestamp::from_unix_secs(5), 0, "r"));
    service.queue_refresh(RetryJob::new("s", "b", Timestamp::from_unix_secs(5), 0, "r"));
    assert_eq!(service.pending_jobs().len(), 2);
    service.queue_refresh(RetryJob::new("s", "a", Timestamp::from_unix_secs(5), 1, "r"));
    let jobs = service.pending_jobs();
    assert_eq!(jobs.len(), 2);
    let ids: Vec<&str> = jobs.iter().map(|j| j.job_id.as_str()).collect();
    assert_eq!(ids, vec!["b", "a"]);
    let (_, stored) = service.flush();
    let reloaded = RefreshService::new(&Config::from_base_path("/tmp/m"), Some(stored));
    assert_eq!(reloaded.pending_jobs(), jobs);
}

#[test]
fn requeue_replaces_every_job_with_the_id() {
    let config = Config::from_base_path("/tmp/m");
    let stored = vec![
        RetryJob::new("s", "a", Timestamp::from_unix_secs(1), 0, "r"),
        RetryJob::new("s", "a", Timestamp::from_unix_secs(2), 0, "r"),
        RetryJob::new("s", "b", Timestamp::from_unix_secs(3), 0, "r"),
    ];
    let mut service = RefreshService::new(&config, Some(stored));
    service.queue_refresh(RetryJob::new("s", "a", Timestamp::from_unix_secs(4), 0, "r"));
    let ids: Vec<String> = service.pending_jobs().iter().map(|j| j.job_id.clone()).collect();
    assert_eq!(ids, vec!["b".to_string(), "a".to_string()]);
}
