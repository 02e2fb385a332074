use gemini_marketplace::config::Config;
use gemini_marketplace::status::{StatusSnapshot, StatusStore};
use gemini_marketplace::time::Timestamp;

#[test]
fn recording_replaces_the_previous_error_of_a_source() {
    let store = StatusStore::new(&Config::from_base_path("/tmp/m"));
    assert_eq!(store.path(), "/tmp/m/config/status.json");
    let first = store.record_error(None, "a", "boom", Timestamp::from_unix_secs(1));
    let second = store.record_error(Some(first), "b", "bang", Timestamp::from_unix_secs(2));
    let third = store.record_error(Some(second), "a", "again", Timestamp::from_unix_secs(3));
    let slugs: Vec<&str> = third.last_errors.iter().map(|e| e.source_slug.as_str()).collect();
    assert_eq!(slugs, vec!["b", "a"]);
    assert_eq!(third.last_errors[1].message, "again");
}

#[test]
fn clearing_writes_only_when_something_changes() {
    let store = StatusStore::new(&Config::from_base_path("/tmp/m"));
    let snap = store.record_error(None, "a", "boom", Timestamp::from_unix_secs(1));
    assert!(store.clear_error(false, Some(snap.clone()), "a").is_none());
    assert!(store.clear_error(true, Some(snap.clone()), "zzz").is_none());
    let cleared = store.clear_error(true, Some(snap), "a").expect("changed");
    assert!(cleared.last_errors.is_empty());
    let mut direct = StatusSnapshot::default();
    direct.record_error("x", "m", Timestamp::unix_epoch());
    assert!(direct.clear_error("x"));
    assert!(!direct.clear_error("x"));
}
