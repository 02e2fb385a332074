use gemini_marketplace::cache::{batch_label, ensure_manifest_checksums, snapshot_from_file, stamp_payload, CacheStore};
use gemini_marketplace::config::Config;
use gemini_marketplace::domain::{Extension, ExtensionId, InstallStatus, ValidationSummary};
use gemini_marketplace::error::MarketplaceError;
use gemini_marketplace::locator::Url;
use gemini_marketplace::time::{TimeSpan, Timestamp};
use gemini_marketplace::version::Version;

fn ext(slug: &str, checksum: &str) -> Extension {
    let url = match Url::parse("https://github.com/example/awesome") {
        Ok(u) => u,
        Err(e) => panic!("{e}"),
    };
    let version = match Version::parse("1.0.0") {
        Ok(v) => v,
        Err(e) => panic!("{e}"),
    };
    let mut e = Extension::new(
        ExtensionId::new("curated", slug),
        "Awesome",
        "Great",
        url,
        version,
        "Dev",
        "curated",
        &["cli"],
        &[],
        InstallStatus::Unknown,
        None,
        ValidationSummary::new_pending(Timestamp::unix_epoch()),
        ".",
        Some("README".to_string()),
    );
    e.manifest_checksum = checksum.to_string();
    e
}

#[test]
fn paths_follow_the_layout() {
    let store = CacheStore::new(&Config::from_base_path("/tmp/m"));
    assert_eq!(store.root(), "/tmp/m/cache");
    assert_eq!(store.cache_path("curated"), "/tmp/m/cache/curated.json");
    assert_eq!(store.batch_path("curated", 0), "/tmp/m/cache/curated/batch-000.json");
    assert_eq!(CacheStore::for_root("/c").batch_path("x", 1234), "/c/x/batch-1234.json");
    assert_eq!(batch_label("curated", 0), "curated/batch-000.json");
}

#[test]
fn saved_payload_carries_ttl_and_reads_back() {
    let now = Timestamp::from_unix_secs(120);
    let file = stamp_payload("curated", vec![ext("awesome", "")], Some("etag-123".to_string()), TimeSpan::from_secs(3600), now)
        .expect("stamped");
    assert_eq!(file.fetched_at, now);
    assert_eq!(file.expires_at, Timestamp::from_unix_secs(3720));
    assert_eq!(file.extensions[0].cache_expires_at, Some(Timestamp::from_unix_secs(3720)));
    assert_eq!(file.extensions[0].last_synced_at, Some(now));
    let encoded = vec![Ok(b"{}".to_vec())];
    let snap = snapshot_from_file("curated", 0, "/c/curated/batch-000.json", file, &encoded).expect("snapshot");
    assert_eq!(snap.entry.etag, Some("etag-123".to_string()));
    assert_eq!(snap.entry.payload_path, "/c/curated/batch-000.json");
    assert_eq!(
        snap.entry.manifest_checksum,
        "44136fa355b3678a1146ad16f7e8649e94fb4fc21fe77e8310c060f61caaff8a"
    );
    assert_eq!(snap.entry.extension_ids[0].0, "curated/awesome");
    assert!(snap.entry.expires_at > snap.entry.fetched_at);
    assert_eq!(snap.extensions[0].readme_excerpt, Some("README".to_string()));
}

#[test]
fn checksums_kept_joined_and_failures_reported() {
    let exts = vec![ext("a", "one"), ext("b", "two")];
    let (out, sums) = ensure_manifest_checksums(exts, &vec![Err("x".to_string()), Err("y".to_string())], "ctx")
        .expect("nothing to compute");
    assert_eq!(sums, vec!["one".to_string(), "two".to_string()]);
    assert_eq!(out[1].manifest_checksum, "two");
    let err = ensure_manifest_checksums(vec![ext("a", "one"), ext("b", "")], &vec![Ok(Vec::new()), Err("boom".to_string())], "ctx")
        .expect_err("cannot encode");
    match err {
        MarketplaceError::InvalidManifest { repository, reason } => {
            assert_eq!(repository, "ctx");
            assert_eq!(reason, "unable to serialize extension for checksum: boom");
        }
        other => panic!("unexpected {other:?}"),
    }
    let file = stamp_payload("c", vec![ext("a", "s1"), ext("b", "s2")], None, TimeSpan::zero(), Timestamp::unix_epoch()).expect("ok");
    let snap = snapshot_from_file("c", 3, "/p", file, &vec![Ok(Vec::new()), Ok(Vec::new())]).expect("snapshot");
    assert_eq!(snap.entry.manifest_checksum, "s1;s2");
    assert_eq!(snap.entry.batch_index, 3);
}

#[test]
fn overflowing_ttl_is_a_configuration_error() {
    let now = match Timestamp::from_unix_nanos(9_223_372_036_854_775_807_999_999_999) {
        Some(t) => t,
        None => panic!("in range"),
    };
    let err = stamp_payload("curated", Vec::new(), None, TimeSpan::from_secs(1), now).expect_err("overflow");
    assert_eq!(
        err.message(),
        "configuration error: Cache TTL overflow for source 'curated': TTL duration too large"
    );
}

fn sample_extension(source: &str, slug: &str) -> Extension {
    let url = match Url::parse("https://example.com/foo") {
        Ok(u) => u,
        Err(e) => panic!("{e}"),
    };
    let version = match Version::parse("1.0.0") {
        Ok(v) => v,
        Err(e) => panic!("{e}"),
    };
    Extension::new(
        ExtensionId::new(source, slug),
        &format!("{slug} extension"),
        "Great extension for testing",
        url,
        version,
        "Example Author",
        source,
        &["analytics"],
        &["Gemini CLI >=1.0"],
        InstallStatus::NotInstalled,
        Some(Timestamp::unix_epoch()),
        ValidationSummary::new_pending(Timestamp::unix_epoch()),
        &format!("repos/{slug}"),
        Some("README".to_string()),
    )
}

fn save_and_load(store: &CacheStore, slug: &str, index: u32, extensions: Vec<Extension>, etag: Option<String>, ttl: TimeSpan) -> gemini_marketplace::cache::CacheSnapshot {
    let file = stamp_payload(slug, extensions, etag, ttl, Timestamp::now()).expect("save batch");
    let encoded: Vec<Result<Vec<u8>, String>> = file.extensions.iter().map(|e| Ok(e.display_name.as_bytes().to_vec())).collect();
    let path = store.batch_path(slug, index);
    snapshot_from_file(slug, index, &path, file, &encoded).expect("load batch")
}

#[test]
fn save_batch_persists_ttl_and_metadata() {
    let store = CacheStore::for_root("/tmp/marketplace-test/cache");
    let extension = sample_extension("curated", "awesome");
    let ttl = TimeSpan::from_secs(120);

    let snapshot = save_and_load(&store, "curated", 0, vec![extension], Some("etag-123".into()), ttl);

    assert_eq!(snapshot.entry.source_slug, "curated");
    assert_eq!(snapshot.entry.batch_index, 0);
    let ttl_diff = snapshot.entry.expires_at.duration_since(snapshot.entry.fetched_at).expect("expires after fetched");
    assert!((ttl_diff.as_secs() as f64 - ttl.as_secs() as f64).abs() < 1.0);
    assert_eq!(snapshot.entry.etag.as_deref(), Some("etag-123"));
    assert!(snapshot.entry.payload_path.ends_with("curated/batch-000.json"));
    assert_eq!(snapshot.extensions.len(), 1);
    let loaded = &snapshot.extensions[0];
    assert_eq!(loaded.readme_excerpt.as_deref(), Some("README"));
    assert_eq!(loaded.cache_expires_at, Some(snapshot.entry.expires_at));
    assert_eq!(loaded.last_synced_at, Some(snapshot.entry.fetched_at));
}

#[test]
fn save_multiple_batches_produces_independent_cache_files() {
    let store = CacheStore::for_root("/tmp/marketplace-test/cache");
    let ext_a = sample_extension("curated", "awesome");
    let ext_b = sample_extension("curated", "beta");

    let first = save_and_load(&store, "curated", 0, vec![ext_a], None, TimeSpan::from_secs(60));
    let second = save_and_load(&store, "curated", 1, vec![ext_b], None, TimeSpan::from_secs(60));

    assert_ne!(first.entry.payload_path, second.entry.payload_path);
    assert_eq!(first.entry.batch_index, 0);
    assert_eq!(second.entry.batch_index, 1);
    assert_eq!(first.extensions[0].extension_slug, "awesome");
    assert_eq!(second.extensions[0].extension_slug, "beta");
}
