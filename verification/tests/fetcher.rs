use gemini_marketplace::catalog::default_sources;
use gemini_marketplace::domain::{Extension, InstallStatus, MarketplaceSource};
use gemini_marketplace::error::MarketplaceError;
use gemini_marketplace::fetcher::{
    cache_is_fresh, extract_rate_limit, parse_u32, parse_u64, rate_limited_error, reset_printable, ttl_for_hours,
    ResponseHead, SyncAction, SyncEvent, SyncMachine, SyncPhase,
};
use gemini_marketplace::manifest::ManifestFields;
use gemini_marketplace::time::{TimeSpan, Timestamp};

fn source() -> MarketplaceSource {
    let mut sources = default_sources(Some("http://127.0.0.1:9/index.json".to_string())).expect("sources");
    sources.remove(0)
}

fn head(status: u16) -> ResponseHead {
    ResponseHead { status, reset_header: None, remaining_header: None, etag: None }
}

fn fields(name: &str) -> ManifestFields {
    ManifestFields {
        name: name.to_string(),
        display_name: None,
        description: "Demo extension".to_string(),
        repository: "https://github.com/example/demo".to_string(),
        homepage: None,
        documentation: None,
        version: "1.0.0".to_string(),
        author: Some("Example".to_string()),
        license: None,
        categories: vec!["utility".to_string()],
        tags: vec!["tool".to_string()],
        compatibility: vec!["cli>=1.0".to_string()],
        readme: Some("# Demo".to_string()),
    }
}

#[test]
fn parses_numbers_like_std() {
    assert_eq!(parse_u64("9999999999"), Some(9_999_999_999));
    assert_eq!(parse_u64("+12"), Some(12));
    assert_eq!(parse_u64("18446744073709551615"), Some(u64::MAX));
    assert_eq!(parse_u64("18446744073709551616"), None);
    assert_eq!(parse_u64(""), None);
    assert_eq!(parse_u64("+"), None);
    assert_eq!(parse_u64("-1"), None);
    assert_eq!(parse_u64("12a"), None);
    assert_eq!(parse_u32("4294967295"), Some(u32::MAX));
    assert_eq!(parse_u32("4294967296"), None);
    for n in [0u64, 7, 10, 12345, u64::MAX] {
        assert_eq!(parse_u64(&n.to_string()), Some(n));
    }
}

#[test]
fn rate_limit_headers_become_a_window() {
    let window = extract_rate_limit("athola", &Some("60".to_string()), &Some("0".to_string()));
    assert_eq!(window.reset_at, Some(Timestamp::from_unix_secs(60)));
    assert_eq!(window.remaining_requests, Some(0));
    assert_eq!(window.limit, None);
    let blank = extract_rate_limit("athola", &Some("soon".to_string()), &None);
    assert_eq!(blank.reset_at, None);
    assert!(reset_printable(&Some("9999999999".to_string())));
    assert!(!reset_printable(&Some("253402300800".to_string())));
    match rate_limited_error("athola", &Some("9999999999".to_string())) {
        MarketplaceError::RateLimited { source_slug, reset_at } => {
            assert_eq!(source_slug, "athola");
            assert_eq!(reset_at, Some("2286-11-20T17:46:39Z".to_string()));
        }
        other => panic!("unexpected {other:?}"),
    }
}

#[test]
fn fresh_cache_is_served_without_fetching() {
    let mut machine = SyncMachine::new(source(), ttl_for_hours(24));
    assert!(matches!(machine.step(SyncEvent::Begin), SyncAction::LoadCache));
    let action = machine.step(SyncEvent::CacheLoaded {
        snapshot: Ok(Some((Timestamp::from_unix_secs(100), Vec::new()))),
        now: Timestamp::from_unix_secs(50),
    });
    assert!(matches!(action, SyncAction::Finish(Ok(ref v)) if v.is_empty()));
    assert_eq!(machine.phase(), SyncPhase::Done);
    assert!(cache_is_fresh(Timestamp::from_unix_secs(100), Timestamp::from_unix_secs(99)));
    assert!(!cache_is_fresh(Timestamp::from_unix_secs(100), Timestamp::from_unix_secs(100)));
}

#[test]
fn forbidden_catalog_reports_rate_limit() {
    let mut machine = SyncMachine::new(source(), ttl_for_hours(24));
    machine.step(SyncEvent::Begin);
    let action = machine.step(SyncEvent::CacheLoaded { snapshot: Ok(None), now: Timestamp::unix_epoch() });
    match action {
        SyncAction::FetchCatalog { url } => assert_eq!(url, "http://127.0.0.1:9/index.json"),
        other => panic!("unexpected {other:?}"),
    }
    let mut forbidden = head(403);
    forbidden.reset_header = Some("9999999999".to_string());
    match machine.step(SyncEvent::Responded(Ok(forbidden))) {
        SyncAction::Finish(Err(MarketplaceError::RateLimited { source_slug, .. })) => assert_eq!(source_slug, "athola"),
        other => panic!("unexpected {other:?}"),
    }
}

#[test]
fn catalog_and_manifests_become_cached_extensions() {
    let mut machine = SyncMachine::new(source(), ttl_for_hours(24));
    machine.step(SyncEvent::Begin);
    machine.step(SyncEvent::CacheLoaded { snapshot: Ok(None), now: Timestamp::unix_epoch() });
    let mut ok = head(200);
    ok.etag = Some("etag-1".to_string());
    assert!(matches!(machine.step(SyncEvent::Responded(Ok(ok))), SyncAction::ReadBody));
    assert!(matches!(
        machine.step(SyncEvent::BodyRead(Ok("[\"m1\"]".to_string()))),
        SyncAction::ParseCatalog { .. }
    ));
    match machine.step(SyncEvent::CatalogParsed(Ok(vec!["http://h/m1.json".to_string()]))) {
        SyncAction::FetchManifest { url } => assert_eq!(url, "http://h/m1.json"),
        other => panic!("unexpected {other:?}"),
    }
    assert!(matches!(machine.step(SyncEvent::Responded(Ok(head(200)))), SyncAction::ReadBody));
    assert!(matches!(
        machine.step(SyncEvent::BodyRead(Ok("{}".to_string()))),
        SyncAction::DecodeManifest { .. }
    ));
    let now = Timestamp::from_unix_secs(1_000);
    match machine.step(SyncEvent::ManifestDecoded { fields: Ok(fields("demo")), now }) {
        SyncAction::SaveCache { etag, ttl } => {
            assert_eq!(etag, Some("etag-1".to_string()));
            assert_eq!(ttl, TimeSpan::from_secs(24 * 3600));
        }
        other => panic!("unexpected {other:?}"),
    }
    let saved: &Vec<Extension> = machine.extensions();
    assert_eq!(saved.len(), 1);
    let ext = &saved[0];
    assert_eq!(ext.id.0, "athola/demo");
    assert_eq!(ext.display_name, "demo");
    assert_eq!(ext.author, "Example");
    assert_eq!(ext.install_status, InstallStatus::Unknown);
    assert_eq!(
        ext.manifest_checksum,
        "44136fa355b3678a1146ad16f7e8649e94fb4fc21fe77e8310c060f61caaff8a"
    );
    assert_eq!(ext.cache_expires_at, Some(now.add(TimeSpan::from_secs(24 * 3600))));
    assert_eq!(ext.manifest_path, Some(".".to_string()));
    match machine.step(SyncEvent::CacheSaved(Ok(()))) {
        SyncAction::Finish(Ok(exts)) => assert_eq!(exts.len(), 1),
        other => panic!("unexpected {other:?}"),
    }
}

#[test]
fn failures_become_errors() {
    let mut machine = SyncMachine::new(source(), ttl_for_hours(1));
    machine.step(SyncEvent::Begin);
    machine.step(SyncEvent::CacheLoaded { snapshot: Ok(None), now: Timestamp::unix_epoch() });
    match machine.step(SyncEvent::Responded(Err("refused".to_string()))) {
        SyncAction::Finish(Err(MarketplaceError::Network { operation, message, url })) => {
            assert_eq!(operation, "catalog_fetch");
            assert_eq!(message, "refused");
            assert_eq!(url, Some("http://127.0.0.1:9/index.json".to_string()));
        }
        other => panic!("unexpected {other:?}"),
    }

    let mut machine = SyncMachine::new(source(), ttl_for_hours(1));
    machine.step(SyncEvent::Begin);
    machine.step(SyncEvent::CacheLoaded { snapshot: Ok(None), now: Timestamp::unix_epoch() });
    machine.step(SyncEvent::Responded(Ok(head(200))));
    machine.step(SyncEvent::BodyRead(Ok("not json".to_string())));
    match machine.step(SyncEvent::CatalogParsed(Err("expected value".to_string()))) {
        SyncAction::Finish(Err(err)) => assert_eq!(
            err.message(),
            "configuration error: Invalid catalog for athola: configuration error: invalid catalog payload: expected value"
        ),
        other => panic!("unexpected {other:?}"),
    }
}

#[test]
fn forbidden_manifest_waits_then_reports() {
    let mut machine = SyncMachine::new(source(), ttl_for_hours(1));
    machine.step(SyncEvent::Begin);
    machine.step(SyncEvent::CacheLoaded { snapshot: Ok(None), now: Timestamp::unix_epoch() });
    machine.step(SyncEvent::Responded(Ok(head(200))));
    machine.step(SyncEvent::BodyRead(Ok("[]".to_string())));
    machine.step(SyncEvent::CatalogParsed(Ok(vec!["http://h/a.json".to_string()])));
    assert!(matches!(machine.step(SyncEvent::Responded(Ok(head(403)))), SyncAction::Wait { seconds: 5 }));
    assert!(matches!(
        machine.step(SyncEvent::Waited),
        SyncAction::Finish(Err(MarketplaceError::RateLimited { reset_at: None, .. }))
    ));
}

#[test]
fn empty_catalog_saves_nothing() {
    let mut machine = SyncMachine::new(source(), ttl_for_hours(1));
    machine.step(SyncEvent::Begin);
    machine.step(SyncEvent::CacheLoaded { snapshot: Ok(None), now: Timestamp::unix_epoch() });
    machine.step(SyncEvent::Responded(Ok(head(200))));
    machine.step(SyncEvent::BodyRead(Ok("[]".to_string())));
    assert!(matches!(
        machine.step(SyncEvent::CatalogParsed(Ok(Vec::new()))),
        SyncAction::SaveCache { etag: None, .. }
    ));
    let err = MarketplaceError::Io { path: "/c".to_string(), message: "full".to_string() };
    assert!(matches!(machine.step(SyncEvent::CacheSaved(Err(err))), SyncAction::Finish(Err(MarketplaceError::Io { .. }))));
}

fn decoding_machine(ttl: TimeSpan) -> SyncMachine {
    let mut machine = SyncMachine::new(source(), ttl);
    machine.step(SyncEvent::Begin);
    machine.step(SyncEvent::CacheLoaded { snapshot: Ok(None), now: Timestamp::unix_epoch() });
    machine.step(SyncEvent::Responded(Ok(head(200))));
    machine.step(SyncEvent::BodyRead(Ok("[\"m1\"]".to_string())));
    machine.step(SyncEvent::CatalogParsed(Ok(vec!["http://h/m1.json".to_string(), "http://h/m2.json".to_string()])));
    machine.step(SyncEvent::Responded(Ok(head(200))));
    machine.step(SyncEvent::BodyRead(Ok("{}".to_string())));
    machine
}

#[test]
fn decoded_manifest_fails_only_on_bad_fields_or_ttl_overflow() {
    let mut machine = decoding_machine(ttl_for_hours(1));
    let mut bad = fields("demo");
    bad.version = "one".to_string();
    match machine.step(SyncEvent::ManifestDecoded { fields: Ok(bad), now: Timestamp::unix_epoch() }) {
        SyncAction::Finish(Err(MarketplaceError::InvalidManifest { repository, reason })) => {
            assert_eq!(repository, "http://h/m1.json");
            assert!(reason.starts_with("invalid JSON: invalid SemVer one: "));
        }
        other => panic!("unexpected {other:?}"),
    }

    let mut machine = decoding_machine(ttl_for_hours(1));
    let late = Timestamp::from_unix_secs(9_223_372_036_854_775_807);
    match machine.step(SyncEvent::ManifestDecoded { fields: Ok(fields("demo")), now: late }) {
        SyncAction::Finish(Err(MarketplaceError::Configuration(m))) => assert!(m.contains("athola")),
        other => panic!("unexpected {other:?}"),
    }

    let mut machine = decoding_machine(ttl_for_hours(1));
    match machine.step(SyncEvent::ManifestDecoded { fields: Ok(fields("demo")), now: Timestamp::unix_epoch() }) {
        SyncAction::FetchManifest { url } => assert_eq!(url, "http://h/m2.json"),
        other => panic!("unexpected {other:?}"),
    }
    assert_eq!(machine.extensions().len(), 1);
    assert_eq!(machine.phase(), SyncPhase::FetchingManifest);
}
