use gemini_marketplace::catalog::{
    default_preferences, default_sources, fallback_warning, filter_entries, list_from_results, make_entries,
    resolve_failed_fetch, FetchResult, ListEntry, ListRequest, SourceFetch,
};
use gemini_marketplace::domain::{Extension, ExtensionId, InstallStatus, ValidationSummary};
use gemini_marketplace::error::MarketplaceError;
use gemini_marketplace::locator::Url;
use gemini_marketplace::time::Timestamp;
use gemini_marketplace::version::Version;

fn extension(slug: &str, name: &str, description: &str, categories: &[&str]) -> Extension {
    let url = match Url::parse("https://github.com/example/x") {
        Ok(u) => u,
        Err(e) => panic!("{e}"),
    };
    let version = match Version::parse("1.0.0") {
        Ok(v) => v,
        Err(e) => panic!("{e}"),
    };
    Extension::new(
        ExtensionId::new("athola", slug),
        name,
        description,
        url,
        version,
        "Example",
        "athola",
        categories,
        &[],
        InstallStatus::NotInstalled,
        None,
        ValidationSummary::new_pending(Timestamp::unix_epoch()),
        ".",
        None,
    )
}

fn sample() -> Vec<Extension> {
    vec![
        extension("storage", "Storage Helper", "Manage storage buckets", &["Infrastructure"]),
        extension("analytics", "Analytics Toolkit", "Tools for analytics workflows", &["Data Science"]),
    ]
}

#[test]
fn listing_filters_sorts_and_pages() {
    let results = vec![SourceFetch { source_slug: "athola".to_string(), result: FetchResult::Fresh(sample()) }];
    let response = list_from_results(results, &ListRequest::default());
    let names: Vec<&str> = response.entries.iter().map(|e| e.namespace.as_str()).collect();
    assert_eq!(names, vec!["athola/analytics", "athola/storage"]);
    assert_eq!(response.total_entries, 2);
    assert_eq!(response.total_pages, 1);
    assert_eq!(response.page, 1);
    assert_eq!(response.page_size, 25);
    assert!(!response.used_cached_data);

    let request = ListRequest { category: Some("infrastructure"), ..ListRequest::default() };
    let results = vec![SourceFetch { source_slug: "athola".to_string(), result: FetchResult::Fresh(sample()) }];
    let filtered = list_from_results(results, &request);
    assert_eq!(filtered.entries.len(), 1);
    assert_eq!(filtered.entries[0].namespace, "athola/storage");

    let request = ListRequest { source: Some("ath"), ..ListRequest::default() };
    let none = filter_entries(make_entries("athola", sample()), &request);
    assert!(none.is_empty());
    let request = ListRequest { search: Some("ANALYTICS"), ..ListRequest::default() };
    let found: Vec<ListEntry> = filter_entries(make_entries("athola", sample()), &request);
    assert_eq!(found.len(), 1);
    assert_eq!(found[0].display_name, "Analytics Toolkit");
}

#[test]
fn paging_clamps_to_existing_pages() {
    let results = vec![SourceFetch { source_slug: "athola".to_string(), result: FetchResult::Fresh(sample()) }];
    let request = ListRequest { page: Some(9), page_size: Some(1), ..ListRequest::default() };
    let response = list_from_results(results, &request);
    assert_eq!(response.total_pages, 2);
    assert_eq!(response.page, 2);
    assert_eq!(response.entries.len(), 1);
    assert_eq!(response.entries[0].namespace, "athola/storage");
    let results = vec![SourceFetch { source_slug: "athola".to_string(), result: FetchResult::Fresh(Vec::new()) }];
    let request = ListRequest { page: Some(0), page_size: Some(0), ..ListRequest::default() };
    let empty = list_from_results(results, &request);
    assert_eq!((empty.page, empty.page_size, empty.total_pages), (1, 1, 1));
}

#[test]
fn rate_limited_sources_fall_back_to_cache() {
    let err = MarketplaceError::RateLimited {
        source_slug: "athola".to_string(),
        reset_at: Some("2030-01-01T00:00:00Z".to_string()),
    };
    assert_eq!(
        fallback_warning("athola", &err),
        Some("Source athola is rate limited (resets at 2030-01-01T00:00:00Z)".to_string())
    );
    let fetched = resolve_failed_fetch("athola", err, Ok(Some(sample()))).expect("cached data");
    let results = vec![SourceFetch { source_slug: "athola".to_string(), result: fetched }];
    let response = list_from_results(results, &ListRequest::default());
    assert!(response.used_cached_data);
    assert_eq!(
        response.warnings,
        vec!["Source athola is rate limited (resets at 2030-01-01T00:00:00Z)".to_string()]
    );
    assert_eq!(response.entries.len(), 2);

    let err = MarketplaceError::Network { operation: "catalog_fetch".to_string(), message: "down".to_string(), url: None };
    assert!(matches!(resolve_failed_fetch("athola", err, Ok(None)), Err(MarketplaceError::Network { .. })));
    let other = MarketplaceError::Configuration("bad".to_string());
    assert!(matches!(
        resolve_failed_fetch("athola", other, Ok(Some(sample()))),
        Err(MarketplaceError::Configuration(_))
    ));
}

#[test]
fn defaults_point_at_the_curated_catalog() {
    let sources = default_sources(None).expect("sources");
    assert_eq!(sources.len(), 1);
    assert_eq!(sources[0].slug, "athola");
    assert!(sources[0].default && sources[0].enabled);
    let custom = default_sources(Some("http://127.0.0.1:1/index.json".to_string())).expect("sources");
    assert_eq!(custom[0].url.as_str(), "http://127.0.0.1:1/index.json");
    let bad = default_sources(Some("not a url".to_string())).expect("sources");
    assert_eq!(bad[0].url.as_str(), "https://raw.githubusercontent.com/athola/gemini-marketplace/main/index.json");
    assert_eq!(default_preferences().cache_ttl_hours(), 24);
}

#[test]
fn huge_page_size_pages_the_filtered_entries() {
    let results = vec![SourceFetch { source_slug: "athola".to_string(), result: FetchResult::Fresh(sample()) }];
    let request = ListRequest { search: Some("analytics"), page_size: Some(usize::MAX), ..ListRequest::default() };
    let response = list_from_results(results, &request);
    assert_eq!(response.total_entries, 1);
    assert_eq!(response.total_pages, 1);
    assert_eq!(response.page_size, usize::MAX);
    assert_eq!(response.entries[0].namespace, "athola/analytics");
}

#[test]
fn source_filter_keeps_every_entry_of_the_source() {
    let results = vec![SourceFetch { source_slug: "athola".to_string(), result: FetchResult::Fresh(sample()) }];
    let request = ListRequest { source: Some("athola"), ..ListRequest::default() };
    let response = list_from_results(results, &request);
    let names: Vec<&str> = response.entries.iter().map(|e| e.namespace.as_str()).collect();
    assert_eq!(names, vec!["athola/analytics", "athola/storage"]);
}
