use gemini_marketplace::catalog::{default_sources, resolve_failed_fetch, FetchResult};
use gemini_marketplace::domain::{Extension, ExtensionId, InstallStatus, ValidationSummary};
use gemini_marketplace::error::MarketplaceError;
use gemini_marketplace::locator::Url;
use gemini_marketplace::show::{failure_note, find_extension, find_source, may_use_cache, outcome_of, parse_id, render_show};
use gemini_marketplace::time::Timestamp;
use gemini_marketplace::version::Version;

fn alpha() -> Extension {
    let url = match Url::parse("https://github.com/example/alpha") {
        Ok(u) => u,
        Err(e) => panic!("{e}"),
    };
    let version = match Version::parse("1.0.0") {
        Ok(v) => v,
        Err(e) => panic!("{e}"),
    };
    Extension::new(
        ExtensionId::new("athola", "alpha"),
        "alpha Extension",
        "Alpha does things",
        url,
        version,
        "Example",
        "athola",
        &["cli", "data"],
        &[],
        InstallStatus::Unknown,
        None,
        ValidationSummary::new_pending(Timestamp::unix_epoch()),
        ".",
        Some("# Alpha".to_string()),
    )
}

#[test]
fn ids_split_into_source_and_extension() {
    assert_eq!(parse_id(" athola / alpha ").ok(), Some(("athola".to_string(), "alpha".to_string())));
    assert_eq!(parse_id("a/b/c").ok(), Some(("a".to_string(), "b/c".to_string())));
    for bad in ["athola", "athola/", "/alpha", ""] {
        match parse_id(bad) {
            Err(MarketplaceError::Configuration(m)) => {
                assert_eq!(m, format!("invalid extension id '{bad}', expected SOURCE/EXTENSION"))
            }
            other => panic!("unexpected {other:?}"),
        }
    }
}

#[test]
fn unknown_extension_is_not_found() {
    let exts = vec![alpha()];
    assert_eq!(find_extension(&exts, "alpha", "athola/alpha").ok(), Some(0));
    assert_eq!(find_extension(&exts, "x", "athola/alpha").ok(), Some(0));
    match find_extension(&exts, "missing", "athola/missing") {
        Err(err) => assert_eq!(err.message(), "extension not found: athola/missing"),
        Ok(i) => panic!("found {i}"),
    }
    let sources = default_sources(None).expect("sources");
    assert_eq!(find_source(&sources, "athola").ok(), Some(0));
    assert!(matches!(find_source(&sources, "nope"), Err(MarketplaceError::SourceNotFound { .. })));
}

#[test]
fn description_lines_and_warnings() {
    let ext = alpha();
    let fetched = resolve_failed_fetch(
        "athola",
        MarketplaceError::RateLimited { source_slug: "athola".to_string(), reset_at: None },
        Ok(Some(vec![alpha()])),
    )
    .expect("cached");
    let outcome = outcome_of(fetched);
    assert!(outcome.used_cached_data);
    let (errs, out) = render_show(&ext, &outcome);
    assert_eq!(errs, vec!["warning: Source athola is rate limited".to_string()]);
    assert_eq!(
        out,
        vec![
            "Extension: alpha Extension (1.0.0)".to_string(),
            "Namespace: athola/alpha".to_string(),
            "Source: athola".to_string(),
            "Author: Example".to_string(),
            "Description: Alpha does things".to_string(),
            "Repository: https://github.com/example/alpha".to_string(),
            "Categories: cli, data".to_string(),
            "Note: using cached data while sources refresh.".to_string(),
            "\nREADME (excerpt):\n# Alpha".to_string(),
        ]
    );
    let fresh = outcome_of(FetchResult::Fresh(vec![alpha()]));
    assert!(!fresh.used_cached_data && fresh.warnings.is_empty());
}

#[test]
fn failures_are_noted_for_the_status_store() {
    let net = MarketplaceError::Network {
        operation: "catalog_fetch".to_string(),
        message: "refused".to_string(),
        url: Some("http://x".to_string()),
    };
    assert!(may_use_cache("athola", &net));
    assert_eq!(failure_note("athola", &net), "Network error for athola during catalog_fetch: refused (http://x)");
    let other = MarketplaceError::Todo;
    assert!(!may_use_cache("athola", &other));
    assert_eq!(failure_note("athola", &other), "operation not yet implemented");
}
