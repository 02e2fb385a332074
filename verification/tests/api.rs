use gemini_marketplace::api::{
    extension_list_response, extract_config_context, list_request_from_params, map_error_to_response,
    map_generic_error_to_response, map_marketplace_error_to_response, map_marketplace_error_to_response_at,
    not_implemented_list_response, not_implemented_response, request_id_at, retry_after_from, ErrorDetails,
    HandlerFailure, ListQueryParams,
};
use gemini_marketplace::catalog::{ListEntry, ListResponse};
use gemini_marketplace::error::MarketplaceError;
use gemini_marketplace::time::Timestamp;

#[test]
fn configuration_errors_are_bad_requests_with_context() {
    let err = MarketplaceError::Configuration("Invalid catalog for fatal: configuration error: invalid catalog payload: x".to_string());
    let (status, detail) = map_marketplace_error_to_response_at(&err, Timestamp::unix_epoch());
    assert_eq!(status, 400);
    assert_eq!(detail.code, "CONFIGURATION_ERROR");
    assert_eq!(detail.message, "Configuration error");
    match detail.details {
        Some(ErrorDetails::Configuration { parameter, value }) => {
            assert_eq!(parameter, Some("catalog_url".to_string()));
            assert_eq!(value, Some("invalid".to_string()));
        }
        other => panic!("unexpected {other:?}"),
    }
}

#[test]
fn config_context_recognises_ttl_overflow() {
    assert_eq!(
        extract_config_context("Cache TTL overflow for source 'a': TTL duration too large"),
        (Some("cache_ttl_hours".to_string()), Some("overflow".to_string()))
    );
    assert_eq!(extract_config_context("something else"), (None, None));
}

#[test]
fn not_found_errors_are_404() {
    let (status, detail) = map_marketplace_error_to_response(&MarketplaceError::ExtensionNotFound { id: "athola/missing".to_string() });
    assert_eq!(status, 404);
    assert_eq!(detail.code, "EXTENSION_NOT_FOUND");
    assert_eq!(detail.message, "Extension 'athola/missing' not found");
    let (status, detail) = map_marketplace_error_to_response(&MarketplaceError::SourceNotFound { slug: "x".to_string() });
    assert_eq!(status, 404);
    assert_eq!(detail.message, "Source 'x' not found");
}

#[test]
fn rate_limits_carry_retry_hint() {
    let err = MarketplaceError::RateLimited {
        source_slug: "athola".to_string(),
        reset_at: Some("1970-01-01T00:01:40Z".to_string()),
    };
    let (status, detail) = map_marketplace_error_to_response_at(&err, Timestamp::from_unix_secs(40));
    assert_eq!(status, 429);
    assert_eq!(detail.message, "Rate limit exceeded for source 'athola'");
    match detail.details {
        Some(ErrorDetails::RateLimit { source_slug, reset_at, retry_after }) => {
            assert_eq!(source_slug, "athola");
            assert_eq!(reset_at, Some("1970-01-01T00:01:40Z".to_string()));
            assert_eq!(retry_after, Some(60));
        }
        other => panic!("unexpected {other:?}"),
    }
    let (_, late) = map_marketplace_error_to_response_at(&err, Timestamp::from_unix_secs(500));
    assert!(matches!(late.details, Some(ErrorDetails::RateLimit { retry_after: Some(0), .. })));
    let garbled = MarketplaceError::RateLimited { source_slug: "a".to_string(), reset_at: Some("soon".to_string()) };
    let (_, d) = map_marketplace_error_to_response_at(&garbled, Timestamp::unix_epoch());
    assert!(matches!(d.details, Some(ErrorDetails::RateLimit { retry_after: None, .. })));
}

#[test]
fn retry_after_rounds_down_to_seconds() {
    assert_eq!(retry_after_from(Some((10, 500_000_000)), Timestamp::from_unix_secs(8)), Some(2));
    assert_eq!(retry_after_from(Some((10, 0)), Timestamp::from_unix_secs(10)), Some(0));
    assert_eq!(retry_after_from(None, Timestamp::unix_epoch()), None);
}

#[test]
fn every_kind_of_error_has_its_status() {
    let cases = vec![
        (MarketplaceError::AuthenticationRequired { slug: "s".to_string() }, 401, "AUTHENTICATION_REQUIRED"),
        (
            MarketplaceError::InvalidManifest { repository: "r".to_string(), reason: "bad".to_string() },
            422,
            "INVALID_MANIFEST",
        ),
        (
            MarketplaceError::Network { operation: "op".to_string(), message: "down".to_string(), url: None },
            502,
            "NETWORK_ERROR",
        ),
        (MarketplaceError::Io { path: "/p".to_string(), message: "denied".to_string() }, 500, "IO_ERROR"),
        (MarketplaceError::Todo, 501, "NOT_IMPLEMENTED"),
    ];
    for (err, status, code) in cases {
        let (s, d) = map_marketplace_error_to_response(&err);
        assert_eq!(s, status);
        assert_eq!(d.code, code);
    }
    let (_, d) = map_marketplace_error_to_response(&MarketplaceError::InvalidManifest {
        repository: "r".to_string(),
        reason: "bad".to_string(),
    });
    assert_eq!(d.message, "Invalid manifest for repository 'r': bad");
    match d.details {
        Some(ErrorDetails::Generic { context }) => assert_eq!(
            context,
            vec![("repository".to_string(), "r".to_string()), ("reason".to_string(), "bad".to_string())]
        ),
        other => panic!("unexpected {other:?}"),
    }
}

#[test]
fn generic_failures_are_internal_errors() {
    let (status, detail) = map_generic_error_to_response("kaput");
    assert_eq!(status, 500);
    assert_eq!(detail.code, "INTERNAL_ERROR");
    assert_eq!(detail.message, "An internal error occurred");
    let (status, body) = map_error_to_response(
        &HandlerFailure::Other("kaput".to_string()),
        Some("req-1".to_string()),
        Timestamp::from_unix_secs(86_400),
    );
    assert_eq!(status, 500);
    assert_eq!(body.request_id, Some("req-1".to_string()));
    assert_eq!(body.timestamp, "1970-01-02T00:00:00Z");
}

#[test]
fn request_ids_count_seconds() {
    assert_eq!(request_id_at(Timestamp::from_unix_secs(1234)), "req-1234");
    assert_eq!(request_id_at(Timestamp::unix_epoch()), "req-0");
}

#[test]
fn unimplemented_endpoints_answer_501() {
    let (status, body) = not_implemented_response(Timestamp::unix_epoch());
    assert_eq!(status, 501);
    assert_eq!(body.error.message, "endpoint not yet implemented");
    assert_eq!(body.timestamp, "1970-01-01T00:00:00Z");
    let (status, body) = not_implemented_list_response(Timestamp::unix_epoch());
    assert_eq!(status, 501);
    assert!(body.error.message.starts_with("Extensions API not yet fully initialized"));
}

#[test]
fn listing_answer_copies_entries() {
    let params = ListQueryParams {
        search: Some("ana".to_string()),
        category: None,
        source: Some("athola".to_string()),
        installed_only: true,
        prefetch_filter: false,
    };
    let request = list_request_from_params(&params);
    assert_eq!(request.search, Some("ana"));
    assert_eq!(request.source, Some("athola"));
    assert!(request.installed_only);
    assert_eq!(request.page, None);
    let response = ListResponse {
        entries: vec![ListEntry {
            namespace: "athola/a".to_string(),
            display_name: "A".to_string(),
            description: "d".to_string(),
            version: "1.0.0".to_string(),
            source: "athola".to_string(),
            installed: false,
            categories: vec!["cli".to_string()],
            tags: Vec::new(),
        }],
        warnings: vec!["w".to_string()],
        ..ListResponse::default()
    };
    let answer = extension_list_response(response);
    assert_eq!(answer.extensions.len(), 1);
    assert_eq!(answer.extensions[0].namespace, "athola/a");
    assert_eq!(answer.warnings, vec!["w".to_string()]);
}
