use gemini_marketplace::catalog::{ListEntry, ListResponse};
use gemini_marketplace::commands::{
    derive_slug, infer_source_type, list_options_for_search, list_request_for_options, pad, render_sources,
    render_table, source_for_url, source_type_label, SearchOptions,
};
use gemini_marketplace::catalog::default_sources;
use gemini_marketplace::domain::{SearchMode, SourceType};
use gemini_marketplace::locator::Url;

fn url(text: &str) -> Url {
    match Url::parse(text) {
        Ok(u) => u,
        Err(e) => panic!("{e}"),
    }
}

fn entry(source: &str, name: &str) -> ListEntry {
    ListEntry {
        namespace: format!("{source}/{name}"),
        display_name: name.to_string(),
        description: format!("{name} description"),
        version: "1.0.0".to_string(),
        source: source.to_string(),
        installed: false,
        categories: Vec::new(),
        tags: Vec::new(),
    }
}

#[test]
fn search_is_a_filtered_listing() {
    let opts = list_options_for_search(SearchOptions { keyword: Some("analytics".to_string()), json: true, ..SearchOptions::default() });
    assert_eq!(opts.search, Some("analytics".to_string()));
    assert!(opts.json);
    let request = list_request_for_options(&opts, SearchMode::PreFetchFilter);
    assert_eq!(request.search, Some("analytics"));
    assert!(request.prefetch_filter);
    assert!(!list_request_for_options(&opts, SearchMode::LocalFilter).prefetch_filter);
}

#[test]
fn table_groups_rows_by_source() {
    let response = ListResponse {
        entries: vec![entry("zeta", "one"), entry("alpha", "two"), entry("zeta", "three")],
        page: 1,
        total_pages: 1,
        total_entries: 3,
        page_size: 25,
        used_cached_data: true,
        warnings: Vec::new(),
    };
    let lines = render_table(&response);
    let dashes = "-".repeat(80);
    let mut expected = vec![
        "Page 1 of 1 (showing 3 of 3 extensions)".to_string(),
        "Note: using cached data while sources refresh.".to_string(),
        "Source: alpha".to_string(),
        format!("{:<40} {}", "Extension", "Description"),
        dashes.clone(),
        format!("{:<40} {}", "two (1.0.0)", "two description"),
        String::new(),
        "Source: zeta".to_string(),
        format!("{:<40} {}", "Extension", "Description"),
        dashes,
    ];
    expected.push(format!("{:<40} {}", "one (1.0.0)", "one description"));
    expected.push(format!("{:<40} {}", "three (1.0.0)", "three description"));
    expected.push(String::new());
    assert_eq!(lines, expected);
    let empty = render_table(&ListResponse { page: 1, total_pages: 1, ..ListResponse::default() });
    assert_eq!(empty, vec!["Page 1 of 1 (showing 0 of 0 extensions)".to_string(), "No extensions found.".to_string()]);
    assert_eq!(pad("abc", 5), "abc  ");
    assert_eq!(pad("abcdef", 3), "abcdef");
}

#[test]
fn slugs_come_from_the_path_or_the_host() {
    assert_eq!(derive_slug(&url("https://github.com/Example/Repo.git")), Ok("repo".to_string()));
    assert_eq!(derive_slug(&url("https://github.com/org/tools.git.git/")), Ok("tools".to_string()));
    assert_eq!(derive_slug(&url("https://Example.COM")), Ok("example-com".to_string()));
    assert_eq!(derive_slug(&url("mailto:someone")), Err("unable to derive slug from URL".to_string()));
    assert_eq!(infer_source_type(&url("https://a.b/c")), SourceType::GithubRepo);
    assert_eq!(infer_source_type(&url("git://a.b/c")), SourceType::GitUrl);
    assert_eq!(source_type_label(SourceType::LocalPath), "local_path");
}

#[test]
fn added_sources_are_enabled_with_derived_names() {
    let source = source_for_url(url("https://github.com/example/repo"), None, true).expect("source");
    assert_eq!(source.slug, "repo");
    assert_eq!(source.display_name, "repo");
    assert!(source.enabled && source.requires_auth && !source.default);
    assert_eq!(source.recursion_depth, 5);
    let named = source_for_url(url("https://github.com/example/repo"), Some("Mine".to_string()), false).expect("source");
    assert_eq!(named.display_name, "Mine");
}

#[test]
fn sources_listing_lines() {
    assert_eq!(render_sources(&Vec::new()), vec!["No marketplace sources configured.".to_string()]);
    let sources = default_sources(None).expect("sources");
    let lines = render_sources(&sources);
    assert_eq!(lines[0], "Marketplace Sources:\n");
    assert_eq!(
        lines[1],
        "- athola (Athola Curated)\n  URL: https://raw.githubusercontent.com/athola/gemini-marketplace/main/index.json\n  Enabled: yes\n  Requires Auth: no\n"
    );
}
