use gemini_marketplace::config::Config;
use gemini_marketplace::domain::{MarketplaceSource, SourceType};
use gemini_marketplace::locator::Url;
use gemini_marketplace::sources::{RegistryError, SourcesService};

fn custom_source() -> MarketplaceSource {
    let url = match Url::parse("https://example.com/org/repo") {
        Ok(u) => u,
        Err(e) => panic!("{e}"),
    };
    MarketplaceSource::new("custom", "Custom", url, SourceType::GithubRepo, true, 5)
}

#[test]
fn new_service_bootstraps_default_source() {
    let service = SourcesService::new(Config::from_base_path("/tmp/m"), None).expect("service init");
    let sources = service.list_sources();
    assert!(
        sources.iter().any(|s| s.slug == "athola"),
        "expected default curated source present"
    );
}

#[test]
fn add_source_persists_across_service_instances() {
    let mut service = SourcesService::new(Config::from_base_path("/tmp/m"), None).expect("service init");
    service.add_source(custom_source()).expect("add source");
    let stored = service.list_sources();
    let reloaded = SourcesService::new(Config::from_base_path("/tmp/m"), Some(stored)).expect("service re-init");
    let sources = reloaded.list_sources();
    assert!(sources.iter().any(|s| s.slug == "custom"), "expected custom source persisted");
}

#[test]
fn duplicate_slug_is_refused() {
    let mut service = SourcesService::new(Config::from_base_path("/tmp/m"), None).expect("init");
    service.add_source(custom_source()).expect("first add");
    let err = service.add_source(custom_source()).expect_err("duplicate");
    assert_eq!(err, RegistryError::DuplicateSlug { slug: "custom".to_string() });
    assert_eq!(err.message(), "Source with slug 'custom' already exists");
    assert_eq!(service.list_sources().len(), 2);
}

#[test]
fn default_source_cannot_be_removed_but_can_be_disabled() {
    let mut service = SourcesService::new(Config::from_base_path("/tmp/m"), None).expect("init");
    assert_eq!(service.remove_source("athola"), Err(RegistryError::DefaultNotRemovable));
    service.disable_source("athola").expect("disable");
    assert!(!service.list_sources()[0].enabled);
    service.enable_source("athola").expect("enable");
    assert!(service.list_sources()[0].enabled);
    assert_eq!(service.get_default_source().map(|s| s.slug), Ok("athola".to_string()));
}

#[test]
fn removing_custom_source_keeps_default() {
    let mut service = SourcesService::new(Config::from_base_path("/tmp/m"), None).expect("init");
    service.add_source(custom_source()).expect("add");
    service.remove_source("custom").expect("remove");
    let slugs: Vec<String> = service.list_sources().into_iter().map(|s| s.slug).collect();
    assert_eq!(slugs, vec!["athola".to_string()]);
    assert_eq!(
        service.remove_source("custom"),
        Err(RegistryError::NotFound { slug: "custom".to_string() })
    );
    assert_eq!(service.sources_path(), "/tmp/m/config/sources.json");
}

#[test]
fn registry_without_default_reports_it() {
    let service = SourcesService::new(Config::from_base_path("/tmp/m"), Some(vec![custom_source()])).expect("init");
    assert_eq!(service.get_default_source().map(|s| s.slug), Err(RegistryError::NoDefault));
}
