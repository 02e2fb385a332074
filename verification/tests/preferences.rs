use gemini_marketplace::config::Config;
use gemini_marketplace::domain::{OutputFormat, SearchMode, UserPreferences};
use gemini_marketplace::preferences::PreferencesService;

#[test]
fn preferences_service_exposes_fields() {
    let prefs = UserPreferences {
        cache_ttl_hours: 12,
        auto_refresh_on_launch: true,
        search_mode: SearchMode::PreFetchFilter,
        output_format: OutputFormat::Json,
    };
    let service = PreferencesService::new(prefs.clone());

    assert_eq!(service.cache_ttl_hours(), 12);
    assert!(service.auto_refresh_on_launch());
    assert!(matches!(service.search_mode(), SearchMode::PreFetchFilter));
    assert!(matches!(service.output_format(), OutputFormat::Json));

    let mut mutable = service.clone();
    let updated = UserPreferences {
        cache_ttl_hours: 24,
        auto_refresh_on_launch: false,
        search_mode: SearchMode::LocalFilter,
        output_format: OutputFormat::Table,
    };
    mutable.update(updated.clone());
    assert_eq!(mutable.cache_ttl_hours(), 24);
    assert!(!mutable.auto_refresh_on_launch());
    assert!(matches!(mutable.search_mode(), SearchMode::LocalFilter));
    assert!(matches!(mutable.output_format(), OutputFormat::Table));
}

#[test]
fn load_without_file_uses_defaults_and_writes_them() {
    let config = Config::from_base_path("/tmp/market");
    let service = PreferencesService::load(&config, None);
    assert_eq!(service.preferences(), &UserPreferences::default());
    assert_eq!(service.cache_ttl_hours(), 24);
    let (path, written) = service.save().expect("a file backs the service");
    assert_eq!(path, "/tmp/market/config/preferences.json");
    assert_eq!(written, UserPreferences::default());
}

#[test]
fn update_and_save_persists_updated_preferences() {
    let config = Config::from_base_path("/tmp/market");
    let mut service = PreferencesService::load(&config, None);
    let mut prefs = *service.preferences();
    prefs.cache_ttl_hours = 12;
    let (_, written) = service.update_and_save(prefs).expect("written");
    assert_eq!(written.cache_ttl_hours, 12);
    let reloaded = PreferencesService::load(&config, Some(written));
    assert_eq!(reloaded.cache_ttl_hours(), 12);
}

#[test]
fn setters_change_one_field_each() {
    let mut service = PreferencesService::new(UserPreferences::default());
    assert!(service.save().is_none());
    service.set_cache_ttl_hours(6);
    service.set_search_mode(SearchMode::PreFetchFilter);
    service.set_output_format(OutputFormat::Json);
    service.set_auto_refresh_on_launch(true);
    assert_eq!(
        *service.preferences(),
        UserPreferences {
            cache_ttl_hours: 6,
            auto_refresh_on_launch: true,
            search_mode: SearchMode::PreFetchFilter,
            output_format: OutputFormat::Json,
        }
    );
}

#[test]
fn load_creates_default_preferences_file() {
    let config = Config::from_base_path("/tmp/market");
    let service = PreferencesService::load(&config, None);
    assert_eq!(service.cache_ttl_hours(), 24);
    assert!(!service.auto_refresh_on_launch());
    assert!(matches!(service.search_mode(), SearchMode::LocalFilter));
    assert!(matches!(service.output_format(), OutputFormat::Table));
    let (path, _) = service.save().expect("a file backs the service");
    assert!(path.ends_with("preferences.json"));
}

#[test]
fn save_persists_updated_preferences() {
    let config = Config::from_base_path("/tmp/market");
    let mut service = PreferencesService::load(&config, None);

    service.set_cache_ttl_hours(12);
    service.set_auto_refresh_on_launch(true);
    service.set_search_mode(SearchMode::PreFetchFilter);
    service.set_output_format(OutputFormat::Json);
    let (_, saved) = service.save().expect("save preferences");

    let reloaded = PreferencesService::load(&config, Some(saved));
    assert_eq!(reloaded.cache_ttl_hours(), 12);
    assert!(reloaded.auto_refresh_on_launch());
    assert!(matches!(reloaded.search_mode(), SearchMode::PreFetchFilter));
    assert!(matches!(reloaded.output_format(), OutputFormat::Json));
}
