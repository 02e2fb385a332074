use gemini_marketplace::telemetry::{
    format_for_setting, render_event, render_human, AttributeValue, Telemetry, TelemetryEvent, TelemetryFormat,
};

#[test]
fn telemetry_counts_events_and_emits_json() {
    let mut lines: Vec<String> = Vec::new();
    let mut telemetry = Telemetry::with_writer(TelemetryFormat::Json);
    let format = telemetry.format();

    let events = vec![
        telemetry.record_cache_hit("curated"),
        telemetry.record_cache_miss("community"),
        telemetry.record_rate_limit_wait("curated"),
        telemetry.record_search("search term"),
        telemetry.record_refresh_queue_depth(3),
    ];
    for event in events.iter().flatten() {
        if let Some(line) = render_event(format, event) {
            lines.push(line);
        }
    }

    let snapshot = telemetry.snapshot();
    assert_eq!(snapshot.cache_hits, 1);
    assert_eq!(snapshot.cache_misses, 1);
    assert_eq!(snapshot.rate_limit_waits, 1);
    assert_eq!(snapshot.refresh_queue_depth, 3);
    assert_eq!(snapshot.search_count("search term"), Some(1));

    assert!(
        lines.iter().any(|entry| entry.contains("\"event\":\"cache_hit\"")),
        "expected cache_hit event in JSON output"
    );
}

#[test]
fn json_lines_have_sorted_keys_and_null_source() {
    let mut telemetry = Telemetry::with_writer(TelemetryFormat::Json);
    let search = telemetry.record_search("  analytics ").expect("event");
    assert_eq!(
        render_event(TelemetryFormat::Json, &search),
        Some("{\"attributes\":{\"keyword\":\"analytics\"},\"event\":\"search\",\"source\":null}".to_string())
    );
    let hit = telemetry.record_cache_hit("cur\"ated").expect("event");
    assert_eq!(
        render_event(TelemetryFormat::Json, &hit),
        Some("{\"attributes\":{},\"event\":\"cache_hit\",\"source\":\"cur\\\"ated\"}".to_string())
    );
    let miss = telemetry.record_cache_miss("a\u{1}b\n\\é").expect("event");
    assert_eq!(
        render_event(TelemetryFormat::Json, &miss),
        Some("{\"attributes\":{},\"event\":\"cache_miss\",\"source\":\"a\\u0001b\\n\\\\é\"}".to_string())
    );
}

#[test]
fn human_lines_list_source_and_attributes() {
    let mut telemetry = Telemetry::with_writer(TelemetryFormat::Human);
    let hit = telemetry.record_cache_hit("curated").expect("event");
    assert_eq!(render_human(&hit), "[telemetry] cache_hit source=curated");
    let depth = telemetry.record_refresh_queue_depth(7).expect("event");
    assert_eq!(render_human(&depth), "[telemetry] refresh_queue_depth depth=7");
    let bare = TelemetryEvent { event: "tick".to_string(), source: None, attributes: Vec::new() };
    assert_eq!(render_human(&bare), "[telemetry] tick");
    let both = TelemetryEvent {
        event: "e".to_string(),
        source: Some("s".to_string()),
        attributes: vec![("a".to_string(), AttributeValue::Text("x".to_string())), ("b".to_string(), AttributeValue::Count(2))],
    };
    assert_eq!(render_human(&both), "[telemetry] e source=s a=x b=2");
}

#[test]
fn silent_telemetry_counts_without_events() {
    let mut telemetry = Telemetry::with_writer(TelemetryFormat::Silent);
    assert!(telemetry.record_cache_hit("curated").is_none());
    assert!(telemetry.record_search("x").is_none());
    assert_eq!(telemetry.snapshot().cache_hits, 1);
    assert_eq!(telemetry.snapshot().search_count("x"), Some(1));
}

#[test]
fn searches_are_trimmed_counted_and_sorted() {
    let mut telemetry = Telemetry::with_writer(TelemetryFormat::Human);
    assert!(telemetry.record_search("   ").is_none());
    telemetry.record_search("zeta");
    telemetry.record_search(" alpha");
    telemetry.record_search("zeta ");
    let snapshot = telemetry.snapshot();
    assert_eq!(snapshot.search_terms, vec![("alpha".to_string(), 1), ("zeta".to_string(), 2)]);
    assert_eq!(snapshot.search_count("beta"), None);
}

#[test]
fn telemetry_setting_selects_format() {
    assert_eq!(format_for_setting(Some("JSON".to_string())), TelemetryFormat::Json);
    assert_eq!(format_for_setting(Some("Silent".to_string())), TelemetryFormat::Silent);
    assert_eq!(format_for_setting(Some("off".to_string())), TelemetryFormat::Silent);
    assert_eq!(format_for_setting(Some("text".to_string())), TelemetryFormat::Human);
    assert_eq!(format_for_setting(Some("bogus".to_string())), TelemetryFormat::Human);
    assert_eq!(format_for_setting(None), TelemetryFormat::Human);
    assert_eq!(render_event(TelemetryFormat::Silent, &TelemetryEvent { event: "x".to_string(), source: None, attributes: Vec::new() }), None);
}
