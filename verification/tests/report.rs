use gemini_marketplace::catalog::default_sources;
use gemini_marketplace::domain::RetryJob;
use gemini_marketplace::report::{
    installed_extensions, looks_installing, network_probe_target, network_skipped, network_status_from,
    refresh_queue_status, render_status_lines, DirEntryInfo, InstalledSummary, LastErrorView, NetworkStatus,
    ProbeOutcome, RefreshQueueStatus, StatusReport,
};
use gemini_marketplace::telemetry::{Telemetry, TelemetryFormat};
use gemini_marketplace::time::Timestamp;

fn dir(name: &str, installing: bool, record: bool) -> DirEntryInfo {
    DirEntryInfo { name: Some(name.to_string()), is_dir: true, has_installing_marker: installing, has_install_record: record }
}

#[test]
fn installed_summary_sorts_and_classifies() {
    let entries = vec![
        dir("zeta", false, true),
        dir("alpha", false, true),
        dir("beta.tmp", false, false),
        dir("reinstaller", false, true),
        dir("gamma", true, true),
        dir(".hidden", false, true),
        dir("norecord", false, false),
        DirEntryInfo { name: Some("file".to_string()), is_dir: false, has_installing_marker: false, has_install_record: true },
        DirEntryInfo { name: None, is_dir: true, has_installing_marker: false, has_install_record: true },
    ];
    let summary = installed_extensions(Some(entries));
    assert_eq!(summary.extensions, vec!["alpha".to_string(), "zeta".to_string()]);
    assert_eq!(
        summary.installing,
        vec!["beta.tmp".to_string(), "gamma".to_string(), "reinstaller".to_string()]
    );
    assert_eq!(summary.total, 2);
    let none = installed_extensions(None);
    assert_eq!(none.total, 0);
    assert!(looks_installing("x.tmp", false));
    assert!(!looks_installing("x", false));
}

#[test]
fn refresh_queue_reports_earliest_job() {
    let jobs = vec![
        RetryJob::new("a", "1", Timestamp::from_unix_secs(120), 0, "x"),
        RetryJob::new("a", "2", Timestamp::from_unix_secs(60), 0, "x"),
    ];
    let status = refresh_queue_status(Some(jobs));
    assert_eq!(status.pending_jobs, 2);
    assert_eq!(status.next_job_due, Some("1970-01-01T00:01:00Z".to_string()));
    let empty = refresh_queue_status(None);
    assert_eq!(empty.pending_jobs, 0);
    assert_eq!(empty.next_job_due, None);
}

#[test]
fn network_status_from_probe() {
    let sources = default_sources(None).expect("sources");
    let i = network_probe_target(&sources).expect("enabled source");
    let ok = network_status_from(&sources[i], ProbeOutcome::Answered { status: 405, status_text: "405 Method Not Allowed".to_string() });
    assert!(ok.reachable);
    assert_eq!(ok.message, None);
    let odd = network_status_from(&sources[i], ProbeOutcome::Answered { status: 404, status_text: "404 Not Found".to_string() });
    assert_eq!(
        odd.message,
        Some("HTTP 404 Not Found from https://raw.githubusercontent.com/athola/gemini-marketplace/main/index.json".to_string())
    );
    let down = network_status_from(&sources[i], ProbeOutcome::Failed("timed out".to_string()));
    assert!(!down.reachable);
    assert_eq!(down.checked_source, Some("athola".to_string()));
    assert_eq!(network_probe_target(&Vec::new()), None);
    assert_eq!(network_skipped().message, Some("No sources configured; network check skipped".to_string()));
}

#[test]
fn report_lines_read_as_expected() {
    let mut telemetry = Telemetry::with_writer(TelemetryFormat::Silent);
    telemetry.record_search("b");
    telemetry.record_search("a");
    telemetry.record_search("a");
    telemetry.record_cache_hit("x");
    let report = StatusReport {
        cache_dir_exists: true,
        network: NetworkStatus { reachable: true, checked_source: Some("athola".to_string()), message: None },
        installed_extensions: InstalledSummary {
            total: 1,
            extensions: vec!["alpha".to_string()],
            installing: Vec::new(),
        },
        refresh_queue: RefreshQueueStatus { pending_jobs: 0, next_job_due: None },
        last_errors: vec![LastErrorView {
            source_slug: "athola".to_string(),
            message: "boom".to_string(),
            occurred_at: "1970-01-01T00:00:00Z".to_string(),
        }],
        telemetry: telemetry.snapshot(),
    };
    let lines = render_status_lines(&report);
    let expected = vec![
        "Marketplace Status",
        "------------------",
        "Cache directory: ready",
        "Network: OK (checked athola)",
        "Installed extensions: 1",
        "  alpha",
        "Installs in progress: none",
        "Refresh queue: 0 pending",
        "Recent errors:",
        "  athola at 1970-01-01T00:00:00Z",
        "    boom",
        "Telemetry:",
        "  cache hits: 1 | cache misses: 0",
        "  rate-limit waits: 0 | refresh queue depth: 0",
        "  top searches: a (2), b (1)",
    ];
    assert_eq!(lines, expected);
}
