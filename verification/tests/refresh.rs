use gemini_marketplace::config::Config;
use gemini_marketplace::domain::RetryJob;
use gemini_marketplace::refresh::RefreshService;
use gemini_marketplace::time::{TimeSpan, Timestamp};

fn config() -> Config {
    Config::from_base_path("/tmp/market")
}

#[test]
fn queue_and_reload_jobs() {
    let mut service = RefreshService::new(&config(), None);
    let job = RetryJob::new("curated", "job-1", Timestamp::from_unix_secs(100), 0, "manual refresh");
    service.queue_refresh(job.clone());
    let (path, stored) = service.flush();
    assert_eq!(path, "/tmp/market/config/refresh_queue.json");

    let reloaded = RefreshService::new(&config(), Some(stored));
    assert_eq!(reloaded.len(), 1);
    let jobs = reloaded.pending_jobs();
    assert_eq!(jobs[0].job_id, "job-1");
    assert_eq!(jobs[0].source_slug, "curated");
}

#[test]
fn drain_due_returns_ready_jobs() {
    let now = Timestamp::from_unix_secs(1_000);
    let mut service = RefreshService::new(&config(), None);
    service.queue_refresh(RetryJob::new("curated", "job-now", now, 0, "due"));
    service.queue_refresh(RetryJob::new("curated", "job-later", now.add(TimeSpan::from_secs(60)), 0, "later"));

    let drained = service.drain_due(now);
    assert_eq!(drained.len(), 1);
    assert_eq!(drained[0].job_id, "job-now");
    assert_eq!(service.len(), 1, "remaining job should still be queued");
}

#[test]
fn requeueing_a_job_replaces_it_and_keeps_order() {
    let mut service = RefreshService::new(&config(), None);
    service.queue_refresh(RetryJob::new("a", "j1", Timestamp::from_unix_secs(30), 0, "x"));
    service.queue_refresh(RetryJob::new("b", "j2", Timestamp::from_unix_secs(20), 0, "y"));
    service.queue_refresh(RetryJob::new("a", "j1", Timestamp::from_unix_secs(10), 1, "retry"));
    let jobs = service.pending_jobs();
    let ids: Vec<&str> = jobs.iter().map(|j| j.job_id.as_str()).collect();
    assert_eq!(ids, vec!["j1", "j2"]);
    assert_eq!(jobs[0].attempt, 1);
}

#[test]
fn stored_jobs_are_sorted_on_load() {
    let stored = vec![
        RetryJob::new("a", "late", Timestamp::from_unix_secs(50), 0, "x"),
        RetryJob::new("a", "early", Timestamp::from_unix_secs(5), 0, "x"),
    ];
    let mut service = RefreshService::new(&config(), Some(stored));
    let drained = service.drain_due(Timestamp::from_unix_secs(60));
    let ids: Vec<&str> = drained.iter().map(|j| j.job_id.as_str()).collect();
    assert_eq!(ids, vec!["early", "late"]);
    assert_eq!(service.len(), 0);
}
