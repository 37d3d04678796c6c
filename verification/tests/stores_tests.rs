use llamapackageservice::api::{JobManager, JobStatusType, JobStep};
use llamapackageservice::cache::{Cache, StringCache};
use llamapackageservice::metrics::Metrics;
use llamapackageservice::rate_limiter::RateLimiter;

const MS: u128 = 1_000_000;

#[test]
fn test_counters() {
    let mut metrics = Metrics::new();

    metrics.increment("test_counter");
    metrics.increment("test_counter");

    let value = metrics.get_counter("test_counter").unwrap();
    assert_eq!(value, 2);

    metrics.decrement("test_counter");
    let value = metrics.get_counter("test_counter").unwrap();
    assert_eq!(value, 1);
}

#[test]
fn test_timers() {
    let mut metrics = Metrics::new();

    let duration = std::time::Duration::from_secs(5);
    metrics.record_time("test_timer", duration.as_nanos());

    let value = metrics.get_timer("test_timer").unwrap();
    assert_eq!(std::time::Duration::from_nanos(value as u64), duration);
}

#[test]
fn test_gauges() {
    let mut metrics = Metrics::new();

    metrics.set_gauge("test_gauge", 42.5f64.to_bits());

    let value = metrics.get_gauge("test_gauge").unwrap();
    assert_eq!(f64::from_bits(value), 42.5);
}

#[test]
fn counter_never_goes_below_zero() {
    let mut metrics = Metrics::new();
    assert_eq!(metrics.get_counter("c"), None);
    metrics.decrement("c");
    assert_eq!(metrics.get_counter("c"), Some(0));
    metrics.increment("c");
    metrics.increment("other");
    assert_eq!(metrics.get_counter("c"), Some(1));
    assert_eq!(metrics.get_counter("other"), Some(1));
    metrics.record_time("t", 7);
    metrics.record_time("t", 9);
    assert_eq!(metrics.get_timer("t"), Some(9));
    assert_eq!(metrics.get_gauge("t"), None);
}

#[test]
fn cache_reads_back_until_expiry() {
    let mut cache: Cache<i32> = Cache::new(100 * MS);
    cache.set("key1", 42, 0);
    assert_eq!(cache.get("key1", 0), Some(42));
    assert_eq!(cache.get("key1", 99 * MS), Some(42));
    assert_eq!(cache.get("key1", 100 * MS), None);
    assert_eq!(cache.len(), 1);
    assert!(!cache.is_empty());
    assert!(cache.contains_key("key1"));
    assert!(!cache.contains_key("key2"));
    cache.set("key2", 100, 150 * MS);
    assert_eq!(cache.cleanup_expired(200 * MS), 1);
    assert_eq!(cache.len(), 1);
    assert_eq!(cache.get("key2", 200 * MS), Some(100));
    assert!(cache.remove("key2"));
    assert!(!cache.remove("key2"));
    cache.set("key4", 300, 0);
    cache.set("key5", 400, 0);
    cache.set("key4", 301, 0);
    assert_eq!(cache.len(), 2);
    assert_eq!(cache.get("key4", 0), Some(301));
    cache.clear();
    assert_eq!(cache.len(), 0);
    assert!(cache.is_empty());
}

#[test]
fn cache_ttl_change_applies_to_held_entries() {
    let mut cache: Cache<u8> = Cache::new(10 * MS);
    cache.set("a", 1, 0);
    assert_eq!(cache.get("a", 20 * MS), None);
    cache.set_ttl(30 * MS);
    assert_eq!(cache.get("a", 20 * MS), Some(1));
}

#[test]
fn string_cache_in_memory() {
    let mut cache = StringCache::with_ttl("/tmp/cache", 100 * MS);
    cache.set_value("key1", "value1".to_string(), 0);
    assert_eq!(cache.get("key1", 0), Some("value1".to_string()));
    assert_eq!(cache.len(), 1);
    assert!(!cache.is_empty());
    assert!(cache.contains_key("key1"));
    assert_eq!(cache.get("key1", 150 * MS), None);
    assert_eq!(cache.cleanup_expired(150 * MS), 1);
    cache.set_value("key3", "value3".to_string(), 0);
    assert!(cache.remove("key3"));
    assert!(!cache.contains_key("key3"));
    cache.set_value("key4", "value4".to_string(), 0);
    cache.clear();
    assert_eq!(cache.len(), 0);
    assert_eq!(cache.cache_file(), "/tmp/cache/cache.json");
    assert_eq!(cache.get_path("a/b"), "/tmp/cache/a_b");
}

#[test]
fn rate_limiter_grants_within_window() {
    let mut limiter = RateLimiter::new();
    for i in 0..60u128 {
        assert!(limiter.try_acquire("github", i * MS));
    }
    assert!(!limiter.try_acquire("github", 61 * MS));
    // once the first grant leaves the one-minute window, one more is allowed
    assert!(limiter.try_acquire("github", 60_000 * MS));
    assert!(!limiter.try_acquire("github", 60_000 * MS));
    for _ in 0..10 {
        assert!(limiter.try_acquire("other", 0));
    }
    assert!(!limiter.try_acquire("other", 0));
    assert_eq!(limiter.limit_for("pypi").requests, 100);
    limiter.add_limit("other", 11, 60_000 * MS);
    assert!(limiter.try_acquire("other", 1));
}

#[test]
fn job_lifecycle() {
    let mut manager = JobManager::new("out", "2024-01-01T00:00:00Z");
    let response = manager.register_job("job-1", "https://github.com/a/b", "GitHub Repository", None, "t0");
    assert_eq!(response.job_id, "job-1");
    {
        let job = manager.get_job_status("job-1").unwrap();
        assert!(matches!(job.status, JobStatusType::Queued));
        assert_eq!(job.output_dir, "out");
        assert_eq!(job.progress, 0);
    }
    assert!(manager.get_job_status("missing").is_err());
    manager.advance("job-1", JobStep::Started, "t1");
    assert_eq!(manager.get_job_status("job-1").unwrap().progress, 10);
    manager.advance("job-1", JobStep::OrganizingOutput, "t2");
    assert_eq!(manager.get_job_status("job-1").unwrap().progress, 80);
    let health = manager.get_health("1.0", "t3", 5);
    assert_eq!(health.active_jobs, 1);
    assert_eq!(health.completed_jobs, 0);
    manager.advance("job-1", JobStep::Succeeded, "t4");
    let job = manager.get_job_status("job-1").unwrap();
    assert!(matches!(job.status, JobStatusType::Completed));
    assert_eq!(job.progress, 100);
    assert_eq!(job.updated_at, "t4");
    let health = manager.get_health("1.0", "t5", 6);
    assert_eq!(health.completed_jobs, 1);
    assert_eq!(health.service, "LlamaPackageService");
    manager.register_job("job-2", "x", "y", Some("elsewhere"), "t6");
    manager.advance("job-2", JobStep::Failed("boom".to_string()), "t7");
    let job = manager.get_job_status("job-2").unwrap();
    assert!(matches!(job.status, JobStatusType::Failed));
    assert_eq!(job.error_message, Some("boom".to_string()));
    assert_eq!(job.output_dir, "elsewhere");
}
