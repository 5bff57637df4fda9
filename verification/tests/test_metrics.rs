use aw_datastore::metrics::DbMetrics;
use std::time::Duration;

fn ms(d: Duration) -> u64 {
    d.as_millis() as u64
}

#[test]
fn test_metrics_initialization() {
    let metrics = DbMetrics::new();
    let prometheus = metrics.to_prometheus_format();

    // Check that counters start at 0
    assert!(prometheus.contains("aw_db_queries_total 0"));
    assert!(prometheus.contains("aw_db_errors_total 0"));
}

#[test]
fn test_record_query() {
    let mut metrics = DbMetrics::new();

    // Record some queries
    metrics.record_query("get_bucket", ms(Duration::from_millis(10)));
    metrics.record_query("get_bucket", ms(Duration::from_millis(20)));
    metrics.record_query("insert_events", ms(Duration::from_millis(50)));

    let prometheus = metrics.to_prometheus_format();

    // Check query count increased
    assert!(prometheus.contains("aw_db_queries_total 3"));
}

#[test]
fn test_record_error() {
    let mut metrics = DbMetrics::new();

    // Record some errors
    metrics.record_error("create_bucket");
    metrics.record_error("insert_events");
    metrics.record_error("insert_events");

    let prometheus = metrics.to_prometheus_format();

    // Check error count increased
    assert!(prometheus.contains("aw_db_errors_total 3"));
}

#[test]
fn test_update_pool_stats() {
    let mut metrics = DbMetrics::new();

    // Simulate pool usage
    metrics.update_pool_stats(5, 15); // 5 active, 15 idle

    let prometheus = metrics.to_prometheus_format();

    // Check pool stats are recorded
    assert!(prometheus.contains("aw_db_pool_connections_active 5"));
    assert!(prometheus.contains("aw_db_pool_connections_idle 15"));
}

#[test]
fn test_query_duration_percentiles() {
    let mut metrics = DbMetrics::new();

    // Record queries with varying durations
    for i in 1..=100 {
        metrics.record_query("test_query", ms(Duration::from_millis(i)));
    }

    let prometheus = metrics.to_prometheus_format();

    // P50 should be around 50ms
    let p50_line = prometheus
        .lines()
        .find(|l| l.starts_with("aw_db_query_duration_p50_ms"))
        .expect("P50 metric not found");

    let p50_value: f64 = p50_line
        .split_whitespace()
        .last()
        .unwrap()
        .parse()
        .unwrap();

    assert!(p50_value >= 45.0 && p50_value <= 55.0, "P50 = {}", p50_value);

    // P95 should be around 95ms
    let p95_line = prometheus
        .lines()
        .find(|l| l.starts_with("aw_db_query_duration_p95_ms"))
        .expect("P95 metric not found");

    let p95_value: f64 = p95_line
        .split_whitespace()
        .last()
        .unwrap()
        .parse()
        .unwrap();

    assert!(p95_value >= 90.0 && p95_value <= 100.0, "P95 = {}", p95_value);
}

#[test]
fn test_prometheus_format_structure() {
    let mut metrics = DbMetrics::new();

    metrics.record_query("test", ms(Duration::from_millis(5)));
    metrics.record_error("test_error");
    metrics.update_pool_stats(3, 7);

    let prometheus = metrics.to_prometheus_format();

    // Check all expected metrics are present
    assert!(prometheus.contains("# HELP aw_db_queries_total"));
    assert!(prometheus.contains("# TYPE aw_db_queries_total counter"));
    assert!(prometheus.contains("# HELP aw_db_errors_total"));
    assert!(prometheus.contains("# TYPE aw_db_errors_total counter"));
    assert!(prometheus.contains("# HELP aw_db_pool_connections_active"));
    assert!(prometheus.contains("# TYPE aw_db_pool_connections_active gauge"));
    assert!(prometheus.contains("# HELP aw_db_query_duration_p50_ms"));
    assert!(prometheus.contains("# TYPE aw_db_query_duration_p50_ms gauge"));
}

#[test]
fn test_metrics_reset_behavior() {
    let mut metrics = DbMetrics::new();

    // Record some data
    metrics.record_query("test", ms(Duration::from_millis(10)));
    metrics.record_error("test_error");

    let first_prometheus = metrics.to_prometheus_format();
    assert!(first_prometheus.contains("aw_db_queries_total 1"));
    assert!(first_prometheus.contains("aw_db_errors_total 1"));

    // Record more data (metrics should accumulate, not reset)
    metrics.record_query("test", ms(Duration::from_millis(20)));

    let second_prometheus = metrics.to_prometheus_format();
    assert!(second_prometheus.contains("aw_db_queries_total 2"));
}

#[test]
fn percentiles_follow_nearest_rank() {
    let mut metrics = DbMetrics::new();
    assert_eq!(metrics.get_query_duration_percentiles(), (0, 0, 0));
    for d in [30u64, 10, 20, 40] {
        metrics.record_query("q", d);
    }
    // ranks: ceil(0.5*4)=2, ceil(0.95*4)=4, ceil(0.99*4)=4
    assert_eq!(metrics.get_query_duration_percentiles(), (20, 40, 40));
}

#[test]
fn percentiles_are_ordered_on_concrete_samples() {
    let mut metrics = DbMetrics::new();
    for d in [5u64, 1, 9, 9, 3, 7, 2, 8, 100, 0] {
        metrics.record_query("q", d);
    }
    let (p50, p95, p99) = metrics.get_query_duration_percentiles();
    assert!(p50 <= p95 && p95 <= p99);
    assert_eq!((p50, p95, p99), (5, 100, 100));
}

#[test]
fn record_operation_counts_failures_as_errors() {
    let mut metrics = DbMetrics::new();
    metrics.record_operation("get_bucket", 3, false);
    metrics.record_operation("get_bucket", 4, true);
    assert_eq!(metrics.get_queries_total(), 2);
    assert_eq!(metrics.get_errors_total(), 1);
}

#[test]
fn default_metrics_are_zero() {
    let metrics = DbMetrics::default();
    assert_eq!(metrics.get_queries_total(), 0);
    assert_eq!(metrics.get_errors_total(), 0);
}

#[test]
fn prometheus_text_is_exact() {
    let mut metrics = DbMetrics::new();
    metrics.record_query("q", 12);
    metrics.record_error("e");
    metrics.update_pool_stats(2, 3);
    let expected = "# HELP aw_db_queries_total Total number of database queries executed\n\
# TYPE aw_db_queries_total counter\n\
aw_db_queries_total 1\n\
\n\
# HELP aw_db_errors_total Total number of database errors\n\
# TYPE aw_db_errors_total counter\n\
aw_db_errors_total 1\n\
\n\
# HELP aw_db_pool_connections_active Number of active pool connections\n\
# TYPE aw_db_pool_connections_active gauge\n\
aw_db_pool_connections_active 2\n\
\n\
# HELP aw_db_pool_connections_idle Number of idle pool connections\n\
# TYPE aw_db_pool_connections_idle gauge\n\
aw_db_pool_connections_idle 3\n\
\n\
# HELP aw_db_query_duration_p50_ms Median query duration in milliseconds\n\
# TYPE aw_db_query_duration_p50_ms gauge\n\
aw_db_query_duration_p50_ms 12\n\
\n\
# HELP aw_db_query_duration_p95_ms 95th percentile query duration in milliseconds\n\
# TYPE aw_db_query_duration_p95_ms gauge\n\
aw_db_query_duration_p95_ms 12\n\
\n\
# HELP aw_db_query_duration_p99_ms 99th percentile query duration in milliseconds\n\
# TYPE aw_db_query_duration_p99_ms gauge\n\
aw_db_query_duration_p99_ms 12\n";
    assert_eq!(metrics.to_prometheus_format(), expected);
}

#[test]
fn a_new_sample_moves_percentiles_towards_itself() {
    let mut metrics = DbMetrics::new();
    for d in [10u64, 20, 30, 40, 50] {
        metrics.record_query("q", d);
    }
    let (a, b, c) = metrics.get_query_duration_percentiles();
    metrics.record_query("q", 1000);
    let (a2, b2, c2) = metrics.get_query_duration_percentiles();
    assert!(a2 >= a && b2 >= b && c2 >= c);
    metrics.record_query("q", 0);
    let (a3, b3, c3) = metrics.get_query_duration_percentiles();
    assert!(a3 <= a2 && b3 <= b2 && c3 <= c2);
}

#[test]
fn counters_count_calls_and_gauges_keep_the_latest() {
    let mut metrics = DbMetrics::new();
    metrics.record_query("q", 1);
    metrics.update_pool_stats(4, 9);
    metrics.record_error("e");
    metrics.record_query("q", 2);
    metrics.update_pool_stats(1, 2);
    metrics.record_query("q", 3);
    assert_eq!(metrics.get_queries_total(), 3);
    assert_eq!(metrics.get_errors_total(), 1);
    assert_eq!(metrics.get_pool_connections_active(), 1);
    assert_eq!(metrics.get_pool_connections_idle(), 2);
}
