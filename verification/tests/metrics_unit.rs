use aw_datastore::metrics::DbMetrics;
use std::time::Duration;

fn ms(d: Duration) -> u64 {
    d.as_millis() as u64
}

#[test]
fn test_query_counter_increments() {
    let mut metrics = DbMetrics::new();
    assert_eq!(metrics.get_queries_total(), 0);

    metrics.record_query("SELECT", ms(Duration::from_millis(10)));
    assert_eq!(metrics.get_queries_total(), 1);

    metrics.record_query("INSERT", ms(Duration::from_millis(20)));
    assert_eq!(metrics.get_queries_total(), 2);
}

#[test]
fn test_error_counter_increments() {
    let mut metrics = DbMetrics::new();
    assert_eq!(metrics.get_errors_total(), 0);

    metrics.record_error("connection_error");
    assert_eq!(metrics.get_errors_total(), 1);

    metrics.record_error("query_error");
    assert_eq!(metrics.get_errors_total(), 2);
}

#[test]
fn test_pool_stats_updated() {
    let mut metrics = DbMetrics::new();
    assert_eq!(metrics.get_pool_connections_active(), 0);
    assert_eq!(metrics.get_pool_connections_idle(), 0);

    metrics.update_pool_stats(5, 10);
    assert_eq!(metrics.get_pool_connections_active(), 5);
    assert_eq!(metrics.get_pool_connections_idle(), 10);
}

#[test]
fn test_prometheus_format() {
    let mut metrics = DbMetrics::new();
    metrics.record_query("SELECT", ms(Duration::from_millis(10)));
    metrics.update_pool_stats(3, 7);

    let output = metrics.to_prometheus_format();
    assert!(output.contains("db_queries_total 1"));
    assert!(output.contains("db_pool_connections_active 3"));
    assert!(output.contains("db_pool_connections_idle 7"));
}
