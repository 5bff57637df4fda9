use aw_datastore::health::{
    check_status, liveness_status, probe_status, schema_version_from, CheckOutcome, HealthStatus,
    ProbeOutcome,
};

#[test]
fn test_health_status_methods() {
    let healthy = HealthStatus::Healthy;
    let degraded = HealthStatus::Degraded("High latency".to_string());
    let unhealthy = HealthStatus::Unhealthy("Connection failed".to_string());

    // Test is_healthy method
    assert!(healthy.is_healthy());
    assert!(!degraded.is_healthy());
    assert!(!unhealthy.is_healthy());

    // Test is_unhealthy method
    assert!(!healthy.is_unhealthy());
    assert!(!degraded.is_unhealthy());
    assert!(unhealthy.is_unhealthy());
}

#[test]
fn probe_without_connection_is_unhealthy() {
    let s = probe_status(&ProbeOutcome::NoConnection("timed out".to_string()));
    assert_eq!(
        s,
        HealthStatus::Unhealthy("Cannot get connection from pool: timed out".to_string())
    );
}

#[test]
fn probe_with_failed_query_is_unhealthy() {
    let s = probe_status(&ProbeOutcome::QueryFailed("syntax".to_string()));
    assert_eq!(s, HealthStatus::Unhealthy("Database query failed: syntax".to_string()));
}

#[test]
fn probe_with_positive_schema_is_healthy() {
    assert_eq!(probe_status(&ProbeOutcome::SchemaVersion(1)), HealthStatus::Healthy);
    assert_eq!(probe_status(&ProbeOutcome::SchemaVersion(7)), HealthStatus::Healthy);
}

#[test]
fn probe_with_uninitialized_schema_is_degraded() {
    assert_eq!(
        probe_status(&ProbeOutcome::SchemaVersion(0)),
        HealthStatus::Degraded("Schema version is 0, database may not be initialized".to_string())
    );
    assert!(!probe_status(&ProbeOutcome::SchemaVersion(-3)).is_healthy());
}

#[test]
fn probe_with_unreadable_schema_is_degraded() {
    assert_eq!(
        probe_status(&ProbeOutcome::SchemaUnreadable("no table".to_string())),
        HealthStatus::Degraded("Cannot verify schema version: no table".to_string())
    );
}

#[test]
fn schema_version_defaults_to_zero() {
    assert_eq!(schema_version_from(false, Some(4)), 0);
    assert_eq!(schema_version_from(true, None), 0);
    assert_eq!(schema_version_from(true, Some(4)), 4);
}

#[test]
fn check_under_timeout() {
    assert_eq!(
        check_status(CheckOutcome::Finished(HealthStatus::Healthy), "5s"),
        HealthStatus::Healthy
    );
    assert_eq!(
        check_status(CheckOutcome::TimedOut, "5s"),
        HealthStatus::Unhealthy("Health check timed out after 5s".to_string())
    );
    assert_eq!(
        check_status(CheckOutcome::Failed("boom".to_string()), "5s"),
        HealthStatus::Unhealthy("Health check failed: boom".to_string())
    );
}

#[test]
fn liveness_under_timeout() {
    assert_eq!(liveness_status(CheckOutcome::Finished(())), HealthStatus::Healthy);
    assert_eq!(
        liveness_status(CheckOutcome::TimedOut),
        HealthStatus::Unhealthy("Liveness check timed out".to_string())
    );
    assert_eq!(
        liveness_status(CheckOutcome::Failed("refused".to_string())),
        HealthStatus::Unhealthy("Liveness check failed: refused".to_string())
    );
}
