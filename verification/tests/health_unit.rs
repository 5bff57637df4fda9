use aw_datastore::health::HealthStatus;

#[test]
fn test_health_status_is_healthy() {
    assert!(HealthStatus::Healthy.is_healthy());
    assert!(!HealthStatus::Unhealthy("error".to_string()).is_healthy());
    assert!(!HealthStatus::Degraded("warning".to_string()).is_healthy());
}

#[test]
fn test_health_status_is_unhealthy() {
    assert!(!HealthStatus::Healthy.is_unhealthy());
    assert!(HealthStatus::Unhealthy("error".to_string()).is_unhealthy());
    assert!(!HealthStatus::Degraded("warning".to_string()).is_unhealthy());
}
