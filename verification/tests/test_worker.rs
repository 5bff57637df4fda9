use aw_datastore::metrics::DbMetrics;
use aw_datastore::worker::{after_connect_attempt, pool_checkout, ConnectStep, CONNECT_ATTEMPTS};
use aw_datastore::{DatastoreError, DbConfig};

fn config() -> DbConfig {
    DbConfig {
        host: "localhost".to_string(),
        port: 5432,
        user: "aw_user".to_string(),
        password: "activitywatch".to_string(),
        database: "activitywatch_test".to_string(),
    }
}

#[test]
fn connection_string_lists_every_field() {
    assert_eq!(
        config().connection_string(),
        "host=localhost port=5432 user=aw_user password=activitywatch dbname=activitywatch_test"
    );
}

#[test]
fn settings_fall_back_to_defaults() {
    let c = DbConfig::from_settings(None, None, None, "pw".to_string(), None);
    assert_eq!(c.host, "localhost");
    assert_eq!(c.port, 5432);
    assert_eq!(c.user, "aw_user");
    assert_eq!(c.password, "pw");
    assert_eq!(c.database, "activitywatch");
}

#[test]
fn settings_are_used_when_present() {
    let c = DbConfig::from_settings(
        Some("db".to_string()),
        Some("6543".to_string()),
        Some("me".to_string()),
        "pw".to_string(),
        Some("aw".to_string()),
    );
    assert_eq!((c.host.as_str(), c.port, c.user.as_str(), c.database.as_str()), ("db", 6543, "me", "aw"));
}

#[test]
fn bad_port_setting_gives_default_port() {
    let c = DbConfig::from_settings(None, Some("70000".to_string()), None, String::new(), None);
    assert_eq!(c.port, 5432);
    let c = DbConfig::from_settings(None, Some("abc".to_string()), None, String::new(), None);
    assert_eq!(c.port, 5432);
}

#[test]
fn password_resolution() {
    assert_eq!(DbConfig::resolve_password(Some("  s3cret\n".to_string()), Some("env".to_string())), "s3cret");
    assert_eq!(DbConfig::resolve_password(None, Some("env".to_string())), "env");
    assert_eq!(DbConfig::resolve_password(None, None), "activitywatch");
}

#[test]
fn overrides_replace_given_values_only() {
    let c = config().with_overrides(Some("remote".to_string()), Some(1234), None, None, Some("other".to_string()));
    assert_eq!(c.host, "remote");
    assert_eq!(c.port, 1234);
    assert_eq!(c.user, "aw_user");
    assert_eq!(c.password, "activitywatch");
    assert_eq!(c.database, "other");
}

#[test]
fn startup_connection_retries() {
    assert!(matches!(after_connect_attempt(1, CONNECT_ATTEMPTS, None), ConnectStep::Connected));
    assert!(matches!(
        after_connect_attempt(1, CONNECT_ATTEMPTS, Some("refused".to_string())),
        ConnectStep::RetryAfter(2000)
    ));
    match after_connect_attempt(5, CONNECT_ATTEMPTS, Some("refused".to_string())) {
        ConnectStep::Fail(DatastoreError::InternalError(m)) => {
            assert_eq!(m, "Failed to connect to database: refused")
        }
        other => panic!("unexpected {:?}", other),
    }
}

#[test]
fn pool_checkout_bookkeeping() {
    let mut m = DbMetrics::new();
    assert!(pool_checkout(&mut m, 3, None).is_ok());
    assert_eq!((m.get_queries_total(), m.get_errors_total()), (1, 0));
    match pool_checkout(&mut m, 3, Some("timeout".to_string())) {
        Err(DatastoreError::InternalError(msg)) => {
            assert_eq!(msg, "Failed to get connection from pool: timeout")
        }
        other => panic!("unexpected {:?}", other),
    }
    assert_eq!((m.get_queries_total(), m.get_errors_total()), (1, 1));
}
