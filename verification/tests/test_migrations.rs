use aw_datastore::migrations::{
    is_initialized_version, pending_migrations, stage_error, starting_version, MigrationError,
    MigrationStage, LATEST_SCHEMA_VERSION,
};

#[test]
fn test_migration_error_types() {
    let db_error = MigrationError::DatabaseError("Connection failed".to_string());
    let migration_error = MigrationError::MigrationFailed("Schema creation failed".to_string());

    // Test Display implementation
    assert!(db_error.to_string().contains("Database error"));
    assert!(migration_error.to_string().contains("Migration failed"));
}

#[test]
fn fresh_database_needs_the_first_migration() {
    assert_eq!(pending_migrations(0), vec![1]);
    assert_eq!(pending_migrations(-1), vec![1]);
}

#[test]
fn migrations_are_idempotent() {
    let plan = pending_migrations(0);
    let after = *plan.last().unwrap();
    assert_eq!(after, LATEST_SCHEMA_VERSION);
    assert!(pending_migrations(after).is_empty());
    assert!(pending_migrations(5).is_empty());
}

#[test]
fn initialized_only_with_positive_version() {
    assert!(!is_initialized_version(None));
    assert!(!is_initialized_version(Some(0)));
    assert!(is_initialized_version(Some(1)));
}

#[test]
fn unreadable_version_starts_from_zero() {
    assert_eq!(starting_version(None), 0);
    assert_eq!(starting_version(Some(3)), 3);
}

#[test]
fn stage_errors() {
    assert_eq!(
        stage_error(MigrationStage::Connect, "x".to_string()),
        MigrationError::DatabaseError("x".to_string())
    );
    assert_eq!(
        stage_error(MigrationStage::BeginTransaction, "x".to_string()),
        MigrationError::DatabaseError("x".to_string())
    );
    assert_eq!(
        stage_error(MigrationStage::ApplyStatement, "y".to_string()),
        MigrationError::MigrationFailed("y".to_string())
    );
    assert_eq!(
        stage_error(MigrationStage::Commit, "y".to_string()),
        MigrationError::MigrationFailed("y".to_string())
    );
}
