use aw_datastore::migrations::MigrationError;

#[test]
fn test_migration_error_display() {
    let error = MigrationError::DatabaseError("connection failed".to_string());
    assert_eq!(error.to_string(), "Database error: connection failed");

    let error = MigrationError::MigrationFailed("table exists".to_string());
    assert_eq!(error.to_string(), "Migration failed: table exists");
}
