//! Schema migration decisions: which migrations are pending for a schema
//! version, whether a database counts as initialized, and which error a
//! failure at each stage of a migration run becomes.
use vstd::prelude::*;
use vstd::string::*;

verus! {

/// The schema version that the latest migration establishes.
pub const LATEST_SCHEMA_VERSION: i32 = 1;

/// A failed migration run.
#[derive(Debug, Clone, PartialEq)]
pub enum MigrationError {
    DatabaseError(String),
    MigrationFailed(String),
}

/// The text of a migration error, as its `Display` rendering shows it.
pub open spec fn migration_error_text(e: MigrationError) -> Seq<char> {
    match e {
        MigrationError::DatabaseError(m) => "Database error: "@ + m@,
        MigrationError::MigrationFailed(m) => "Migration failed: "@ + m@,
    }
}

impl MigrationError {
    /// The error as text: `Database error: ...` or `Migration failed: ...`.
    pub fn to_string(&self) -> (r: String)
        ensures
            r@ == migration_error_text(*self),
    {
        match self {
            MigrationError::DatabaseError(m) => {
                let mut s = "Database error: ".to_owned();
                s.append(m.as_str());
                s
            },
            MigrationError::MigrationFailed(m) => {
                let mut s = "Migration failed: ".to_owned();
                s.append(m.as_str());
                s
            },
        }
    }
}

/// The stage of a migration run at which a database call failed.
#[derive(Debug, Clone, Copy, PartialEq, Eq)]
pub enum MigrationStage {
    /// Taking a connection from the pool.
    Connect,
    /// Opening the transaction.
    BeginTransaction,
    /// Running a statement of a migration.
    ApplyStatement,
    /// Committing the transaction.
    Commit,
}

/// The error that a failure at `stage` becomes: failing to reach the database
/// is a database error; failing inside a migration is a failed migration.
pub fn stage_error(stage: MigrationStage, message: String) -> (e: MigrationError)
    ensures
        e == match stage {
            MigrationStage::Connect | MigrationStage::BeginTransaction => MigrationError::DatabaseError(
                message,
            ),
            MigrationStage::ApplyStatement | MigrationStage::Commit => MigrationError::MigrationFailed(
                message,
            ),
        },
{
    match stage {
        MigrationStage::Connect | MigrationStage::BeginTransaction => MigrationError::DatabaseError(
            message,
        ),
        MigrationStage::ApplyStatement | MigrationStage::Commit => MigrationError::MigrationFailed(
            message,
        ),
    }
}

/// The migrations still to apply, in order, to a database at schema version
/// `current`: each target version above `current`, up to the latest.
pub open spec fn pending_spec(current: int) -> Seq<i32> {
    if current < 1 {
        seq![1i32]
    } else {
        Seq::empty()
    }
}

/// The schema version after applying `plan` to a database at version `current`.
pub open spec fn version_after(current: int, plan: Seq<i32>) -> int {
    if plan.len() > 0 {
        plan.last() as int
    } else {
        current
    }
}

/// The migrations to apply, in order, to a database at schema version
/// `current_version` (the target version of each).
pub fn pending_migrations(current_version: i32) -> (plan: Vec<i32>)
    ensures
        plan@ == pending_spec(current_version as int),
{
    let mut plan: Vec<i32> = Vec::new();
    if current_version < 1 {
        plan.push(1);
    }
    assert(plan@ =~= pending_spec(current_version as int));
    plan
}

/// The schema version a migration run starts from: the version read, or zero
/// when it could not be read (no `schema_version` table yet).
pub fn starting_version(read: Option<i32>) -> (v: i32)
    ensures
        v == match read {
            Some(x) => x,
            None => 0,
        },
{
    match read {
        Some(x) => x,
        None => 0,
    }
}

/// Whether the database counts as initialized: its schema version could be
/// read and is positive.
pub fn is_initialized_version(read: Option<i32>) -> (r: bool)
    ensures
        r == (read matches Some(v) && v > 0),
{
    match read {
        Some(v) => v > 0,
        None => false,
    }
}

/// The statements of the migration to schema version `version`, in order:
/// the tables, their indexes, and (version 1) the key-value table. The run
/// then records the version with [`record_version_statement`].
pub open spec fn migration_sql(version: i32) -> Seq<Seq<char>> {
    if version == 1 {
        seq![
            "CREATE TABLE IF NOT EXISTS schema_version (version INTEGER PRIMARY KEY, applied TIMESTAMP WITH TIME ZONE NOT NULL)"@,
            "CREATE TABLE IF NOT EXISTS buckets (id SERIAL PRIMARY KEY, name TEXT NOT NULL UNIQUE, type TEXT NOT NULL, client TEXT NOT NULL, hostname TEXT NOT NULL, created TIMESTAMP WITH TIME ZONE NOT NULL, data JSONB NOT NULL DEFAULT '{}'::jsonb)"@,
            "CREATE INDEX IF NOT EXISTS idx_buckets_client_hostname ON buckets(client, hostname)"@,
            "CREATE TABLE IF NOT EXISTS events (id BIGSERIAL PRIMARY KEY, bucketrow INTEGER NOT NULL REFERENCES buckets(id) ON DELETE CASCADE, starttime TIMESTAMP WITH TIME ZONE NOT NULL, endtime TIMESTAMP WITH TIME ZONE NOT NULL, data JSONB NOT NULL)"@,
            "CREATE INDEX IF NOT EXISTS idx_events_timerange ON events(bucketrow, starttime, endtime)"@,
            "CREATE INDEX IF NOT EXISTS idx_events_starttime ON events(starttime)"@,
            "CREATE TABLE IF NOT EXISTS key_value (key TEXT PRIMARY KEY, value TEXT NOT NULL)"@
        ]
    } else {
        Seq::empty()
    }
}

/// The views of a list of string slices.
pub open spec fn str_views(v: Seq<&str>) -> Seq<Seq<char>> {
    v.map_values(|s: &str| s@)
}

/// The statements of the migration to schema version `version`.
pub fn migration_statements(version: i32) -> (r: Vec<&'static str>)
    ensures
        str_views(r@) == migration_sql(version),
{
    let mut r: Vec<&'static str> = Vec::new();
    if version == 1 {
        r.push("CREATE TABLE IF NOT EXISTS schema_version (version INTEGER PRIMARY KEY, applied TIMESTAMP WITH TIME ZONE NOT NULL)");
        r.push("CREATE TABLE IF NOT EXISTS buckets (id SERIAL PRIMARY KEY, name TEXT NOT NULL UNIQUE, type TEXT NOT NULL, client TEXT NOT NULL, hostname TEXT NOT NULL, created TIMESTAMP WITH TIME ZONE NOT NULL, data JSONB NOT NULL DEFAULT '{}'::jsonb)");
        r.push("CREATE INDEX IF NOT EXISTS idx_buckets_client_hostname ON buckets(client, hostname)");
        r.push("CREATE TABLE IF NOT EXISTS events (id BIGSERIAL PRIMARY KEY, bucketrow INTEGER NOT NULL REFERENCES buckets(id) ON DELETE CASCADE, starttime TIMESTAMP WITH TIME ZONE NOT NULL, endtime TIMESTAMP WITH TIME ZONE NOT NULL, data JSONB NOT NULL)");
        r.push("CREATE INDEX IF NOT EXISTS idx_events_timerange ON events(bucketrow, starttime, endtime)");
        r.push("CREATE INDEX IF NOT EXISTS idx_events_starttime ON events(starttime)");
        r.push("CREATE TABLE IF NOT EXISTS key_value (key TEXT PRIMARY KEY, value TEXT NOT NULL)");
    }
    assert(str_views(r@) =~= migration_sql(version));
    r
}

/// The statement that records an applied migration; its parameters are the
/// version (`$1`) and the time it was applied (`$2`).
pub fn record_version_statement() -> (r: &'static str)
    ensures
        r@ == "INSERT INTO schema_version (version, applied) VALUES ($1, $2)"@,
{
    "INSERT INTO schema_version (version, applied) VALUES ($1, $2)"
}

/// Every pending migration has statements to run.
pub proof fn law_pending_migrations_have_statements(current: i32)
    ensures
        forall|i: int|
            0 <= i < pending_spec(current as int).len() ==> migration_sql(
                #[trigger] pending_spec(current as int)[i],
            ).len() > 0,
{
}

/// Migrations are idempotent: after the pending migrations have run, nothing
/// is pending any more, the database counts as initialized, and it is at the
/// latest version or newer.
pub proof fn law_migrations_idempotent(current: i32)
    ensures
        pending_spec(version_after(current as int, pending_spec(current as int))).len() == 0,
        version_after(current as int, pending_spec(current as int)) > 0,
        version_after(current as int, pending_spec(current as int)) >= LATEST_SCHEMA_VERSION,
{
}

/// Every pending migration targets a version above the current one, and the
/// pending migrations are in ascending order.
pub proof fn law_pending_ascending_above(current: i32)
    ensures
        forall|i: int|
            0 <= i < pending_spec(current as int).len() ==> pending_spec(current as int)[i]
                > current,
        forall|i: int, j: int|
            0 <= i < j < pending_spec(current as int).len() ==> pending_spec(current as int)[i]
                < pending_spec(current as int)[j],
{
}

/// The tables that the datastore reads and writes.
pub open spec fn datastore_tables() -> Seq<Seq<char>> {
    seq!["schema_version"@, "buckets"@, "events"@, "key_value"@]
}

/// `stmt` creates the table `table` (unless it exists already), followed by
/// its column list.
pub open spec fn creates_table(stmt: Seq<char>, table: Seq<char>) -> bool {
    exists|columns: Seq<char>| stmt == "CREATE TABLE IF NOT EXISTS "@ + table + " ("@ + columns
}

/// One of `stmts` creates the table `table`.
pub open spec fn some_statement_creates(stmts: Seq<Seq<char>>, table: Seq<char>) -> bool {
    exists|i: int| 0 <= i < stmts.len() && creates_table(#[trigger] stmts[i], table)
}

/// On a fresh database (schema version below 1, or unreadable and taken as
/// 0) one migration is pending, and its statements create every table the
/// datastore uses: `schema_version`, `buckets`, `events` and `key_value`, the
/// last with a text key as primary key and a non-null text value.
pub proof fn law_fresh_database_gets_every_table(current: i32)
    requires
        current < 1,
    ensures
        pending_spec(current as int).len() == 1,
        forall|t: int|
            0 <= t < datastore_tables().len() ==> some_statement_creates(
                migration_sql(pending_spec(current as int)[0]),
                #[trigger] datastore_tables()[t],
            ),
        exists|i: int|
            0 <= i < migration_sql(pending_spec(current as int)[0]).len()
                && #[trigger] migration_sql(pending_spec(current as int)[0])[i]
                == "CREATE TABLE IF NOT EXISTS key_value (key TEXT PRIMARY KEY, value TEXT NOT NULL)"@,
{
    let sql = migration_sql(1);
    let head = "CREATE TABLE IF NOT EXISTS "@;
    let open = " ("@;
    reveal_strlit("CREATE TABLE IF NOT EXISTS ");
    reveal_strlit(" (");
    reveal_strlit("schema_version");
    reveal_strlit("buckets");
    reveal_strlit("events");
    reveal_strlit("key_value");
    reveal_strlit("version INTEGER PRIMARY KEY, applied TIMESTAMP WITH TIME ZONE NOT NULL)");
    reveal_strlit("CREATE TABLE IF NOT EXISTS schema_version (version INTEGER PRIMARY KEY, applied TIMESTAMP WITH TIME ZONE NOT NULL)");
    reveal_strlit("id SERIAL PRIMARY KEY, name TEXT NOT NULL UNIQUE, type TEXT NOT NULL, client TEXT NOT NULL, hostname TEXT NOT NULL, created TIMESTAMP WITH TIME ZONE NOT NULL, data JSONB NOT NULL DEFAULT '{}'::jsonb)");
    reveal_strlit("CREATE TABLE IF NOT EXISTS buckets (id SERIAL PRIMARY KEY, name TEXT NOT NULL UNIQUE, type TEXT NOT NULL, client TEXT NOT NULL, hostname TEXT NOT NULL, created TIMESTAMP WITH TIME ZONE NOT NULL, data JSONB NOT NULL DEFAULT '{}'::jsonb)");
    reveal_strlit("id BIGSERIAL PRIMARY KEY, bucketrow INTEGER NOT NULL REFERENCES buckets(id) ON DELETE CASCADE, starttime TIMESTAMP WITH TIME ZONE NOT NULL, endtime TIMESTAMP WITH TIME ZONE NOT NULL, data JSONB NOT NULL)");
    reveal_strlit("CREATE TABLE IF NOT EXISTS events (id BIGSERIAL PRIMARY KEY, bucketrow INTEGER NOT NULL REFERENCES buckets(id) ON DELETE CASCADE, starttime TIMESTAMP WITH TIME ZONE NOT NULL, endtime TIMESTAMP WITH TIME ZONE NOT NULL, data JSONB NOT NULL)");
    reveal_strlit("key TEXT PRIMARY KEY, value TEXT NOT NULL)");
    reveal_strlit("CREATE TABLE IF NOT EXISTS key_value (key TEXT PRIMARY KEY, value TEXT NOT NULL)");
    let c0 = "version INTEGER PRIMARY KEY, applied TIMESTAMP WITH TIME ZONE NOT NULL)"@;
    let c1 = "id SERIAL PRIMARY KEY, name TEXT NOT NULL UNIQUE, type TEXT NOT NULL, client TEXT NOT NULL, hostname TEXT NOT NULL, created TIMESTAMP WITH TIME ZONE NOT NULL, data JSONB NOT NULL DEFAULT '{}'::jsonb)"@;
    let c3 = "id BIGSERIAL PRIMARY KEY, bucketrow INTEGER NOT NULL REFERENCES buckets(id) ON DELETE CASCADE, starttime TIMESTAMP WITH TIME ZONE NOT NULL, endtime TIMESTAMP WITH TIME ZONE NOT NULL, data JSONB NOT NULL)"@;
    let c6 = "key TEXT PRIMARY KEY, value TEXT NOT NULL)"@;
    assert(sql[0] =~= head + "schema_version"@ + open + c0);
    assert(sql[1] =~= head + "buckets"@ + open + c1);
    assert(sql[3] =~= head + "events"@ + open + c3);
    assert(sql[6] =~= head + "key_value"@ + open + c6);
    assert(creates_table(sql[0], datastore_tables()[0]));
    assert(creates_table(sql[1], datastore_tables()[1]));
    assert(creates_table(sql[3], datastore_tables()[2]));
    assert(creates_table(sql[6], datastore_tables()[3]));
    assert(pending_spec(current as int)[0] == 1i32);
    assert forall|t: int| 0 <= t < datastore_tables().len() implies some_statement_creates(
        sql,
        #[trigger] datastore_tables()[t],
    ) by {
        if t == 0 {
            assert(creates_table(sql[0], datastore_tables()[t]));
        } else if t == 1 {
            assert(creates_table(sql[1], datastore_tables()[t]));
        } else if t == 2 {
            assert(creates_table(sql[3], datastore_tables()[t]));
        } else {
            assert(creates_table(sql[6], datastore_tables()[t]));
        }
    }
    assert(sql[6] == "CREATE TABLE IF NOT EXISTS key_value (key TEXT PRIMARY KEY, value TEXT NOT NULL)"@);
}

} // verus!
