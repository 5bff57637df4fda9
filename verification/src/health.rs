//! Database health status and the decisions of the health checks.
//!
//! The checks themselves (taking a pooled connection, running a query, reading
//! the schema version, all under a timeout) are performed by the asynchronous
//! caller; it reports what it observed, and the status is decided here.
use vstd::prelude::*;
use vstd::string::*;

verus! {

/// Health check status.
#[derive(Debug, Clone, PartialEq)]
pub enum HealthStatus {
    Healthy,
    Unhealthy(String),
    Degraded(String),
}

/// What a comprehensive check observed before it stopped.
#[derive(Debug, Clone, PartialEq)]
pub enum ProbeOutcome {
    /// No connection could be taken from the pool (the error's text).
    NoConnection(String),
    /// The connectivity query failed (the error's text).
    QueryFailed(String),
    /// The schema version was read.
    SchemaVersion(i32),
    /// The schema version could not be read (the error's text).
    SchemaUnreadable(String),
}

/// How a check ended under its timeout.
#[derive(Debug, Clone, PartialEq)]
pub enum CheckOutcome<T> {
    /// The check ran to its end with this result.
    Finished(T),
    /// The check itself failed (the error's text).
    Failed(String),
    /// The timeout elapsed first.
    TimedOut,
}

/// The message that an unhealthy or degraded status carries.
pub open spec fn status_message(s: HealthStatus) -> Seq<char> {
    match s {
        HealthStatus::Healthy => Seq::empty(),
        HealthStatus::Unhealthy(m) => m@,
        HealthStatus::Degraded(m) => m@,
    }
}

/// `prefix` followed by `rest`, as a new string.
fn message(prefix: &str, rest: &str) -> (r: String)
    ensures
        r@ == prefix@ + rest@,
{
    let mut m = prefix.to_owned();
    m.append(rest);
    m
}

impl HealthStatus {
    /// The database is fully working.
    pub fn is_healthy(&self) -> (r: bool)
        ensures
            r == (*self is Healthy),
    {
        matches!(self, HealthStatus::Healthy)
    }

    /// The database cannot be used.
    pub fn is_unhealthy(&self) -> (r: bool)
        ensures
            r == (*self is Unhealthy),
    {
        matches!(self, HealthStatus::Unhealthy(_))
    }
}

/// The schema version that the schema probe reports: zero when the
/// `schema_version` table does not exist or holds no rows, else its largest
/// version.
pub fn schema_version_from(table_exists: bool, max_version: Option<i32>) -> (v: i32)
    ensures
        v == if !table_exists {
            0
        } else {
            match max_version {
                Some(m) => m,
                None => 0,
            }
        },
{
    if !table_exists {
        return 0;
    }
    match max_version {
        Some(m) => m,
        None => 0,
    }
}

/// The status that a comprehensive check reports for what it observed: no
/// connection or a failed query make it unhealthy; a positive schema version
/// makes it healthy; otherwise it is degraded.
pub fn probe_status(o: &ProbeOutcome) -> (s: HealthStatus)
    ensures
        match *o {
            ProbeOutcome::NoConnection(e) => s is Unhealthy && status_message(s)
                == "Cannot get connection from pool: "@ + e@,
            ProbeOutcome::QueryFailed(e) => s is Unhealthy && status_message(s)
                == "Database query failed: "@ + e@,
            ProbeOutcome::SchemaVersion(v) => if v > 0 {
                s is Healthy
            } else {
                s is Degraded && status_message(s)
                    == "Schema version is 0, database may not be initialized"@
            },
            ProbeOutcome::SchemaUnreadable(e) => s is Degraded && status_message(s)
                == "Cannot verify schema version: "@ + e@,
        },
{
    match o {
        ProbeOutcome::NoConnection(e) => HealthStatus::Unhealthy(
            message("Cannot get connection from pool: ", e.as_str()),
        ),
        ProbeOutcome::QueryFailed(e) => HealthStatus::Unhealthy(
            message("Database query failed: ", e.as_str()),
        ),
        ProbeOutcome::SchemaVersion(v) => {
            if *v > 0 {
                HealthStatus::Healthy
            } else {
                HealthStatus::Degraded(
                    "Schema version is 0, database may not be initialized".to_owned(),
                )
            }
        },
        ProbeOutcome::SchemaUnreadable(e) => HealthStatus::Degraded(
            message("Cannot verify schema version: ", e.as_str()),
        ),
    }
}

/// The status of a comprehensive check run under a timeout; `timeout_text`
/// is the `Debug` rendering of the timeout.
pub fn check_status(o: CheckOutcome<HealthStatus>, timeout_text: &str) -> (s: HealthStatus)
    ensures
        match o {
            CheckOutcome::Finished(st) => s == st,
            CheckOutcome::Failed(e) => s is Unhealthy && status_message(s) == "Health check failed: "@
                + e@,
            CheckOutcome::TimedOut => s is Unhealthy && status_message(s)
                == "Health check timed out after "@ + timeout_text@,
        },
{
    match o {
        CheckOutcome::Finished(st) => st,
        CheckOutcome::Failed(e) => HealthStatus::Unhealthy(
            message("Health check failed: ", e.as_str()),
        ),
        CheckOutcome::TimedOut => HealthStatus::Unhealthy(
            message("Health check timed out after ", timeout_text),
        ),
    }
}

/// The status of a liveness check (connectivity only) run under its timeout.
pub fn liveness_status(o: CheckOutcome<()>) -> (s: HealthStatus)
    ensures
        match o {
            CheckOutcome::Finished(_) => s is Healthy,
            CheckOutcome::Failed(e) => s is Unhealthy && status_message(s)
                == "Liveness check failed: "@ + e@,
            CheckOutcome::TimedOut => s is Unhealthy && status_message(s)
                == "Liveness check timed out"@,
        },
{
    match o {
        CheckOutcome::Finished(_) => HealthStatus::Healthy,
        CheckOutcome::Failed(e) => HealthStatus::Unhealthy(
            message("Liveness check failed: ", e.as_str()),
        ),
        CheckOutcome::TimedOut => HealthStatus::Unhealthy("Liveness check timed out".to_owned()),
    }
}

/// No status is both healthy and unhealthy; a degraded status is neither.
pub proof fn law_health_kinds_exclusive(s: HealthStatus)
    ensures
        !(s is Healthy && s is Unhealthy),
        s is Degraded ==> !(s is Healthy) && !(s is Unhealthy),
{
}

} // verus!
