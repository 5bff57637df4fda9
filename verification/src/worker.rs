//! Database configuration and the decisions of the connection layer: the
//! settings that configuration falls back to, the connection string, the
//! start-up connection retries, and the bookkeeping of pool checkouts.
use vstd::prelude::*;
use vstd::string::*;

use crate::metrics::{bumped, DbMetrics};
use crate::text::{decimal, parse_u16, parse_u16_text, push_decimal, trim, trim_text};
use crate::{internal_error, internal_message, DatastoreError};

verus! {

/// Database configuration for PostgreSQL.
#[derive(Clone, Debug)]
pub struct DbConfig {
    pub host: String,
    pub port: u16,
    pub user: String,
    pub password: String,
    pub database: String,
}

/// The port used when none is configured, or the configured one is not a number.
pub const DEFAULT_PORT: u16 = 5432;

/// How many times start-up tries to reach the database.
pub const CONNECT_ATTEMPTS: u32 = 5;

/// How long start-up waits between two connection attempts, in milliseconds.
pub const CONNECT_RETRY_DELAY_MS: u64 = 2000;

/// The text of a configured value, or of `default` when none is configured.
pub open spec fn setting_or(value: Option<String>, default: Seq<char>) -> Seq<char> {
    match value {
        Some(v) => v@,
        None => default,
    }
}

/// The port that a configured port text gives: the number it parses to, or
/// the default port when there is no text or it is not a 16-bit number.
pub open spec fn port_setting(value: Option<String>) -> u16 {
    match value {
        Some(v) => match parse_u16_text(v@) {
            Some(p) => p,
            None => DEFAULT_PORT,
        },
        None => DEFAULT_PORT,
    }
}

/// The libpq-style connection string of a configuration.
pub open spec fn connection_text(c: DbConfig) -> Seq<char> {
    "host="@ + c.host@ + " port="@ + decimal(c.port as nat) + " user="@ + c.user@ + " password="@
        + c.password@ + " dbname="@ + c.database@
}

/// The password that configuration uses: the trimmed contents of the password
/// file when one was read, else the password variable, else `activitywatch`.
pub open spec fn password_setting(file_contents: Option<String>, env_password: Option<String>) -> Seq<
    char,
> {
    match file_contents {
        Some(f) => trim_text(f@),
        None => setting_or(env_password, "activitywatch"@),
    }
}

fn value_or(value: Option<String>, default: &str) -> (r: String)
    ensures
        r@ == setting_or(value, default@),
{
    match value {
        Some(v) => v,
        None => default.to_owned(),
    }
}

fn override_with(current: String, value: Option<String>) -> (r: String)
    ensures
        r@ == setting_or(value, current@),
{
    match value {
        Some(v) => v,
        None => current,
    }
}

impl DbConfig {
    /// The configuration built from the settings that were found (in the
    /// environment): the host, port, user and database fall back to
    /// `localhost`, 5432, `aw_user` and `activitywatch`.
    pub fn from_settings(
        host: Option<String>,
        port: Option<String>,
        user: Option<String>,
        password: String,
        database: Option<String>,
    ) -> (c: DbConfig)
        ensures
            c.host@ == setting_or(host, "localhost"@),
            c.port == port_setting(port),
            c.user@ == setting_or(user, "aw_user"@),
            c.password == password,
            c.database@ == setting_or(database, "activitywatch"@),
    {
        let port_number = match &port {
            Some(p) => match parse_u16(p.as_str()) {
                Some(n) => n,
                None => DEFAULT_PORT,
            },
            None => DEFAULT_PORT,
        };
        DbConfig {
            host: value_or(host, "localhost"),
            port: port_number,
            user: value_or(user, "aw_user"),
            password,
            database: value_or(database, "activitywatch"),
        }
    }

    /// The password to use: the trimmed contents of the password file when it
    /// could be read, else the password setting, else `activitywatch`.
    pub fn resolve_password(file_contents: Option<String>, env_password: Option<String>) -> (r:
        String)
        ensures
            r@ == password_setting(file_contents, env_password),
    {
        match file_contents {
            Some(f) => trim(f.as_str()),
            None => value_or(env_password, "activitywatch"),
        }
    }

    /// This configuration with every given value put in place of the current one.
    pub fn with_overrides(
        self,
        host: Option<String>,
        port: Option<u16>,
        user: Option<String>,
        password: Option<String>,
        database: Option<String>,
    ) -> (c: DbConfig)
        ensures
            c.host@ == setting_or(host, self.host@),
            c.port == match port {
                Some(p) => p,
                None => self.port,
            },
            c.user@ == setting_or(user, self.user@),
            c.password@ == setting_or(password, self.password@),
            c.database@ == setting_or(database, self.database@),
    {
        DbConfig {
            host: override_with(self.host, host),
            port: match port {
                Some(p) => p,
                None => self.port,
            },
            user: override_with(self.user, user),
            password: override_with(self.password, password),
            database: override_with(self.database, database),
        }
    }

    /// The connection string:
    /// `host=H port=P user=U password=W dbname=D`.
    pub fn connection_string(&self) -> (r: String)
        ensures
            r@ == connection_text(*self),
    {
        let mut s = "host=".to_owned();
        s.append(self.host.as_str());
        s.append(" port=");
        push_decimal(&mut s, self.port as u64);
        s.append(" user=");
        s.append(self.user.as_str());
        s.append(" password=");
        s.append(self.password.as_str());
        s.append(" dbname=");
        s.append(self.database.as_str());
        s
    }
}

/// What start-up does after a connection attempt.
#[derive(Debug, Clone)]
pub enum ConnectStep {
    /// The database answered; go on.
    Connected,
    /// Wait this many milliseconds, then try again.
    RetryAfter(u64),
    /// Give up with this error.
    Fail(DatastoreError),
}

/// Decides what start-up does after connection attempt number `attempt` (of
/// `max_attempts`), which failed with the given error text or succeeded.
pub fn after_connect_attempt(attempt: u32, max_attempts: u32, failure: Option<String>) -> (s:
    ConnectStep)
    ensures
        match failure {
            None => s is Connected,
            Some(e) => if attempt < max_attempts {
                s == ConnectStep::RetryAfter(CONNECT_RETRY_DELAY_MS)
            } else {
                s matches ConnectStep::Fail(DatastoreError::InternalError(m)) && m@
                    == internal_message("Failed to connect to database"@, e@)
            },
        },
{
    match failure {
        None => ConnectStep::Connected,
        Some(e) => {
            if attempt < max_attempts {
                ConnectStep::RetryAfter(CONNECT_RETRY_DELAY_MS)
            } else {
                ConnectStep::Fail(internal_error("Failed to connect to database", e.as_str()))
            }
        },
    }
}

/// Books a checkout of a pooled connection that took `elapsed_ms`: a success
/// counts as a query, a failure (its error text) as an error and becomes an
/// internal error.
pub fn pool_checkout(metrics: &mut DbMetrics, elapsed_ms: u64, failure: Option<String>) -> (r:
    Result<(), DatastoreError>)
    requires
        old(metrics).well_formed(),
    ensures
        final(metrics).well_formed(),
        match failure {
            None => {
                &&& r is Ok
                &&& final(metrics)@.queries_total == bumped(old(metrics)@.queries_total)
                &&& final(metrics)@.errors_total == old(metrics)@.errors_total
                &&& final(metrics)@.durations_ms.to_multiset() == old(
                    metrics,
                )@.durations_ms.to_multiset().insert(elapsed_ms)
            },
            Some(e) => {
                &&& r matches Err(DatastoreError::InternalError(m)) && m@ == internal_message(
                    "Failed to get connection from pool"@,
                    e@,
                )
                &&& final(metrics)@.errors_total == bumped(old(metrics)@.errors_total)
                &&& final(metrics)@.queries_total == old(metrics)@.queries_total
                &&& final(metrics)@.durations_ms == old(metrics)@.durations_ms
            },
        },
        final(metrics)@.pool_connections_active == old(metrics)@.pool_connections_active,
        final(metrics)@.pool_connections_idle == old(metrics)@.pool_connections_idle,
{
    match failure {
        None => {
            metrics.record_query("pool_get", elapsed_ms);
            Ok(())
        },
        Some(e) => {
            metrics.record_error("pool_get");
            Err(internal_error("Failed to get connection from pool", e.as_str()))
        },
    }
}

} // verus!
