//! Verified core of the ActivityWatch PostgreSQL datastore: metrics, retry
//! and health decisions, schema migration plans, configuration, and the
//! query, clipping and merging rules of the event store.
use vstd::prelude::*;
use vstd::string::*;


pub mod datastore_pg;
pub mod health;
pub mod metrics;
pub mod migrations;
pub mod retry;
pub mod server;

pub mod text;
pub mod worker;

pub use health::HealthStatus;
pub use metrics::DbMetrics;
pub use retry::RetryPolicy;
pub use worker::DbConfig;

verus! {

/// Where a datastore keeps its data.
#[derive(Debug, Clone)]
pub enum DatastoreMethod {
    Memory(),
    File(String),
}

/// A failed datastore operation.
#[derive(Debug, Clone)]
pub enum DatastoreError {
    NoSuchBucket(String),
    BucketAlreadyExists(String),
    NoSuchKey(String),
    MpscError,
    InternalError(String),
    Uninitialized(String),
    OldDbVersion(String),
}

/// `context`, a colon and a space, then `detail`: the message of an internal error.
pub open spec fn internal_message(context: Seq<char>, detail: Seq<char>) -> Seq<char> {
    context + ": "@ + detail
}

/// An internal error whose message is `context: detail`.
pub fn internal_error(context: &str, detail: &str) -> (e: DatastoreError)
    ensures
        e matches DatastoreError::InternalError(m) && m@ == internal_message(context@, detail@),
{
    let mut m = context.to_owned();
    m.append(": ");
    m.append(detail);
    DatastoreError::InternalError(m)
}

} // verus!
