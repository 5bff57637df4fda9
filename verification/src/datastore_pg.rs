//! The rules of the PostgreSQL event store that do not need the database:
//! the event queries with their optional filters, clipping of events to a
//! time range, merging of heartbeats, reading events out of result rows, and
//! the errors that database failures become.
//!
//! Times are microseconds since the Unix epoch and durations are
//! microseconds, the precision PostgreSQL keeps for timestamps.
use vstd::prelude::*;
use vstd::string::*;

use crate::text::{contains_str, contains_text, decimal, occurs_at, push_decimal, push_signed_decimal, signed_decimal};
use crate::{internal_error, internal_message, DatastoreError};

verus! {

/// An event of a bucket. `timestamp` and `duration` are in microseconds; the
/// event's data is carried along untouched.
#[derive(Debug, Clone)]
pub struct Event<D> {
    pub id: Option<i64>,
    pub timestamp: i64,
    pub duration: i64,
    pub data: D,
}

/// A numbered query parameter: `$n`.
pub open spec fn param(n: nat) -> Seq<char> {
    "$"@ + decimal(n)
}

/// The optional time filters, numbered from parameter `$2` on: events that end
/// at or after the start, and events that start at or before the end.
pub open spec fn time_filters(has_starttime: bool, has_endtime: bool) -> Seq<char> {
    (if has_starttime {
        " AND endtime >= "@ + param(2)
    } else {
        Seq::empty()
    }) + (if has_endtime {
        " AND starttime <= "@ + param(if has_starttime {
            3
        } else {
            2
        })
    } else {
        Seq::empty()
    })
}

/// The number of parameters that the filters take, besides the bucket row `$1`.
pub open spec fn filter_count(has_starttime: bool, has_endtime: bool) -> nat {
    (if has_starttime {
        1nat
    } else {
        0nat
    }) + (if has_endtime {
        1nat
    } else {
        0nat
    })
}

/// The query for the events of bucket row `$1`, newest first, with the
/// optional time filters and an optional limit as the last parameter.
pub open spec fn events_query_text(has_starttime: bool, has_endtime: bool, has_limit: bool) -> Seq<
    char,
> {
    "SELECT id, bucketrow, starttime, endtime, data FROM events WHERE bucketrow = $1"@
        + time_filters(has_starttime, has_endtime) + " ORDER BY starttime DESC"@ + (if has_limit {
        " LIMIT "@ + param(filter_count(has_starttime, has_endtime) + 2)
    } else {
        Seq::empty()
    })
}

/// The query that counts the events of bucket row `$1` within the optional
/// time filters.
pub open spec fn event_count_query_text(has_starttime: bool, has_endtime: bool) -> Seq<char> {
    "SELECT COUNT(*) FROM events WHERE bucketrow = $1"@ + time_filters(has_starttime, has_endtime)
}

fn push_time_filters(q: &mut String, has_starttime: bool, has_endtime: bool)
    ensures
        final(q)@ == old(q)@ + time_filters(has_starttime, has_endtime),
{
    let ghost start = q@;
    let mut param_count: u64 = 1;
    if has_starttime {
        param_count = param_count + 1;
        q.append(" AND endtime >= $");
        push_decimal(q, param_count);
    }
    let ghost mid = q@;
    if has_endtime {
        param_count = param_count + 1;
        q.append(" AND starttime <= $");
        push_decimal(q, param_count);
    }
    proof {
        reveal_strlit("$");
        reveal_strlit(" AND endtime >= $");
        reveal_strlit(" AND endtime >= ");
        reveal_strlit(" AND starttime <= $");
        reveal_strlit(" AND starttime <= ");
        let a = if has_starttime {
            " AND endtime >= "@ + param(2)
        } else {
            Seq::<char>::empty()
        };
        let b = if has_endtime {
            " AND starttime <= "@ + param(
                if has_starttime {
                    3
                } else {
                    2
                },
            )
        } else {
            Seq::<char>::empty()
        };
        assert(" AND endtime >= $"@ =~= " AND endtime >= "@ + "$"@);
        assert(" AND starttime <= $"@ =~= " AND starttime <= "@ + "$"@);
        assert(mid =~= start + a);
        assert(q@ =~= mid + b);
        assert(q@ =~= start + (a + b));
    }
}

/// The query for the events of a bucket with the given optional filters.
/// The parameters are, in order: the bucket row, the start, the end, the limit
/// (each filter only when present).
pub fn events_query(has_starttime: bool, has_endtime: bool, has_limit: bool) -> (q: String)
    ensures
        q@ == events_query_text(has_starttime, has_endtime, has_limit),
{
    let mut q = "SELECT id, bucketrow, starttime, endtime, data FROM events WHERE bucketrow = $1".to_owned();
    push_time_filters(&mut q, has_starttime, has_endtime);
    q.append(" ORDER BY starttime DESC");
    let ghost before_limit = q@;
    if has_limit {
        let mut n: u64 = 2;
        if has_starttime {
            n = n + 1;
        }
        if has_endtime {
            n = n + 1;
        }
        q.append(" LIMIT $");
        push_decimal(&mut q, n);
        proof {
            reveal_strlit("$");
            reveal_strlit(" LIMIT $");
            reveal_strlit(" LIMIT ");
            assert(" LIMIT $"@ =~= " LIMIT "@ + "$"@);
            assert(n == filter_count(has_starttime, has_endtime) + 2);
            assert(q@ =~= before_limit + (" LIMIT "@ + param(n as nat)));
        }
    }
    assert(q@ =~= events_query_text(has_starttime, has_endtime, has_limit));
    q
}

/// The query that counts the events of a bucket within the given optional
/// filters. The parameters are, in order: the bucket row, the start, the end.
pub fn event_count_query(has_starttime: bool, has_endtime: bool) -> (q: String)
    ensures
        q@ == event_count_query_text(has_starttime, has_endtime),
{
    let mut q = "SELECT COUNT(*) FROM events WHERE bucketrow = $1".to_owned();
    push_time_filters(&mut q, has_starttime, has_endtime);
    q
}

/// No character of `s` is `c`.
pub open spec fn lacks_char(s: Seq<char>, c: char) -> bool {
    forall|j: int| 0 <= j < s.len() ==> s[j] != c
}

proof fn lemma_lacks_char_concat(a: Seq<char>, b: Seq<char>, c: char)
    requires
        lacks_char(a, c),
        lacks_char(b, c),
    ensures
        lacks_char(a + b, c),
{
    assert forall|j: int| 0 <= j < (a + b).len() implies (a + b)[j] != c by {
        if j >= a.len() {
            assert((a + b)[j] == b[j - a.len()]);
        }
    }
}

proof fn lemma_lacks_char_absent(s: Seq<char>, pat: Seq<char>, k: int)
    requires
        0 <= k < pat.len(),
        lacks_char(s, pat[k]),
    ensures
        !contains_text(s, pat),
{
    if contains_text(s, pat) {
        let i = choose|i: int| occurs_at(s, pat, i);
        assert(s.subrange(i, i + pat.len())[k] == pat[k]);
        assert(s[i + k] == pat[k]);
    }
}

proof fn lemma_count_head_chars()
    ensures
        lacks_char("SELECT COUNT(*) FROM events WHERE bucketrow = $1"@, '>'),
        lacks_char("SELECT COUNT(*) FROM events WHERE bucketrow = $1"@, '<'),
{
    reveal_strlit("SELECT COUNT(*) FROM events WHERE bucketrow = $1");
}

proof fn lemma_contains_middle(a: Seq<char>, pat: Seq<char>, b: Seq<char>)
    ensures
        contains_text(a + pat + b, pat),
{
    assert((a + pat + b).subrange(a.len() as int, (a.len() + pat.len()) as int) =~= pat);
    assert(occurs_at(a + pat + b, pat, a.len() as int));
}

/// The count query filters exactly as asked: it holds the start filter
/// ` AND endtime >= $2` if and only if a start time is given, and the end
/// filter ` AND starttime <= $n` if and only if an end time is given, its
/// parameter numbered `$3` after a start filter and `$2` without one.
pub proof fn law_count_query_filters(has_starttime: bool, has_endtime: bool)
    ensures
        contains_text(event_count_query_text(has_starttime, has_endtime), " AND endtime >= $2"@)
            == has_starttime,
        contains_text(event_count_query_text(has_starttime, has_endtime), " AND endtime >= "@)
            == has_starttime,
        contains_text(event_count_query_text(has_starttime, has_endtime), " AND starttime <= "@)
            == has_endtime,
        has_endtime && has_starttime ==> contains_text(
            event_count_query_text(has_starttime, has_endtime),
            " AND starttime <= $3"@,
        ),
        has_endtime && !has_starttime ==> contains_text(
            event_count_query_text(has_starttime, has_endtime),
            " AND starttime <= $2"@,
        ),
{
    let head = "SELECT COUNT(*) FROM events WHERE bucketrow = $1"@;
    let start_kw = " AND endtime >= "@;
    let end_kw = " AND starttime <= "@;
    reveal_strlit("$");
    reveal_strlit(" AND endtime >= ");
    reveal_strlit(" AND starttime <= ");
    reveal_strlit(" AND endtime >= $2");
    reveal_strlit(" AND starttime <= $3");
    reveal_strlit(" AND starttime <= $2");
    lemma_count_head_chars();
    assert(decimal(2) == seq!['2']);
    assert(decimal(3) == seq!['3']);
    assert(lacks_char("$"@, '>') && lacks_char("$"@, '<'));
    assert(lacks_char(decimal(2), '>') && lacks_char(decimal(2), '<'));
    assert(lacks_char(decimal(3), '>') && lacks_char(decimal(3), '<'));
    assert(lacks_char(start_kw, '<'));
    assert(lacks_char(end_kw, '>'));
    let sf = start_kw + param(2);
    let ef = end_kw + param(
        if has_starttime {
            3
        } else {
            2
        },
    );
    let q = event_count_query_text(has_starttime, has_endtime);
    assert(" AND endtime >= $2"@ =~= sf);
    assert(" AND starttime <= $3"@ =~= end_kw + param(3));
    assert(" AND starttime <= $2"@ =~= end_kw + param(2));
    assert(" AND endtime >= $2"@[13] == '>');
    assert(start_kw[13] == '>');
    assert(end_kw[15] == '<');
    lemma_lacks_char_concat("$"@, decimal(2), '>');
    lemma_lacks_char_concat("$"@, decimal(2), '<');
    lemma_lacks_char_concat("$"@, decimal(3), '<');
    lemma_lacks_char_concat(start_kw, param(2), '<');
    lemma_lacks_char_concat(end_kw, param(2), '>');
    lemma_lacks_char_concat(end_kw, param(3), '>');
    if has_starttime {
        if has_endtime {
            assert(q =~= head + sf + ef);
            lemma_contains_middle(head, sf, ef);
            lemma_contains_middle(head, start_kw, param(2) + ef);
            assert(head + start_kw + (param(2) + ef) =~= q);
            lemma_contains_middle(head + sf, ef, Seq::empty());
            assert(head + sf + ef + Seq::empty() =~= q);
            lemma_contains_middle(head + sf, end_kw, param(3));
            assert(head + sf + end_kw + param(3) =~= q);
        } else {
            assert(q =~= head + sf + Seq::empty());
            lemma_contains_middle(head, sf, Seq::empty());
            lemma_contains_middle(head, start_kw, param(2));
            assert(head + start_kw + param(2) =~= q);
            lemma_lacks_char_concat(head, sf, '<');
            lemma_lacks_char_absent(q, end_kw, 15);
        }
    } else {
        if has_endtime {
            assert(q =~= head + ef);
            lemma_contains_middle(head, ef, Seq::empty());
            assert(head + ef + Seq::empty() =~= q);
            lemma_contains_middle(head, end_kw, param(2));
            assert(head + end_kw + param(2) =~= q);
            lemma_lacks_char_concat(head, ef, '>');
            lemma_lacks_char_absent(q, " AND endtime >= $2"@, 13);
            lemma_lacks_char_absent(q, start_kw, 13);
        } else {
            assert(q =~= head);
            lemma_lacks_char_absent(q, " AND endtime >= $2"@, 13);
            lemma_lacks_char_absent(q, start_kw, 13);
            lemma_lacks_char_absent(q, end_kw, 15);
        }
    }
}

/// The count query and the events query with the same flags filter alike:
/// after their own heads both carry the same filter text, which in the
/// events query the ordering (and the optional limit) follow.
pub proof fn law_count_and_events_share_filters(has_starttime: bool, has_endtime: bool, has_limit: bool)
    ensures
        exists|filters: Seq<char>, rest: Seq<char>|
            event_count_query_text(has_starttime, has_endtime)
                == "SELECT COUNT(*) FROM events WHERE bucketrow = $1"@ + filters
                && events_query_text(has_starttime, has_endtime, has_limit)
                == "SELECT id, bucketrow, starttime, endtime, data FROM events WHERE bucketrow = $1"@
                + filters + " ORDER BY starttime DESC"@ + rest,
{
    let filters = time_filters(has_starttime, has_endtime);
    let rest = if has_limit {
        " LIMIT "@ + param(filter_count(has_starttime, has_endtime) + 2)
    } else {
        Seq::<char>::empty()
    };
    assert(events_query_text(has_starttime, has_endtime, has_limit)
        == "SELECT id, bucketrow, starttime, endtime, data FROM events WHERE bucketrow = $1"@
        + filters + " ORDER BY starttime DESC"@ + rest);
}

/// The larger of two integers.
pub open spec fn max_int(a: int, b: int) -> int {
    if a >= b {
        a
    } else {
        b
    }
}

/// The smaller of two integers.
pub open spec fn min_int(a: int, b: int) -> int {
    if a <= b {
        a
    } else {
        b
    }
}

/// Where an event starts after clipping: not before the range's start.
pub open spec fn clipped_start(timestamp: int, starttime: Option<i64>) -> int {
    match starttime {
        Some(s) => max_int(timestamp, s as int),
        None => timestamp,
    }
}

/// Where an event ends after clipping: not after the range's end.
pub open spec fn clipped_end(timestamp: int, duration: int, endtime: Option<i64>) -> int {
    match endtime {
        Some(e) => min_int(timestamp + duration, e as int),
        None => timestamp + duration,
    }
}

/// Clipping can be done in 64-bit arithmetic: the event's end, and its
/// duration after clipping, are representable.
pub open spec fn clip_fits(
    timestamp: i64,
    duration: i64,
    starttime: Option<i64>,
    endtime: Option<i64>,
) -> bool {
    &&& i64::MIN <= timestamp + duration <= i64::MAX
    &&& i64::MIN <= clipped_end(timestamp as int, duration as int, endtime) - clipped_start(
        timestamp as int,
        starttime,
    ) <= i64::MAX
}

/// Clips an event to the time range: an event that starts before `starttime`
/// is made to start there, and one that ends after `endtime` is made to end
/// there. Returns the new timestamp and duration.
pub fn clip_span(timestamp: i64, duration: i64, starttime: Option<i64>, endtime: Option<i64>) -> (r: (
    i64,
    i64,
))
    requires
        clip_fits(timestamp, duration, starttime, endtime),
    ensures
        r.0 == clipped_start(timestamp as int, starttime),
        r.1 == clipped_end(timestamp as int, duration as int, endtime) - clipped_start(
            timestamp as int,
            starttime,
        ),
{
    let mut ts = timestamp;
    let mut dur = duration;
    if let Some(start) = starttime {
        if ts < start {
            let lost: i128 = (start as i128) - (ts as i128);
            dur = ((dur as i128) - lost) as i64;
            ts = start;
        }
    }
    if let Some(end) = endtime {
        let event_end: i128 = (ts as i128) + (dur as i128);
        if event_end > end as i128 {
            let lost: i128 = event_end - (end as i128);
            dur = ((dur as i128) - lost) as i64;
        }
    }
    (ts, dur)
}

/// The events as the event query returns them, each clipped to the time range
/// unless `unclipped` is set; ids and data are kept.
pub fn clip_events<D>(
    events: Vec<Event<D>>,
    starttime: Option<i64>,
    endtime: Option<i64>,
    unclipped: bool,
) -> (r: Vec<Event<D>>)
    requires
        !unclipped ==> forall|i: int|
            0 <= i < events@.len() ==> clip_fits(
                #[trigger] events@[i].timestamp,
                events@[i].duration,
                starttime,
                endtime,
            ),
    ensures
        r@.len() == events@.len(),
        forall|i: int|
            0 <= i < r@.len() ==> {
                &&& (#[trigger] r@[i]).id == events@[i].id
                &&& r@[i].data == events@[i].data
                &&& if unclipped {
                    r@[i].timestamp == events@[i].timestamp && r@[i].duration
                        == events@[i].duration
                } else {
                    &&& r@[i].timestamp == clipped_start(events@[i].timestamp as int, starttime)
                    &&& r@[i].duration == clipped_end(
                        events@[i].timestamp as int,
                        events@[i].duration as int,
                        endtime,
                    ) - clipped_start(events@[i].timestamp as int, starttime)
                }
            },
{
    let ghost input = events@;
    let mut out: Vec<Event<D>> = Vec::new();
    for ev in it: events
        invariant
            it.seq() == input,
            out@.len() == it.index(),
            !unclipped ==> forall|i: int|
                0 <= i < input.len() ==> clip_fits(
                    #[trigger] input[i].timestamp,
                    input[i].duration,
                    starttime,
                    endtime,
                ),
            forall|i: int|
                0 <= i < out@.len() ==> {
                    &&& (#[trigger] out@[i]).id == input[i].id
                    &&& out@[i].data == input[i].data
                    &&& if unclipped {
                        out@[i].timestamp == input[i].timestamp && out@[i].duration
                            == input[i].duration
                    } else {
                        &&& out@[i].timestamp == clipped_start(input[i].timestamp as int, starttime)
                        &&& out@[i].duration == clipped_end(
                            input[i].timestamp as int,
                            input[i].duration as int,
                            endtime,
                        ) - clipped_start(input[i].timestamp as int, starttime)
                    }
                },
    {
        let Event { id, timestamp, duration, data } = ev;
        if unclipped {
            out.push(Event { id, timestamp, duration, data });
        } else {
            let (ts, dur) = clip_span(timestamp, duration, starttime, endtime);
            out.push(Event { id, timestamp: ts, duration: dur, data });
        }
    }
    out
}

/// Reads an event out of a result row (`id`, `starttime`, `endtime`, and the
/// data, which is `None` when the stored data is not a JSON object). The
/// duration is the time from start to end.
pub fn event_from_row<D>(id: i64, starttime: i64, endtime: i64, data: Option<D>) -> (r: Result<
    Event<D>,
    DatastoreError,
>)
    requires
        i64::MIN <= endtime - starttime <= i64::MAX,
    ensures
        match data {
            Some(d) => r matches Ok(ev) && ev.id == Some(id) && ev.timestamp == starttime
                && ev.duration == endtime - starttime && ev.data == d,
            None => r matches Err(DatastoreError::InternalError(m)) && m@
                == "Event data is not a JSON object"@,
        },
{
    match data {
        Some(d) => Ok(Event { id: Some(id), timestamp: starttime, duration: endtime - starttime, data: d }),
        None => Err(DatastoreError::InternalError("Event data is not a JSON object".to_owned())),
    }
}

/// What a heartbeat does to the stored events.
#[derive(Debug, Clone, Copy, PartialEq, Eq)]
pub enum HeartbeatAction {
    /// Move the end of the stored event `id` to `endtime`.
    ExtendEvent { id: i64, endtime: i64 },
    /// Store a new event from `starttime` to `endtime`.
    InsertEvent { starttime: i64, endtime: i64 },
}

/// The earliest end that a stored event may have for a heartbeat at
/// `timestamp` to merge into it: `pulsetime_ms` milliseconds before it.
pub fn heartbeat_window_start(timestamp: i64, pulsetime_ms: i64) -> (r: i64)
    requires
        i64::MIN <= timestamp - pulsetime_ms * 1000 <= i64::MAX,
    ensures
        r == timestamp - pulsetime_ms * 1000,
{
    let w: i128 = (timestamp as i128) - (pulsetime_ms as i128) * 1000;
    w as i64
}

/// Decides what a heartbeat (an event from `timestamp` lasting `duration`)
/// does, given the latest stored event with the same data that ends inside
/// the pulse window (its id and end), if any: that event is extended to the
/// later of the two ends; without one, the heartbeat is stored as a new event.
pub fn heartbeat_action(timestamp: i64, duration: i64, last: Option<(i64, i64)>) -> (a:
    HeartbeatAction)
    requires
        i64::MIN <= timestamp + duration <= i64::MAX,
    ensures
        match last {
            Some((id, last_end)) => a == HeartbeatAction::ExtendEvent {
                id,
                endtime: max_int(timestamp + duration, last_end as int) as i64,
            },
            None => a == HeartbeatAction::InsertEvent {
                starttime: timestamp,
                endtime: (timestamp + duration) as i64,
            },
        },
{
    let endtime = timestamp + duration;
    match last {
        Some((id, last_end)) => {
            let new_end = if endtime > last_end {
                endtime
            } else {
                last_end
            };
            HeartbeatAction::ExtendEvent { id, endtime: new_end }
        },
        None => HeartbeatAction::InsertEvent { starttime: timestamp, endtime },
    }
}

/// The error that a failed bucket insertion becomes: a violated uniqueness
/// constraint means the bucket exists already; anything else is internal.
pub fn create_bucket_error(bucket_id: &str, db_error: &str) -> (e: DatastoreError)
    ensures
        if contains_text(db_error@, "duplicate key"@) || contains_text(
            db_error@,
            "unique constraint"@,
        ) {
            e matches DatastoreError::BucketAlreadyExists(b) && b@ == bucket_id@
        } else {
            e matches DatastoreError::InternalError(m) && m@ == internal_message(
                "Failed to create bucket"@,
                db_error@,
            )
        },
{
    if contains_str(db_error, "duplicate key") || contains_str(db_error, "unique constraint") {
        DatastoreError::BucketAlreadyExists(bucket_id.to_owned())
    } else {
        internal_error("Failed to create bucket", db_error)
    }
}

/// The outcome of looking a bucket up by name: what was found, or
/// `NoSuchBucket` when nothing was (including when the lookup failed).
pub fn found_bucket<T>(found: Option<T>, bucket_id: &str) -> (r: Result<T, DatastoreError>)
    ensures
        match found {
            Some(v) => r == Ok::<T, DatastoreError>(v),
            None => r matches Err(DatastoreError::NoSuchBucket(b)) && b@ == bucket_id@,
        },
{
    match found {
        Some(v) => Ok(v),
        None => Err(DatastoreError::NoSuchBucket(bucket_id.to_owned())),
    }
}

/// The outcome of looking a key up: its value, or `NoSuchKey` when it is absent.
pub fn found_key<T>(found: Option<T>, key: &str) -> (r: Result<T, DatastoreError>)
    ensures
        match found {
            Some(v) => r == Ok::<T, DatastoreError>(v),
            None => r matches Err(DatastoreError::NoSuchKey(k)) && k@ == key@,
        },
{
    match found {
        Some(v) => Ok(v),
        None => Err(DatastoreError::NoSuchKey(key.to_owned())),
    }
}

/// The end of an event: its timestamp plus its duration.
pub fn event_end(timestamp: i64, duration: i64) -> (r: i64)
    requires
        i64::MIN <= timestamp + duration <= i64::MAX,
    ensures
        r == timestamp + duration,
{
    timestamp + duration
}

/// The outcome of deleting a bucket: deleting no row means there was no such bucket.
pub fn bucket_deletion(rows_affected: u64, bucket_id: &str) -> (r: Result<(), DatastoreError>)
    ensures
        rows_affected == 0 ==> (r matches Err(DatastoreError::NoSuchBucket(b)) && b@
            == bucket_id@),
        rows_affected != 0 ==> r is Ok,
{
    if rows_affected == 0 {
        Err(DatastoreError::NoSuchBucket(bucket_id.to_owned()))
    } else {
        Ok(())
    }
}

/// The outcome of deleting a key: deleting no row means there was no such key.
pub fn key_deletion(rows_affected: u64, key: &str) -> (r: Result<(), DatastoreError>)
    ensures
        rows_affected == 0 ==> (r matches Err(DatastoreError::NoSuchKey(k)) && k@ == key@),
        rows_affected != 0 ==> r is Ok,
{
    if rows_affected == 0 {
        Err(DatastoreError::NoSuchKey(key.to_owned()))
    } else {
        Ok(())
    }
}

/// The error for an event that is not in the bucket: `Event <id> not found`.
pub fn event_not_found(event_id: i64) -> (e: DatastoreError)
    ensures
        e matches DatastoreError::InternalError(m) && m@ == "Event "@ + signed_decimal(
            event_id as int,
        ) + " not found"@,
{
    let mut m = "Event ".to_owned();
    push_signed_decimal(&mut m, event_id);
    m.append(" not found");
    DatastoreError::InternalError(m)
}

/// A heartbeat never shortens what is stored: an extended event ends no
/// earlier than it did, nor than the heartbeat itself.
pub proof fn law_heartbeat_never_shortens(new_end: int, last_end: int)
    ensures
        max_int(new_end, last_end) >= last_end,
        max_int(new_end, last_end) >= new_end,
        max_int(new_end, last_end) == new_end || max_int(new_end, last_end) == last_end,
{
}

/// Clipping is idempotent: clipping an already clipped event to the same
/// range changes nothing.
pub proof fn law_clip_idempotent(
    timestamp: int,
    duration: int,
    starttime: Option<i64>,
    endtime: Option<i64>,
)
    ensures
        ({
            let s1 = clipped_start(timestamp, starttime);
            let d1 = clipped_end(timestamp, duration, endtime) - s1;
            &&& clipped_start(s1, starttime) == s1
            &&& clipped_end(s1, d1, endtime) - clipped_start(s1, starttime) == d1
        }),
{
}

/// A clipped event lies inside the range: it starts no earlier than the
/// range's start, ends no later than its end, and is never longer than the
/// event it came from.
pub proof fn law_clip_within_range(
    timestamp: int,
    duration: int,
    starttime: Option<i64>,
    endtime: Option<i64>,
)
    ensures
        starttime matches Some(s) ==> clipped_start(timestamp, starttime) >= s,
        endtime matches Some(e) ==> clipped_end(timestamp, duration, endtime) <= e,
        clipped_end(timestamp, duration, endtime) - clipped_start(timestamp, starttime) <= duration,
        clipped_start(timestamp, starttime) >= timestamp,
        clipped_end(timestamp, duration, endtime) <= timestamp + duration,
{
}

} // verus!
