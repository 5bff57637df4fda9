use aw_datastore::datastore_pg::{event_end, found_bucket, found_key};
use aw_datastore::datastore_pg::{
    bucket_deletion, clip_events, clip_span, create_bucket_error, event_count_query, event_from_row,
    event_not_found, events_query, heartbeat_action, heartbeat_window_start, key_deletion, Event,
    HeartbeatAction,
};
use aw_datastore::DatastoreError;

#[test]
fn events_query_numbers_parameters() {
    let base = "SELECT id, bucketrow, starttime, endtime, data FROM events WHERE bucketrow = $1";
    assert_eq!(events_query(false, false, false), format!("{} ORDER BY starttime DESC", base));
    assert_eq!(
        events_query(true, true, true),
        format!("{} AND endtime >= $2 AND starttime <= $3 ORDER BY starttime DESC LIMIT $4", base)
    );
    assert_eq!(
        events_query(false, true, true),
        format!("{} AND starttime <= $2 ORDER BY starttime DESC LIMIT $3", base)
    );
    assert_eq!(
        events_query(true, false, false),
        format!("{} AND endtime >= $2 ORDER BY starttime DESC", base)
    );
    assert_eq!(events_query(false, false, true), format!("{} ORDER BY starttime DESC LIMIT $2", base));
}

#[test]
fn count_query_numbers_parameters() {
    assert_eq!(event_count_query(false, false), "SELECT COUNT(*) FROM events WHERE bucketrow = $1");
    assert_eq!(
        event_count_query(true, true),
        "SELECT COUNT(*) FROM events WHERE bucketrow = $1 AND endtime >= $2 AND starttime <= $3"
    );
    assert_eq!(
        event_count_query(false, true),
        "SELECT COUNT(*) FROM events WHERE bucketrow = $1 AND starttime <= $2"
    );
}

#[test]
fn clipping_to_a_range() {
    // event 0..100 clipped to 20..50
    assert_eq!(clip_span(0, 100, Some(20), Some(50)), (20, 30));
    // inside the range: unchanged
    assert_eq!(clip_span(30, 10, Some(20), Some(50)), (30, 10));
    // only a start
    assert_eq!(clip_span(0, 100, Some(20), None), (20, 80));
    // only an end
    assert_eq!(clip_span(0, 100, None, Some(50)), (0, 50));
    // clipping twice changes nothing
    let (t, d) = clip_span(0, 100, Some(20), Some(50));
    assert_eq!(clip_span(t, d, Some(20), Some(50)), (t, d));
}

#[test]
fn clipping_events_keeps_ids_and_data() {
    let events = vec![
        Event { id: Some(1), timestamp: 0, duration: 100, data: "a" },
        Event { id: Some(2), timestamp: 40, duration: 5, data: "b" },
    ];
    let clipped = clip_events(events.clone(), Some(20), Some(50), false);
    assert_eq!(clipped.len(), 2);
    assert_eq!((clipped[0].id, clipped[0].timestamp, clipped[0].duration, clipped[0].data), (Some(1), 20, 30, "a"));
    assert_eq!((clipped[1].id, clipped[1].timestamp, clipped[1].duration, clipped[1].data), (Some(2), 40, 5, "b"));
    let raw = clip_events(events, Some(20), Some(50), true);
    assert_eq!((raw[0].timestamp, raw[0].duration), (0, 100));
}

#[test]
fn events_from_rows() {
    match event_from_row(7, 1_000, 6_000, Some("data")) {
        Ok(e) => assert_eq!((e.id, e.timestamp, e.duration, e.data), (Some(7), 1_000, 5_000, "data")),
        Err(e) => panic!("{:?}", e),
    }
    match event_from_row::<&str>(7, 1_000, 6_000, None) {
        Err(DatastoreError::InternalError(m)) => assert_eq!(m, "Event data is not a JSON object"),
        other => panic!("{:?}", other),
    }
}

#[test]
fn heartbeats_merge_or_insert() {
    assert_eq!(heartbeat_window_start(10_000_000, 10_000), 0);
    assert_eq!(
        heartbeat_action(100, 5, Some((9, 50))),
        HeartbeatAction::ExtendEvent { id: 9, endtime: 105 }
    );
    assert_eq!(
        heartbeat_action(100, 5, Some((9, 500))),
        HeartbeatAction::ExtendEvent { id: 9, endtime: 500 }
    );
    assert_eq!(heartbeat_action(100, 5, None), HeartbeatAction::InsertEvent { starttime: 100, endtime: 105 });
}

#[test]
fn bucket_creation_errors() {
    match create_bucket_error("b1", "duplicate key value violates unique constraint") {
        DatastoreError::BucketAlreadyExists(b) => assert_eq!(b, "b1"),
        other => panic!("{:?}", other),
    }
    match create_bucket_error("b1", "connection closed") {
        DatastoreError::InternalError(m) => assert_eq!(m, "Failed to create bucket: connection closed"),
        other => panic!("{:?}", other),
    }
}

#[test]
fn deletions_of_missing_rows() {
    assert!(matches!(bucket_deletion(0, "b"), Err(DatastoreError::NoSuchBucket(b)) if b == "b"));
    assert!(bucket_deletion(1, "b").is_ok());
    assert!(matches!(key_deletion(0, "k"), Err(DatastoreError::NoSuchKey(k)) if k == "k"));
    assert!(key_deletion(3, "k").is_ok());
}

#[test]
fn missing_event_message() {
    match event_not_found(42) {
        DatastoreError::InternalError(m) => assert_eq!(m, "Event 42 not found"),
        other => panic!("{:?}", other),
    }
    match event_not_found(-7) {
        DatastoreError::InternalError(m) => assert_eq!(m, "Event -7 not found"),
        other => panic!("{:?}", other),
    }
    match event_not_found(i64::MIN) {
        DatastoreError::InternalError(m) => assert_eq!(m, format!("Event {} not found", i64::MIN)),
        other => panic!("{:?}", other),
    }
}

#[test]
fn lookups_of_missing_rows() {
    assert_eq!(found_bucket(Some(3), "b").unwrap(), 3);
    assert!(matches!(found_bucket::<i32>(None, "b"), Err(DatastoreError::NoSuchBucket(b)) if b == "b"));
    assert_eq!(found_key(Some("v"), "k").unwrap(), "v");
    assert!(matches!(found_key::<&str>(None, "k"), Err(DatastoreError::NoSuchKey(k)) if k == "k"));
    assert_eq!(event_end(1_000, 5_000), 6_000);
}
