use aw_datastore::server::parse_custom_static;

#[test]
fn custom_static_pairs() {
    let v = parse_custom_static("watcher1=/path,watcher2=/path2").unwrap();
    assert_eq!(
        v,
        vec![
            ("watcher1".to_string(), "/path".to_string()),
            ("watcher2".to_string(), "/path2".to_string())
        ]
    );
}

#[test]
fn custom_static_takes_text_up_to_second_equals() {
    let v = parse_custom_static("a=b=c").unwrap();
    assert_eq!(v, vec![("a".to_string(), "b".to_string())]);
}

#[test]
fn custom_static_without_equals_is_refused() {
    assert!(parse_custom_static("watcher1=/path,broken").is_none());
    assert!(parse_custom_static("").is_none());
}
