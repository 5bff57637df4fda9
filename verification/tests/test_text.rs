use aw_datastore::text::{contains_str, decimal_string, parse_u16, split_str, trim};

#[test]
fn decimal_rendering() {
    assert_eq!(decimal_string(0), "0");
    assert_eq!(decimal_string(7), "7");
    assert_eq!(decimal_string(10), "10");
    assert_eq!(decimal_string(5432), "5432");
    assert_eq!(decimal_string(u64::MAX), u64::MAX.to_string());
}

#[test]
fn u16_parsing_matches_std() {
    for s in ["0", "5432", "+80", "65535", "65536", "", "+", "-1", " 1", "1 ", "12a", "00012", "99999999999", "٣"] {
        assert_eq!(parse_u16(s), s.parse::<u16>().ok(), "{:?}", s);
    }
}

#[test]
fn u16_roundtrip() {
    for n in [0u16, 1, 9, 10, 255, 5432, 65535] {
        assert_eq!(parse_u16(&decimal_string(n as u64)), Some(n));
    }
}

#[test]
fn trimming_matches_std() {
    for s in ["  secret \n", "\t\u{3000}pw\u{a0}", "", "   ", "a b", "\u{2028}x\u{205f}"] {
        assert_eq!(trim(s), s.trim(), "{:?}", s);
        assert_eq!(trim(&trim(s)), trim(s));
    }
}

#[test]
fn splitting_matches_std() {
    for s in ["a,b,c", "", ",", "a,,b", "abc,", ",abc"] {
        let expected: Vec<String> = s.split(',').map(|p| p.to_string()).collect();
        assert_eq!(split_str(s, ','), expected, "{:?}", s);
    }
}

#[test]
fn substring_search() {
    assert!(contains_str("connection refused", "refused"));
    assert!(contains_str("abc", ""));
    assert!(!contains_str("ab", "abc"));
    assert!(contains_str("ééconnection", "connection"));
    assert!(!contains_str("Connection", "connection"));
}
