use xiv_quote::codec::parse_counts;
use xiv_quote::codec::serialize_counts;
use xiv_quote::counts::needs_refresh;
use xiv_quote::counts::CategoryCounts;
use xiv_quote::digits::u16_to_string;

#[test]
fn needs_refresh_when_cache_absent() {
    assert!(needs_refresh(false, None));
    let other = String::from("something");
    assert!(needs_refresh(false, Some(&other)));
}

#[test]
fn no_refresh_when_present_without_token() {
    assert!(!needs_refresh(true, None));
    let other = String::from("Refresh");
    assert!(!needs_refresh(true, Some(&other)));
}

#[test]
fn refresh_token_always_refreshes() {
    let token = String::from("refresh");
    assert!(needs_refresh(true, Some(&token)));
    assert!(needs_refresh(false, Some(&token)));
}

#[test]
fn serialize_gives_pretty_json() {
    let c = CategoryCounts::new(500, 10, 0);
    let s = serialize_counts(&c);
    assert_eq!(s, "{\n  \"npc_yell\": 500,\n  \"minion\": 10,\n  \"mount\": 0\n}");
}

#[test]
fn round_trip_keeps_fields() {
    let c = CategoryCounts::new(500, 10, 0);
    let parsed = parse_counts(&serialize_counts(&c));
    assert_eq!(parsed, Some(c));
}

#[test]
fn round_trip_extremes() {
    let zero = CategoryCounts::new(0, 0, 0);
    assert_eq!(parse_counts(&serialize_counts(&zero)), Some(zero));
    let max = CategoryCounts::new(65535, 65535, 65535);
    let s = serialize_counts(&max);
    assert_eq!(s, "{\n  \"npc_yell\": 65535,\n  \"minion\": 65535,\n  \"mount\": 65535\n}");
    assert_eq!(parse_counts(&s), Some(max));
}

#[test]
fn decimal_rendering_is_exact() {
    assert_eq!(u16_to_string(0), "0");
    assert_eq!(u16_to_string(7), "7");
    assert_eq!(u16_to_string(10), "10");
    assert_eq!(u16_to_string(999), "999");
    assert_eq!(u16_to_string(65535), "65535");
}

#[test]
fn parse_accepts_loose_whitespace() {
    let s = " {\t\"npc_yell\" :\r\n1 , \"minion\": 2,\n\"mount\"\n:\n3 } ";
    assert_eq!(parse_counts(s), Some(CategoryCounts::new(1, 2, 3)));
}

#[test]
fn parse_rejects_malformed_text() {
    assert_eq!(parse_counts(""), None);
    assert_eq!(parse_counts("{}"), None);
    assert_eq!(parse_counts("not json"), None);
    // fields out of order
    assert_eq!(parse_counts("{\"minion\": 1, \"npc_yell\": 2, \"mount\": 3}"), None);
    // a field missing
    assert_eq!(parse_counts("{\"npc_yell\": 1, \"minion\": 2}"), None);
    // unclosed object
    assert_eq!(parse_counts("{\"npc_yell\": 1, \"minion\": 2, \"mount\": 3"), None);
    // trailing garbage
    assert_eq!(parse_counts("{\"npc_yell\": 1, \"minion\": 2, \"mount\": 3} x"), None);
}

#[test]
fn parse_rejects_bad_numbers() {
    // leading zero
    assert_eq!(parse_counts("{\"npc_yell\": 012, \"minion\": 2, \"mount\": 3}"), None);
    assert_eq!(parse_counts("{\"npc_yell\": 00, \"minion\": 2, \"mount\": 3}"), None);
    // too large for a count
    assert_eq!(parse_counts("{\"npc_yell\": 65536, \"minion\": 2, \"mount\": 3}"), None);
    // no digits at all
    assert_eq!(parse_counts("{\"npc_yell\": -1, \"minion\": 2, \"mount\": 3}"), None);
    // a single zero is fine
    assert_eq!(
        parse_counts("{\"npc_yell\": 0, \"minion\": 2, \"mount\": 3}"),
        Some(CategoryCounts::new(0, 2, 3))
    );
}
