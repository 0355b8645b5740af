use slack_relay::text::{parse_i64, str_eq};

#[test]
fn parse_matches_std_parse() {
    for s in [
        "0",
        "-0",
        "+0",
        "42",
        "+42",
        "-42",
        "007",
        "9223372036854775807",
        "9223372036854775808",
        "-9223372036854775808",
        "-9223372036854775809",
        "99999999999999999999999999999999999999999999",
        "000000000000000000000000000000000000000000005",
        "",
        "+",
        "-",
        "12x",
        "x12",
        " 12",
        "12 ",
        "1.5",
        "--4",
        "+-4",
    ] {
        assert_eq!(parse_i64(s), s.parse::<i64>().ok(), "text {:?}", s);
    }
}

#[test]
fn parse_extreme_values() {
    assert_eq!(parse_i64("9223372036854775807"), Some(i64::MAX));
    assert_eq!(parse_i64("-9223372036854775808"), Some(i64::MIN));
    assert_eq!(parse_i64("9223372036854775808"), None);
    assert_eq!(parse_i64("-9223372036854775809"), None);
}

#[test]
fn str_eq_compares_text() {
    assert!(str_eq("", ""));
    assert!(str_eq("abc", "abc"));
    assert!(!str_eq("abc", "abd"));
    assert!(!str_eq("abc", "abcd"));
    assert!(str_eq("žluť", "žluť"));
    assert!(!str_eq("žluť", "zlut"));
}
