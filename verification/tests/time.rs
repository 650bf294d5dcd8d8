use blog_replay::time::parse_assuming_utc;
use blog_replay::time::parse_datetime;

#[test]
fn rfc3339_parsing_to_epoch_seconds() {
    assert_eq!(parse_datetime("1970-01-01T00:00:05+00:00"), Some(5));
    assert_eq!(parse_datetime("2001-09-09T01:46:40Z"), Some(1_000_000_000));
    // An offset shifts the instant.
    assert_eq!(parse_datetime("1970-01-01T01:00:00+01:00"), Some(0));
    assert_eq!(parse_datetime("not a date"), None);
    assert_eq!(parse_datetime("1970-01-01T00:00:05"), None);
}

#[test]
fn naive_parsing_assumes_utc() {
    assert_eq!(parse_assuming_utc("1970-01-01T00:01:00"), Some(60));
    assert_eq!(parse_assuming_utc("2020-01-02T03:04:05"), Some(1_577_934_245));
    assert_eq!(parse_assuming_utc("1970-01-01T00:00:05+00:00"), None);
    assert_eq!(parse_assuming_utc(""), None);
}
