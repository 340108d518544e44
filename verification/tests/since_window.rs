use std::time::Duration;

use agentprof::since::{parse_since, parse_since_window};

#[test]
fn recognises_dhms_and_all() {
    assert_eq!(parse_since("1d").unwrap(), Duration::from_secs(86400));
    assert_eq!(parse_since("2h").unwrap(), Duration::from_secs(7200));
    assert_eq!(parse_since("30m").unwrap(), Duration::from_secs(1800));
    assert_eq!(parse_since("45s").unwrap(), Duration::from_secs(45));
    assert_eq!(parse_since("all").unwrap(), Duration::MAX);
}

#[test]
fn rejects_garbage() {
    assert!(parse_since("12x").is_err());
    assert!(parse_since("abcd").is_err());
    assert!(parse_since("12.5d").is_err());
}

#[test]
fn saturates_on_overflow_instead_of_panic() {
    let r = parse_since("1000000000000000000d").unwrap();
    assert_eq!(r, Duration::from_secs(u64::MAX));
}

#[test]
fn parse_since_recognises_dhms() {
    assert_eq!(parse_since("7d").unwrap(), Duration::from_secs(7 * 86400));
    assert_eq!(parse_since("24h").unwrap(), Duration::from_secs(24 * 3600));
    assert_eq!(parse_since("30m").unwrap(), Duration::from_secs(30 * 60));
    assert_eq!(parse_since("45s").unwrap(), Duration::from_secs(45));
}

#[test]
fn parse_since_recognises_all() {
    assert_eq!(parse_since("all").unwrap(), Duration::MAX);
}

#[test]
fn parse_since_rejects_garbage() {
    assert!(parse_since("foo").is_err());
    assert!(parse_since("7x").is_err());
    assert!(parse_since("xx7d").is_err());
}

#[test]
fn parse_since_recognises_dhms_and_all() {
    assert_eq!(parse_since("7d").unwrap(), Duration::from_secs(7 * 86400));
    assert_eq!(parse_since("3h").unwrap(), Duration::from_secs(3 * 3600));
    assert_eq!(parse_since("5m").unwrap(), Duration::from_secs(5 * 60));
    assert_eq!(parse_since("45s").unwrap(), Duration::from_secs(45));
    assert_eq!(parse_since("all").unwrap(), Duration::MAX);
    assert!(parse_since("foo").is_err());
}

#[test]
fn since_window_error_messages() {
    assert_eq!(
        parse_since_window("12x").unwrap_err(),
        "unrecognized --since: 12x; use <N>d/h/m/s or 'all'"
    );
    assert_eq!(
        parse_since_window("").unwrap_err(),
        "unrecognized --since: ; use <N>d/h/m/s or 'all'"
    );
    assert_eq!(
        parse_since_window("abcd").unwrap_err(),
        "not a number: abc (invalid digit found in string)"
    );
    assert_eq!(
        parse_since_window("d").unwrap_err(),
        "not a number:  (cannot parse integer from empty string)"
    );
}

#[test]
fn since_window_accepts_plus_sign_and_zero() {
    assert_eq!(parse_since_window("+5m").unwrap(), (300, 0));
    assert_eq!(parse_since_window("0s").unwrap(), (0, 0));
    assert_eq!(parse_since_window("all").unwrap(), (u64::MAX, 999_999_999));
}

#[test]
fn since_window_saturates_exactly_at_the_boundary() {
    // u64::MAX / 86_400 = 213_503_982_334_601 (floor); one more day overflows.
    assert_eq!(
        parse_since_window("213503982334601d").unwrap(),
        (213_503_982_334_601 * 86_400, 0)
    );
    assert_eq!(parse_since_window("213503982334602d").unwrap(), (u64::MAX, 0));
}
