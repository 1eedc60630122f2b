use sim_core::args::{parse_usize, resolve_count};

#[test]
fn parses_plain_digits() {
    assert_eq!(parse_usize(&b"42".to_vec()), Some(42));
    assert_eq!(parse_usize(&b"0".to_vec()), Some(0));
    assert_eq!(parse_usize(&b"007".to_vec()), Some(7));
    assert_eq!(parse_usize(&b"1000000".to_vec()), Some(1000000));
}

#[test]
fn parses_leading_plus_sign() {
    assert_eq!(parse_usize(&b"+7".to_vec()), Some(7));
    assert_eq!(parse_usize(&b"+0".to_vec()), Some(0));
}

#[test]
fn rejects_malformed_input() {
    assert_eq!(parse_usize(&b"".to_vec()), None);
    assert_eq!(parse_usize(&b"+".to_vec()), None);
    assert_eq!(parse_usize(&b"abc".to_vec()), None);
    assert_eq!(parse_usize(&b"12a".to_vec()), None);
    assert_eq!(parse_usize(&b"-5".to_vec()), None);
    assert_eq!(parse_usize(&b"1 2".to_vec()), None);
    assert_eq!(parse_usize(&b"1.5".to_vec()), None);
    assert_eq!(parse_usize(&b"++3".to_vec()), None);
}

#[test]
fn handles_the_largest_count() {
    let max = format!("{}", usize::MAX);
    assert_eq!(parse_usize(&max.as_bytes().to_vec()), Some(usize::MAX));
}

#[test]
fn rejects_overflowing_counts() {
    // usize::MAX + 1 on a 64-bit machine
    assert_eq!(parse_usize(&b"18446744073709551616".to_vec()), None);
    assert_eq!(parse_usize(&b"99999999999999999999999999".to_vec()), None);
}

#[test]
fn resolve_falls_back_to_default() {
    assert_eq!(resolve_count(None, 100), Some(100));
}

#[test]
fn resolve_prefers_supplied_value() {
    let supplied = b"25".to_vec();
    assert_eq!(resolve_count(Some(&supplied), 100), Some(25));
}

#[test]
fn resolve_reports_bad_value() {
    let supplied = b"many".to_vec();
    assert_eq!(resolve_count(Some(&supplied), 100), None);
}
