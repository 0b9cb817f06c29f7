use geraldo::trial::{trial_days_expired, trial_days_remaining, trial_expiry, MILLIS_PER_DAY};

const INSTALL: i64 = 1_700_000_000;

#[test]
fn expiry_is_five_days_after_install() {
    assert_eq!(trial_expiry(INSTALL), INSTALL as i128 * 1000 + 5 * 86_400_000);
}

#[test]
fn fresh_install_has_five_days() {
    let now = INSTALL * 1000;
    assert_eq!(trial_days_remaining(INSTALL, now), 5);
    assert_eq!(trial_days_expired(INSTALL, now), None);
}

#[test]
fn partial_days_truncate() {
    let now = INSTALL * 1000 + MILLIS_PER_DAY / 2;
    assert_eq!(trial_days_remaining(INSTALL, now), 4);
}

#[test]
fn expired_reports_whole_days() {
    let expiry = trial_expiry(INSTALL) as i64;
    assert_eq!(trial_days_expired(INSTALL, expiry), None);
    assert_eq!(trial_days_expired(INSTALL, expiry + 1), Some(0));
    assert_eq!(trial_days_expired(INSTALL, expiry + 3 * MILLIS_PER_DAY + 5), Some(3));
    assert_eq!(trial_days_remaining(INSTALL, expiry + MILLIS_PER_DAY / 2), 0);
    assert_eq!(trial_days_remaining(INSTALL, expiry + 2 * MILLIS_PER_DAY), -2);
}

use geraldo::trial::parse_install_time;

#[test]
fn license_text_parses_like_an_integer() {
    assert_eq!(parse_install_time("1700000000"), Some(1_700_000_000));
    assert_eq!(parse_install_time(" 1700000000\n"), Some(1_700_000_000));
    assert_eq!(parse_install_time("\u{3000}42\u{a0}"), Some(42));
    assert_eq!(parse_install_time("+5"), Some(5));
    assert_eq!(parse_install_time("-5"), Some(-5));
    assert_eq!(parse_install_time("9223372036854775807"), Some(i64::MAX));
    assert_eq!(parse_install_time("-9223372036854775808"), Some(i64::MIN));
}

#[test]
fn malformed_license_text_is_rejected() {
    for bad in ["", "   ", "-", "+", "abc", "1 2", "12a", "9223372036854775808", "-9223372036854775809", "99999999999999999999999"] {
        assert_eq!(parse_install_time(bad), None, "{:?}", bad);
        assert_eq!(bad.trim().parse::<i64>().ok(), None, "{:?}", bad);
    }
}
