use bsz::auth::{
    check_admin_token, decide_admin_request, lockout_remaining, query_has_token, record_failure, AuthOutcome,
    FailRecord,
};
use bsz::config::{max_body_size_from, parse_size, parse_u64, save_interval_from, size_from_upper, Config};

#[test]
fn save_interval_zero_is_invalid() {
    assert_eq!(save_interval_from(Some("0")), 30);
    assert_eq!(save_interval_from(Some("15")), 15);
    assert_eq!(save_interval_from(Some("x")), 30);
    assert_eq!(save_interval_from(None), 30);
}

#[test]
fn sizes() {
    assert_eq!(parse_size("100MB"), Some(104857600));
    assert_eq!(parse_size(" 1gb "), Some(1073741824));
    assert_eq!(parse_size("512KB"), Some(524288));
    assert_eq!(parse_size("10485760"), Some(10485760));
    assert_eq!(parse_size("7 b"), Some(7));
    assert_eq!(parse_size("2 MB"), Some(2097152));
    assert_eq!(parse_size("lots"), None);
    assert_eq!(size_from_upper("3KB"), Some(3072));
    assert_eq!(max_body_size_from(None), 104857600);
    assert_eq!(max_body_size_from(Some("junk")), 104857600);
}

#[test]
fn decimal_numbers() {
    assert_eq!(parse_u64("42"), Some(42));
    assert_eq!(parse_u64("+7"), Some(7));
    assert_eq!(parse_u64(""), None);
    assert_eq!(parse_u64("+"), None);
    assert_eq!(parse_u64("-1"), None);
    assert_eq!(parse_u64("18446744073709551615"), Some(u64::MAX));
    assert_eq!(parse_u64("18446744073709551616"), None);
}

#[test]
fn config_defaults() {
    let c = Config::from_values(None, None, None, None, None);
    assert_eq!(c.web_addr, "0.0.0.0:8080");
    assert_eq!(c.domain, "localhost:8080");
    assert_eq!(c.admin_token, "");
    assert_eq!(c.save_interval, 30);
    assert_eq!(c.max_body_size, 104857600);
    let d = Config::from_values(Some("9000"), Some("c.example"), Some("tok"), Some("5"), Some("1KB"));
    assert_eq!(d.web_addr, "0.0.0.0:9000");
    assert_eq!(d.domain, "c.example");
    assert_eq!(d.admin_token, "tok");
    assert_eq!(d.save_interval, 5);
    assert_eq!(d.max_body_size, 1024);
}

#[test]
fn admin_token_sources() {
    assert!(check_admin_token("secret", Some("Bearer secret"), None, None));
    assert!(check_admin_token("secret", Some("secret"), None, None));
    assert!(!check_admin_token("secret", Some("Bearer nope"), Some("secret"), None));
    assert!(check_admin_token("secret", None, Some("secret"), None));
    assert!(check_admin_token("secret", None, None, Some("a=1&token=se%63ret")));
    assert!(!check_admin_token("secret", None, None, Some("a=1&tokens=secret")));
    assert!(query_has_token("token=x&token=secret", "secret"));
    assert!(!query_has_token("", "secret"));
}

#[test]
fn lockout_after_five_failures() {
    let mut rec = None;
    for t in 0..5u64 {
        let (outcome, next) = decide_admin_request(true, rec, 100 + t, false);
        assert_eq!(outcome, AuthOutcome::Denied);
        rec = next;
    }
    assert_eq!(rec, Some(FailRecord { count: 5, last_fail: 104 }));
    let (outcome, _) = decide_admin_request(true, rec, 110, true);
    assert_eq!(outcome, AuthOutcome::LockedOut(294));
    assert_eq!(lockout_remaining(rec, 404), None);
    let (outcome, next) = decide_admin_request(true, rec, 404, true);
    assert_eq!(outcome, AuthOutcome::Allowed);
    assert_eq!(next, None);
    assert_eq!(record_failure(rec, 404), FailRecord { count: 1, last_fail: 404 });
    assert_eq!(decide_admin_request(false, rec, 0, false).0, AuthOutcome::Open);
}
