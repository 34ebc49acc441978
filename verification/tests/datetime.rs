use k3_live_manager::datetime::{
    check_refresh_required, datetime_epoch, datetime_from_epoch, epoch_limit_secs,
    format_datetime, parse_datetime, DateTime,
};
use k3_live_manager::oauth_service::{expiry_string, now_epoch_from_unix};

const DAY: u64 = 86400;

#[test]
fn parse_accepts_exact_shape() {
    let dt = parse_datetime("2099-12-31 23:59:59").unwrap();
    assert_eq!(
        dt,
        DateTime { year: 2099, month: 12, day: 31, hour: 23, minute: 59, second: 59 }
    );
}

#[test]
fn parse_rejects_malformed_strings() {
    assert!(parse_datetime("never").is_none());
    assert!(parse_datetime("").is_none());
    assert!(parse_datetime("2099-12-31T23:59:59").is_none());
    assert!(parse_datetime("2099-12-31 23:59:5").is_none());
    assert!(parse_datetime("2099-12-31 23:59:590").is_none());
    assert!(parse_datetime("99-12-31 23:59:59").is_none());
}

#[test]
fn parse_rejects_calendar_invalid_dates() {
    assert!(parse_datetime("2023-02-29 00:00:00").is_none());
    assert!(parse_datetime("2024-02-29 00:00:00").is_some());
    assert!(parse_datetime("2100-02-29 00:00:00").is_none());
    assert!(parse_datetime("2000-02-29 00:00:00").is_some());
    assert!(parse_datetime("2023-04-31 00:00:00").is_none());
    assert!(parse_datetime("2023-00-10 00:00:00").is_none());
    assert!(parse_datetime("2023-13-10 00:00:00").is_none());
    assert!(parse_datetime("2023-12-00 00:00:00").is_none());
    assert!(parse_datetime("2023-12-10 24:00:00").is_none());
    assert!(parse_datetime("2023-12-10 23:60:00").is_none());
    assert!(parse_datetime("2023-12-10 23:00:60").is_none());
}

#[test]
fn format_round_trips_through_parse() {
    let dt = DateTime { year: 1970, month: 1, day: 1, hour: 0, minute: 0, second: 0 };
    let s = format_datetime(&dt);
    assert_eq!(s, "1970-01-01 00:00:00");
    assert_eq!(parse_datetime(&s), Some(dt));

    let dt2 = DateTime { year: 2024, month: 2, day: 29, hour: 6, minute: 5, second: 4 };
    let s2 = format_datetime(&dt2);
    assert_eq!(s2, "2024-02-29 06:05:04");
    assert_eq!(parse_datetime(&s2), Some(dt2));
}

#[test]
fn epoch_counts_days_and_seconds() {
    let jan1 = DateTime { year: 0, month: 1, day: 1, hour: 0, minute: 0, second: 0 };
    assert_eq!(datetime_epoch(&jan1), 0);
    let jan2 = DateTime { year: 0, month: 1, day: 2, hour: 0, minute: 0, second: 1 };
    assert_eq!(datetime_epoch(&jan2), DAY + 1);
    // Year 0 is a leap year in the proleptic Gregorian calendar.
    let mar1 = DateTime { year: 0, month: 3, day: 1, hour: 0, minute: 0, second: 0 };
    assert_eq!(datetime_epoch(&mar1), (31 + 29) * DAY);
}

#[test]
fn epoch_of_unix_base_matches_known_day_count() {
    // 719528 days from 0000-01-01 to 1970-01-01.
    let unix_base = DateTime { year: 1970, month: 1, day: 1, hour: 0, minute: 0, second: 0 };
    assert_eq!(datetime_epoch(&unix_base), 719528 * DAY);
    assert_eq!(now_epoch_from_unix(0), 719528 * DAY);
    assert_eq!(now_epoch_from_unix(-10), 719528 * DAY - 10);
    assert_eq!(now_epoch_from_unix(i64::MIN), 0);
}

#[test]
fn from_epoch_inverts_epoch() {
    for dt in [
        DateTime { year: 1970, month: 1, day: 1, hour: 0, minute: 0, second: 0 },
        DateTime { year: 2024, month: 2, day: 29, hour: 23, minute: 59, second: 59 },
        DateTime { year: 9999, month: 12, day: 31, hour: 23, minute: 59, second: 59 },
        DateTime { year: 0, month: 1, day: 1, hour: 0, minute: 0, second: 1 },
    ] {
        let e = datetime_epoch(&dt);
        assert_eq!(datetime_from_epoch(e), dt);
    }
    assert_eq!(epoch_limit_secs(), datetime_epoch(&DateTime {
        year: 9999,
        month: 12,
        day: 31,
        hour: 23,
        minute: 59,
        second: 59,
    }) + 1);
}

#[test]
fn refresh_required_compares_against_now_plus_skew() {
    let exp = "2030-06-15 12:00:00";
    let threshold = datetime_epoch(&DateTime {
        year: 2030,
        month: 6,
        day: 15,
        hour: 12,
        minute: 0,
        second: 0,
    });
    assert!(!check_refresh_required(exp, threshold - 31, 30));
    assert!(check_refresh_required(exp, threshold - 30, 30));
    assert!(check_refresh_required(exp, threshold, 0));
    assert!(check_refresh_required("garbage", 0, 0));
}

#[test]
fn expiry_string_renders_now_plus_lifetime() {
    let now = datetime_epoch(&DateTime {
        year: 2020,
        month: 1,
        day: 1,
        hour: 0,
        minute: 0,
        second: 0,
    });
    assert_eq!(expiry_string(now, Some(3600)), "2020-01-01 01:00:00");
    assert_eq!(expiry_string(now, Some(0)), "2020-01-01 00:00:00");
    assert_eq!(expiry_string(now, None), "2099-12-31 23:59:59");
    assert_eq!(expiry_string(now, Some(u64::MAX)), "9999-12-31 23:59:59");
}
