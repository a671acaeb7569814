use mercury::clock::{
    convert_tz, notification_time, shown_time, too_old, zone_is_known, DatetimeArg, Stamp,
};

fn at(secs: i64) -> Stamp {
    Stamp { secs, nanos: 0 }
}

#[test]
fn two_hours_is_not_too_old() {
    assert!(!too_old(at(7200), at(0)));
    assert!(too_old(Stamp { secs: 7200, nanos: 1 }, at(0)));
    assert!(too_old(at(7201), at(0)));
    assert!(!too_old(at(0), at(5000)));
}

#[test]
fn knows_time_zones() {
    assert!(zone_is_known("Europe/Berlin"));
    assert!(zone_is_known("UTC"));
    assert!(!zone_is_known("Mars/Olympus"));
}

#[test]
fn writes_notification_times_locally() {
    assert_eq!(notification_time(at(0), "UTC"), Some("1970-01-01 00:00:00".to_string()));
    assert_eq!(
        notification_time(at(1_588_334_400), "Europe/Berlin"),
        Some("2020-05-01 14:00:00".to_string())
    );
    assert_eq!(notification_time(at(0), "Nowhere"), None);
}

#[test]
fn shows_times_with_their_zone() {
    assert_eq!(shown_time(at(0), "UTC"), Some("1970-01-01 00:00:00 UTC".to_string()));
    assert_eq!(
        shown_time(at(1_577_880_000), "Europe/Berlin"),
        Some("2020-01-01 13:00:00 CET".to_string())
    );
}

#[test]
fn convert_tz_with_a_format() {
    let r = convert_tz(&DatetimeArg::Seconds(1_588_334_400), &Some("%H:%M".to_string()), "Europe/Berlin");
    assert_eq!(r, Some(Ok("14:00".to_string())));
}

#[test]
fn convert_tz_without_a_format() {
    let r = convert_tz(&DatetimeArg::Seconds(0), &None, "UTC");
    assert_eq!(r, Some(Ok("1970-01-01 00:00:00 UTC".to_string())));
}

#[test]
fn convert_tz_errors() {
    assert_eq!(
        convert_tz(&DatetimeArg::Missing, &None, "UTC"),
        Some(Err("oops no datetime given".to_string()))
    );
    let arg = DatetimeArg::Unreadable { shown: "\"x\"".to_string(), reason: "not a number".to_string() };
    assert_eq!(
        convert_tz(&arg, &None, "UTC"),
        Some(Err("oops error converting timezone: \"x\": not a number".to_string()))
    );
}

#[test]
fn convert_tz_out_of_range_gives_nothing() {
    assert_eq!(convert_tz(&DatetimeArg::Seconds(i64::MAX), &None, "UTC"), None);
}

#[test]
fn convert_tz_bad_pattern_gives_nothing() {
    assert_eq!(convert_tz(&DatetimeArg::Seconds(0), &Some("%Q".to_string()), "UTC"), None);
}

#[test]
fn times_at_the_edges_of_chronos_range() {
    let max = 8_210_266_876_799;
    let min = -8_334_601_228_800;
    assert!(shown_time(at(max), "UTC").is_some());
    assert!(shown_time(at(max + 1), "UTC").is_none());
    assert!(shown_time(at(min), "UTC").is_some());
    assert!(shown_time(at(min - 1), "UTC").is_none());
    assert!(notification_time(at(max), "Europe/Berlin").is_some());
    assert!(notification_time(at(min - 1), "Europe/Berlin").is_none());
}

#[test]
fn leap_second_nanoseconds() {
    assert!(shown_time(Stamp { secs: 59, nanos: 1_500_000_000 }, "UTC").is_some());
    assert!(shown_time(Stamp { secs: 58, nanos: 1_500_000_000 }, "UTC").is_none());
    assert!(shown_time(Stamp { secs: 59, nanos: 2_000_000_000 }, "UTC").is_none());
    assert!(shown_time(Stamp { secs: -1, nanos: 1_000_000_000 }, "UTC").is_some());
}
