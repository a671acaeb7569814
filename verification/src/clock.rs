//! Points in time, their age, and their text in the local time zone.
use vstd::prelude::*;
use vstd::string::*;
use std::fmt::Write;
use chrono::{Offset, TimeZone};
use chrono_tz::Tz;

verus! {

/// A point in time: seconds since the Unix epoch (UTC) and nanoseconds into
/// the second.
#[derive(Clone, Copy, Debug)]
pub struct Stamp {
    pub secs: i64,
    pub nanos: u32,
}

/// A reading older than this is shown as too old.
pub const MAX_AGE_SECS: i64 = 7200;

/// The point in time, in nanoseconds since the epoch.
pub open spec fn stamp_nanos(s: Stamp) -> int {
    s.secs * 1_000_000_000 + s.nanos
}

/// More than `MAX_AGE_SECS` seconds lie between `then` and `now`.
pub open spec fn is_too_old(now: Stamp, then: Stamp) -> bool {
    stamp_nanos(now) - stamp_nanos(then) > MAX_AGE_SECS * 1_000_000_000
}

/// Whether a reading taken at `then` is too old at `now`: chrono's
/// `signed_duration_since` compared with two hours.
pub fn too_old(now: Stamp, then: Stamp) -> (r: bool)
    ensures
        r == is_too_old(now, then),
        r == ((now.secs - then.secs) * 1_000_000_000 + now.nanos - then.nanos > 7_200_000_000_000),
{
    let a: i128 = now.secs as i128 * 1_000_000_000 + now.nanos as i128;
    let b: i128 = then.secs as i128 * 1_000_000_000 + then.nanos as i128;
    a - b > MAX_AGE_SECS as i128 * 1_000_000_000
}

/// A reading is too old exactly when more than two hours (7200 seconds) lie
/// between the time it was taken and now, counted to the nanosecond over the
/// whole points in time, days included.
pub proof fn law_too_old_is_age_over_two_hours(now: Stamp, then: Stamp)
    ensures
        is_too_old(now, then) == ((now.secs - then.secs) * 1_000_000_000 + now.nanos - then.nanos
            > 7_200_000_000_000),
{
}

/// A reading taken earlier than a too-old one is too old as well, and one
/// taken later than a fresh one is fresh as well.
pub proof fn law_too_old_is_monotone(now: Stamp, then: Stamp, earlier: Stamp)
    requires
        earlier.secs * 1_000_000_000 + earlier.nanos <= then.secs * 1_000_000_000 + then.nanos,
    ensures
        is_too_old(now, then) ==> is_too_old(now, earlier),
        !is_too_old(now, earlier) ==> !is_too_old(now, then),
{
}

/// chrono's `DateTime::from_timestamp(secs, nanos)` gives a point in time:
/// the date lies between 1 January of the year -262143 and 31 December of
/// the year 262142, and the nanoseconds are under two seconds, reaching one
/// second only in the last second of a minute (a leap second).
pub open spec fn in_chrono_range(secs: i64, nanos: u32) -> bool {
    &&& -8_334_601_228_800 <= secs <= 8_210_266_876_799
    &&& nanos < 2_000_000_000
    &&& nanos >= 1_000_000_000 ==> secs % 60 == 59
}

/// chrono-tz knows a time zone of this name.
pub uninterp spec fn zone_known(zone: Seq<char>) -> bool;

/// chrono's text of a point in time in a time zone after a strftime pattern:
/// nothing when the zone is unknown, the point lies outside chrono's range,
/// or the pattern cannot be written.
pub uninterp spec fn formatted_local_time(
    secs: i64,
    nanos: u32,
    zone: Seq<char>,
    pattern: Seq<char>,
) -> Option<Seq<char>>;

/// chrono's text of a point in time in a time zone, with the zone's
/// abbreviation (`DateTime<Tz>`'s `Display`).
pub uninterp spec fn zoned_time_text(secs: i64, nanos: u32, zone: Seq<char>) -> Option<Seq<char>>;

/// chrono's text of the local date and time of a point in time in a time
/// zone, without the zone (`NaiveDateTime`'s `Display`): nothing when the
/// zone is unknown, or the point or its local time lies outside chrono's
/// range.
pub uninterp spec fn local_time_text(secs: i64, nanos: u32, zone: Seq<char>) -> Option<Seq<char>>;

/// chrono-tz's `Tz::from_str`: whether the zone name is known.
#[verifier::external_body]
fn parse_zone(zone: &str) -> (r: bool)
    ensures
        r == zone_known(zone@),
{
    zone.parse::<Tz>().is_ok()
}

/// chrono's `Utc.timestamp_opt(secs, nanos)`, `with_timezone` and
/// `format(pattern)`, written out: nothing for an unknown zone, a point out
/// of range, or a pattern that chrono cannot write. The notification pattern
/// holds only numeric fields of the date and time, which chrono always
/// writes, so with a known zone and a point in range it gives a text.
#[verifier::external_body]
fn format_in_zone(secs: i64, nanos: u32, zone: &str, pattern: &str) -> (r: Option<String>)
    ensures
        match r {
            Some(t) => formatted_local_time(secs, nanos, zone@, pattern@) == Some(t@),
            None => formatted_local_time(secs, nanos, zone@, pattern@) is None,
        },
        !zone_known(zone@) ==> r is None,
        !in_chrono_range(secs, nanos) ==> r is None,
        pattern@ == notification_pattern() && zone_known(zone@) && in_chrono_range(secs, nanos)
            ==> r is Some,
{
    let tz: Tz = zone.parse().ok()?;
    let t = chrono::Utc.timestamp_opt(secs, nanos).single()?;
    let mut s = String::new();
    write!(s, "{}", t.with_timezone(&tz).format(pattern)).ok()?;
    Some(s)
}

/// chrono's `Utc.timestamp_opt(secs, nanos)` and `with_timezone`, written
/// out by `to_string`, which never fails: a text exactly when the zone is
/// known and the point is in range.
#[verifier::external_body]
fn zoned_text(secs: i64, nanos: u32, zone: &str) -> (r: Option<String>)
    ensures
        match r {
            Some(t) => zoned_time_text(secs, nanos, zone@) == Some(t@),
            None => zoned_time_text(secs, nanos, zone@) is None,
        },
        !zone_known(zone@) ==> r is None,
        !in_chrono_range(secs, nanos) ==> r is None,
        zone_known(zone@) && in_chrono_range(secs, nanos) ==> r is Some,
{
    let tz: Tz = zone.parse().ok()?;
    let t = chrono::Utc.timestamp_opt(secs, nanos).single()?;
    Some(t.with_timezone(&tz).to_string())
}

/// chrono's `Utc.timestamp_opt(secs, nanos)`, `with_timezone`, and the
/// local date and time (`naive_utc` with the zone's offset added by
/// `checked_add_offset`, as `naive_local` does), written out by `to_string`:
/// nothing where the local time falls outside chrono's range, where
/// `naive_local` would panic.
#[verifier::external_body]
pub(crate) fn local_text(secs: i64, nanos: u32, zone: &str) -> (r: Option<String>)
    ensures
        match r {
            Some(t) => local_time_text(secs, nanos, zone@) == Some(t@),
            None => local_time_text(secs, nanos, zone@) is None,
        },
        !zone_known(zone@) ==> r is None,
        !in_chrono_range(secs, nanos) ==> r is None,
{
    let tz: Tz = zone.parse().ok()?;
    let t = chrono::Utc.timestamp_opt(secs, nanos).single()?;
    let local = t.with_timezone(&tz);
    Some(local.naive_utc().checked_add_offset(local.offset().fix())?.to_string())
}

/// Whether the time zone of the settings is one that chrono-tz knows.
pub fn zone_is_known(zone: &str) -> (r: bool)
    ensures
        r == zone_known(zone@),
{
    parse_zone(zone)
}

/// The text of a point in time, with its zone, as a table shows it.
pub fn shown_time(at: Stamp, zone: &str) -> (r: Option<String>)
    ensures
        match r {
            Some(t) => zoned_time_text(at.secs, at.nanos, zone@) == Some(t@),
            None => zoned_time_text(at.secs, at.nanos, zone@) is None,
        },
        r is Some <==> zone_known(zone@) && in_chrono_range(at.secs, at.nanos),
{
    zoned_text(at.secs, at.nanos, zone)
}

/// The pattern of the time in a notification.
pub open spec fn notification_pattern() -> Seq<char> {
    "%Y-%m-%d %H:%M:%S"@
}

/// The notification time is written after the strftime pattern
/// "%Y-%m-%d %H:%M:%S": year, month, day, then hour, minute and second of the
/// local time.
pub proof fn law_notification_pattern()
    ensures
        notification_pattern() == "%Y-%m-%d %H:%M:%S"@,
{
}

/// The time of a notification, in the local zone.
pub fn notification_time(now: Stamp, zone: &str) -> (r: Option<String>)
    ensures
        match r {
            Some(t) => formatted_local_time(now.secs, now.nanos, zone@, notification_pattern())
                == Some(t@),
            None => formatted_local_time(now.secs, now.nanos, zone@, notification_pattern()) is None,
        },
        match r {
            Some(t) => formatted_local_time(now.secs, now.nanos, zone@, "%Y-%m-%d %H:%M:%S"@) == Some(
                t@,
            ),
            None => formatted_local_time(now.secs, now.nanos, zone@, "%Y-%m-%d %H:%M:%S"@) is None,
        },
        r is Some <==> zone_known(zone@) && in_chrono_range(now.secs, now.nanos),
{
    format_in_zone(now.secs, now.nanos, zone, "%Y-%m-%d %H:%M:%S")
}

/// The `datetime` argument of the template function that converts a time
/// to the local zone.
pub enum DatetimeArg {
    /// No `datetime` was given.
    Missing,
    /// The `datetime` given is not an integer: how it prints, and why.
    Unreadable { shown: String, reason: String },
    /// Seconds since the epoch.
    Seconds(i64),
}

/// The message for a missing `datetime`.
pub open spec fn missing_datetime_message() -> Seq<char> {
    "oops no datetime given"@
}

/// The message for a `datetime` that is not an integer.
pub open spec fn unreadable_datetime_message(shown: Seq<char>, reason: Seq<char>) -> Seq<char> {
    "oops error converting timezone: "@ + shown + ": "@ + reason
}

/// The error texts of the template function: "oops no datetime given" when
/// no `datetime` is given, and "oops error converting timezone: " followed
/// by how the `datetime` prints, ": " and why it is not an integer.
pub proof fn law_convert_tz_messages(shown: Seq<char>, reason: Seq<char>)
    ensures
        missing_datetime_message() == "oops no datetime given"@,
        unreadable_datetime_message(shown, reason) == "oops error converting timezone: "@ + shown
            + ": "@ + reason,
{
}

/// The template function `convert_tz`: the local time of `datetime` after
/// `format`, or with the zone when no format is given; an error message for
/// a missing or unreadable `datetime`. Nothing where chrono cannot write the
/// time (the template function panics there).
pub fn convert_tz(datetime: &DatetimeArg, format: &Option<String>, zone: &str) -> (r: Option<
    Result<String, String>,
>)
    ensures
        match datetime {
            DatetimeArg::Missing => r matches Some(Err(m)) && m@ == missing_datetime_message(),
            DatetimeArg::Unreadable { shown, reason } => r matches Some(Err(m)) && m@
                == unreadable_datetime_message(shown@, reason@),
            DatetimeArg::Seconds(v) => match format {
                Some(f) => match formatted_local_time(*v, 0, zone@, f@) {
                    Some(t) => r matches Some(Ok(s)) && s@ == t,
                    None => r is None,
                },
                None => match zoned_time_text(*v, 0, zone@) {
                    Some(t) => r matches Some(Ok(s)) && s@ == t,
                    None => r is None,
                },
            },
        },
        datetime matches DatetimeArg::Seconds(v) ==> (r is Some ==> zone_known(zone@)
            && in_chrono_range(*v, 0)),
        datetime matches DatetimeArg::Seconds(v) ==> (format is None ==> (r is Some <==> zone_known(
            zone@,
        ) && in_chrono_range(*v, 0))),
{
    match datetime {
        DatetimeArg::Missing => Some(Err(String::from_str("oops no datetime given"))),
        DatetimeArg::Unreadable { shown, reason } => {
            let mut m = String::from_str("oops error converting timezone: ");
            m.append(shown.as_str());
            m.append(": ");
            m.append(reason.as_str());
            Some(Err(m))
        },
        DatetimeArg::Seconds(v) => {
            let text = match format {
                Some(f) => format_in_zone(*v, 0, zone, f.as_str()),
                None => zoned_text(*v, 0, zone),
            };
            match text {
                Some(t) => Some(Ok(t)),
                None => None,
            }
        },
    }
}

} // verus!
