//! Durations and ages as short texts ("1h 2m 3s", "5m ago").
use vstd::prelude::*;
use chrono::NaiveDate;
use crate::clock::now_local;
use crate::models::{date_text, Timestamp};
use crate::text::{int_text, owned, push_i64, push_str};

verus! {

/// A leap year of the proleptic Gregorian calendar.
pub open spec fn leap_year(y: int) -> bool {
    y % 4 == 0 && (y % 100 != 0 || y % 400 == 0)
}

/// The number of days of a month.
pub open spec fn days_in_month(y: int, m: int) -> int {
    if m == 2 {
        if leap_year(y) {
            29
        } else {
            28
        }
    } else if m == 4 || m == 6 || m == 9 || m == 11 {
        30
    } else {
        31
    }
}

/// A date and time that chrono's `NaiveDateTime` can hold: a year in its
/// range, an existing day, and a time of day.
pub open spec fn valid_timestamp(t: Timestamp) -> bool {
    &&& -262143 <= t.year <= 262142
    &&& 1 <= t.month <= 12
    &&& 1 <= t.day <= days_in_month(t.year as int, t.month as int)
    &&& t.hour < 24
    &&& t.minute < 60
    &&& t.second < 60
}

/// The days from 1970-01-01 to a date of the proleptic Gregorian calendar
/// (negative before it), counted in 400-year eras of 146097 days.
pub open spec fn days_from_civil(y: int, m: int, d: int) -> int {
    let y2 = if m <= 2 {
        y - 1
    } else {
        y
    };
    let era = y2 / 400;
    let yoe = y2 - era * 400;
    let mp = if m > 2 {
        m - 3
    } else {
        m + 9
    };
    let doy = (153 * mp + 2) / 5 + d - 1;
    let doe = yoe * 365 + yoe / 4 - yoe / 100 + doy;
    era * 146097 + doe - 719468
}

/// The seconds from 1970-01-01 00:00:00 to a date-time.
pub open spec fn seconds_of(t: Timestamp) -> int {
    days_from_civil(t.year as int, t.month as int, t.day as int) * 86400 + t.hour * 3600 + t.minute
        * 60 + t.second
}

/// The whole seconds from `earlier` to `later` (what chrono's
/// `NaiveDateTime::signed_duration_since(..).num_seconds()` gives for
/// date-times without leap seconds).
pub open spec fn seconds_between_spec(later: Timestamp, earlier: Timestamp) -> int {
    seconds_of(later) - seconds_of(earlier)
}

/// chrono's `signed_duration_since` between two date-times, in whole
/// seconds (`TimeDelta::num_seconds`); both date-times must exist, so that
/// chrono can build them.
#[verifier::external_body]
fn seconds_between(later: &Timestamp, earlier: &Timestamp) -> (s: i64)
    requires
        valid_timestamp(*later),
        valid_timestamp(*earlier),
    ensures
        s as int == seconds_between_spec(*later, *earlier),
{
    let a = NaiveDate::from_ymd_opt(later.year, later.month, later.day).unwrap().and_hms_opt(
        later.hour,
        later.minute,
        later.second,
    ).unwrap();
    let b = NaiveDate::from_ymd_opt(earlier.year, earlier.month, earlier.day).unwrap().and_hms_opt(
        earlier.hour,
        earlier.minute,
        earlier.second,
    ).unwrap();
    a.signed_duration_since(b).num_seconds()
}

/// Rust's division of `a` by a positive `b`, rounding toward zero.
pub open spec fn trunc_div(a: int, b: int) -> int {
    if a >= 0 {
        a / b
    } else {
        -((-a) / b)
    }
}

/// The age of a date-time `diff` seconds after it: "just now" under a
/// minute (or in the future), then whole minutes ("5m ago") under an hour,
/// whole hours under a day, whole days under 30 days, and the date itself
/// ("%Y-%m-%d") beyond.
pub open spec fn age_text(diff: int, dt: Timestamp) -> Seq<char> {
    if diff < 60 {
        "just now"@
    } else if trunc_div(diff, 60) < 60 {
        int_text(trunc_div(diff, 60)) + "m ago"@
    } else if trunc_div(diff, 3600) < 24 {
        int_text(trunc_div(diff, 3600)) + "h ago"@
    } else if trunc_div(diff, 86400) < 30 {
        int_text(trunc_div(diff, 86400)) + "d ago"@
    } else {
        date_text(dt)
    }
}

/// The age of `dt` seen at `now`, from the seconds chrono counts between
/// them (see `age_text`).
pub fn age_from_seconds(diff: i64, dt: &Timestamp) -> (s: String)
    ensures
        s@ == age_text(diff as int, *dt),
{
    if diff < 60 {
        return owned("just now");
    }
    let minutes = diff / 60;
    let hours = diff / 3600;
    let days = diff / 86400;
    let mut s = String::new();
    if minutes < 60 {
        push_i64(&mut s, minutes);
        push_str(&mut s, "m ago");
    } else if hours < 24 {
        push_i64(&mut s, hours);
        push_str(&mut s, "h ago");
    } else if days < 30 {
        push_i64(&mut s, days);
        push_str(&mut s, "d ago");
    } else {
        s = dt.format_date();
    }
    s
}

/// The age of `dt` seen at `now`, as "just now", "5m ago", "3h ago",
/// "2d ago" or the date.
pub fn relative_time_at(dt: &Timestamp, now: &Timestamp) -> (s: String)
    requires
        valid_timestamp(*dt),
        valid_timestamp(*now),
    ensures
        s@ == age_text(seconds_between_spec(*now, *dt), *dt),
{
    let diff = seconds_between(now, dt);
    age_from_seconds(diff, dt)
}

/// The age of `dt` now (see `relative_time_at`).
pub fn relative_time(dt: &Timestamp) -> (s: String)
    requires
        valid_timestamp(*dt),
    ensures
        exists|now: Timestamp| valid_timestamp(now) && s@ == age_text(seconds_between_spec(now, *dt), *dt),
{
    let now = now_local();
    relative_time_at(dt, &now)
}

/// A duration as hours, minutes and seconds: "1h 23m 45s", "5m 3s" when
/// under an hour, "42s" when under a minute (Rust's division, rounding
/// toward zero, so negative durations read as their seconds part).
pub open spec fn duration_text(secs: int) -> Seq<char> {
    let hours = trunc_div(secs, 3600);
    let minutes = trunc_div(secs - 3600 * hours, 60);
    let seconds = secs - 60 * trunc_div(secs, 60);
    if hours > 0 {
        int_text(hours) + "h "@ + int_text(minutes) + "m "@ + int_text(seconds) + "s"@
    } else if minutes > 0 {
        int_text(minutes) + "m "@ + int_text(seconds) + "s"@
    } else {
        int_text(seconds) + "s"@
    }
}

/// A duration in seconds as "1h 23m 45s", "5m 3s" or "42s" (see
/// `duration_text`).
pub fn format_duration_secs(secs: i64) -> (s: String)
    ensures
        s@ == duration_text(secs as int),
{
    let hours = secs / 3600;
    let minutes = (secs % 3600) / 60;
    let seconds = secs % 60;
    let mut s = String::new();
    if hours > 0 {
        push_i64(&mut s, hours);
        push_str(&mut s, "h ");
        push_i64(&mut s, minutes);
        push_str(&mut s, "m ");
        push_i64(&mut s, seconds);
        push_str(&mut s, "s");
    } else if minutes > 0 {
        push_i64(&mut s, minutes);
        push_str(&mut s, "m ");
        push_i64(&mut s, seconds);
        push_str(&mut s, "s");
    } else {
        push_i64(&mut s, seconds);
        push_str(&mut s, "s");
    }
    s
}

} // verus!
