//! Instants as a reader and as a machine read them: calendar fields in UTC,
//! and RFC 3339.
//!
//! Instants are counted in nanoseconds from the Unix epoch. The calendar
//! is the proleptic Gregorian one, stated here; the `time` crate does the
//! conversion.
use crate::text::{padded, push_padded, push_str, push_char};
use vstd::prelude::*;

verus! {

/// The proleptic Gregorian date of a day counted from 1970-01-01: year,
/// month, day. Days are shifted to count from 0000-03-01, so that a leap
/// day ends its year, and split into 400-year eras of 146097 days.
pub open spec fn civil_from_days(days: int) -> (int, nat, nat) {
    let z = days + 719468;
    let era = z / 146097;
    let doe = z - era * 146097;
    let yoe = (doe - doe / 1460 + doe / 36524 - doe / 146096) / 365;
    let doy = doe - (365 * yoe + yoe / 4 - yoe / 100);
    let mp = (5 * doy + 2) / 153;
    let d = doy - (153 * mp + 2) / 5 + 1;
    let m = if mp < 10 {
        mp + 3
    } else {
        mp - 9
    };
    let y = yoe + era * 400 + if m <= 2 {
        1int
    } else {
        0int
    };
    (y, m as nat, d as nat)
}

/// The UTC calendar fields of an instant given in whole seconds since the
/// Unix epoch: year, month, day, hour, minute, second.
pub open spec fn utc_fields(secs: int) -> (int, nat, nat, nat, nat, nat) {
    let days = secs / 86400;
    let sod = secs % 86400;
    let (y, m, d) = civil_from_days(days);
    (y, m, d, (sod / 3600) as nat, (sod % 3600 / 60) as nat, (sod % 60) as nat)
}

/// An instant's UTC calendar fields.
#[derive(Debug, Clone, Copy)]
pub struct CalendarTime {
    pub year: i32,
    pub month: u8,
    pub day: u8,
    pub hour: u8,
    pub minute: u8,
    pub second: u8,
}

/// The last second `time` can represent: 9999-12-31T23:59:59Z.
pub open spec fn max_secs() -> int {
    253402300799
}

/// The first second `time` can represent: -9999-01-01T00:00:00Z.
pub open spec fn min_secs() -> int {
    -377705116800
}

/// The UTC calendar fields of `secs` seconds after the Unix epoch.
///
/// Calls `time::OffsetDateTime::from_unix_timestamp`, which succeeds for
/// every instant from the start of the year -9999 to the end of the year
/// 9999, and reads the result's `year`, `month`, `day`, `hour`, `minute`
/// and `second`: the proleptic Gregorian calendar in UTC, which
/// `utc_fields` computes. The year lies from -9999 to 9999, and from 1970
/// on for an instant at or after the epoch.
#[verifier::external_body]
pub(crate) fn utc_calendar(secs: i64) -> (c: CalendarTime)
    requires
        min_secs() <= secs <= max_secs(),
    ensures
        -9999 <= c.year <= 9999,
        secs >= 0 ==> 1970 <= c.year,
        utc_fields(secs as int) == (
            c.year as int,
            c.month as nat,
            c.day as nat,
            c.hour as nat,
            c.minute as nat,
            c.second as nat,
        ),
{
    let t = time::OffsetDateTime::from_unix_timestamp(secs).expect("in range");
    CalendarTime {
        year: t.year(),
        month: u8::from(t.month()),
        day: t.day(),
        hour: t.hour(),
        minute: t.minute(),
        second: t.second(),
    }
}

/// The first second RFC 3339 can write: 0000-01-01T00:00:00Z.
pub open spec fn rfc_min_secs() -> int {
    -62167219200
}

/// `YYYY-MM-DDTHH:MM:SSZ` for the instant `secs` seconds after the epoch.
pub open spec fn rfc3339_text(secs: int) -> Seq<char> {
    let f = utc_fields(secs);
    padded(f.0 as nat, 4) + seq!['-'] + padded(f.1, 2) + seq!['-'] + padded(f.2, 2) + seq!['T']
        + padded(f.3, 2) + seq![':'] + padded(f.4, 2) + seq![':'] + padded(f.5, 2) + seq!['Z']
}

/// The instant `secs` seconds after the epoch as RFC 3339 in UTC.
///
/// Calls `time::OffsetDateTime::format` with `Rfc3339` on the instant from
/// `from_unix_timestamp`. For a UTC instant with no fractional second and a
/// year from 0 to 9999 it writes the four-digit year, two-digit month and day,
/// `T`, two-digit hour, minute and second, and `Z`.
#[verifier::external_body]
pub(crate) fn rfc3339_utc(secs: i64) -> (s: String)
    requires
        rfc_min_secs() <= secs <= max_secs(),
    ensures
        s@ == rfc3339_text(secs as int),
{
    time::OffsetDateTime::from_unix_timestamp(secs)
        .expect("in range")
        .format(&time::format_description::well_known::Rfc3339)
        .expect("a UTC instant before the year 10000 formats as RFC 3339")
}

/// Whole seconds in a number of nanoseconds.
pub open spec fn secs_of(nanos: u64) -> int {
    (nanos / 1_000_000_000) as int
}

/// An instant as a human reads it: `2026-09-01 12:34 UTC`.
pub open spec fn human_time(nanos: u64) -> Seq<char> {
    let f = utc_fields(secs_of(nanos));
    padded(f.0 as nat, 4) + seq!['-'] + padded(f.1, 2) + seq!['-'] + padded(f.2, 2) + seq![' ']
        + padded(f.3, 2) + seq![':'] + padded(f.4, 2) + " UTC"@
}

/// An instant as a human reads it: `2026-09-01 12:34 UTC`. Minute
/// resolution, because that is what a reader wants off a footer.
pub fn format_cached_at(at: u64) -> (s: String)
    ensures
        s@ == human_time(at),
{
    let secs = at / 1_000_000_000;
    assert(secs <= max_secs());
    let t = utc_calendar(secs as i64);
    let mut s = String::new();
    push_padded(&mut s, t.year as u64, 4);
    push_char(&mut s, '-');
    push_padded(&mut s, t.month as u64, 2);
    push_char(&mut s, '-');
    push_padded(&mut s, t.day as u64, 2);
    push_char(&mut s, ' ');
    push_padded(&mut s, t.hour as u64, 2);
    push_char(&mut s, ':');
    push_padded(&mut s, t.minute as u64, 2);
    push_str(&mut s, " UTC");
    s
}

/// Whole seconds in a signed count of nanoseconds, rounded down.
pub open spec fn floor_secs(nanos: int) -> int {
    if nanos >= 0 {
        nanos / 1_000_000_000
    } else {
        -((-nanos - 1) / 1_000_000_000) - 1
    }
}

/// A year as `{:04}` prints it: four digits at least, and a minus sign
/// counted in the width.
pub open spec fn year_text(y: int) -> Seq<char> {
    if y >= 0 {
        padded(y as nat, 4)
    } else {
        seq!['-'] + padded((-y) as nat, 3)
    }
}

/// An instant before or after the epoch as a human reads it:
/// `1969-07-20 20:17 UTC`.
pub open spec fn human_time_at(nanos: int) -> Seq<char> {
    let f = utc_fields(floor_secs(nanos));
    year_text(f.0) + seq!['-'] + padded(f.1, 2) + seq!['-'] + padded(f.2, 2) + seq![' '] + padded(
        f.3,
        2,
    ) + seq![':'] + padded(f.4, 2) + " UTC"@
}

/// The instants the calendar can name, in nanoseconds from the epoch.
pub open spec fn nameable(nanos: int) -> bool {
    min_secs() <= floor_secs(nanos) <= max_secs()
}

/// An instant before or after the epoch, given in nanoseconds, as a human
/// reads it, to the minute: `1969-07-20 20:17 UTC`. A year before the
/// common era carries its minus sign.
pub fn format_instant(at: i128) -> (s: String)
    requires
        nameable(at as int),
    ensures
        s@ == human_time_at(at as int),
{
    let secs: i64 = if at >= 0 {
        ((at as u128) / 1_000_000_000) as i64
    } else {
        let m: u128 = (-(at + 1)) as u128;
        -(((m / 1_000_000_000) as i64)) - 1
    };
    assert(secs as int == floor_secs(at as int));
    let t = utc_calendar(secs);
    let mut s = String::new();
    if t.year >= 0 {
        push_padded(&mut s, t.year as u64, 4);
    } else {
        push_char(&mut s, '-');
        push_padded(&mut s, (-t.year) as u64, 3);
    }
    push_char(&mut s, '-');
    push_padded(&mut s, t.month as u64, 2);
    push_char(&mut s, '-');
    push_padded(&mut s, t.day as u64, 2);
    push_char(&mut s, ' ');
    push_padded(&mut s, t.hour as u64, 2);
    push_char(&mut s, ':');
    push_padded(&mut s, t.minute as u64, 2);
    push_str(&mut s, " UTC");
    s
}

/// The same instant as RFC 3339 in UTC, to the second, e.g.
/// `2026-08-31T09:14:22Z`.
pub fn format_rfc3339(at: u64) -> (s: String)
    ensures
        s@ == rfc3339_text(secs_of(at)),
{
    let secs = at / 1_000_000_000;
    rfc3339_utc(secs as i64)
}

/// Whether RFC 3339 can write an instant given in nanoseconds from the
/// epoch: from the year 0 to the year 9999.
pub open spec fn rfc_writable(nanos: int) -> bool {
    rfc_min_secs() <= floor_secs(nanos) <= max_secs()
}

/// An instant before or after the epoch, given in nanoseconds, as RFC 3339
/// in UTC, to the second it falls in.
pub fn format_rfc3339_at(at: i128) -> (s: String)
    requires
        rfc_writable(at as int),
    ensures
        s@ == rfc3339_text(floor_secs(at as int)),
{
    let secs: i64 = if at >= 0 {
        ((at as u128) / 1_000_000_000) as i64
    } else {
        let m: u128 = (-(at + 1)) as u128;
        -(((m / 1_000_000_000) as i64)) - 1
    };
    rfc3339_utc(secs)
}

} // verus!
