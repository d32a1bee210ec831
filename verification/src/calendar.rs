//! Calendar fields of Arrow dates and timestamps (computed by `chrono`), and
//! their canonical text: the `YYYY-MM-DD HH24:MI:SS[.FF6]` forms that the
//! destination's `TO_DATE`/`TO_TIMESTAMP` wrappers read back.

use chrono::{Datelike, Timelike};
use vstd::prelude::*;

use crate::text::{push_char, push_zero_padded, zero_padded};

verus! {

// ── Results of chrono, by name ───────────────────────────────────────────────

/// `(year, month, day)` of the proleptic Gregorian date `days` days after
/// 1970-01-01, or `None` outside chrono's supported range.
pub uninterp spec fn civil_date_from_unix_days(days: int) -> Option<(int, int, int)>;

/// `(year, month, day, hour, minute, second, nanosecond)` in UTC of the
/// instant `millis` milliseconds after the Unix epoch, or `None` out of range.
pub uninterp spec fn utc_fields_from_millis(millis: int) -> Option<(int, int, int, int, int, int, int)>;

/// `(year, month, day, hour, minute, second, nanosecond)` in UTC of the
/// instant `micros` microseconds after the Unix epoch, or `None` out of range.
pub uninterp spec fn utc_fields_from_micros(micros: int) -> Option<(int, int, int, int, int, int, int)>;

/// The calendar date `days` days after 1970-01-01, through
/// `chrono::NaiveDate::from_epoch_days`, read back as year, month and day.
/// The contract claims only that the result is the named function of `days`
/// (`None` when chrono reports the date out of its range).
#[verifier::external_body]
fn date_from_unix_days(days: i32) -> (r: Option<(i32, u32, u32)>)
    ensures
        r matches Some(t) ==> civil_date_from_unix_days(days as int) == Some(
            (t.0 as int, t.1 as int, t.2 as int),
        ),
        r is None ==> civil_date_from_unix_days(days as int) is None,
{
    match chrono::NaiveDate::from_epoch_days(days) {
        Some(d) => Some((d.year(), d.month(), d.day())),
        None => None,
    }
}

/// The UTC fields of a Unix timestamp in milliseconds, through
/// `chrono::DateTime::from_timestamp_millis` and `naive_utc`. The contract
/// claims only that the result is the named function of `millis`.
#[verifier::external_body]
fn fields_from_millis(millis: i64) -> (r: Option<(i32, u32, u32, u32, u32, u32, u32)>)
    ensures
        r matches Some(t) ==> utc_fields_from_millis(millis as int) == Some(
            (
                t.0 as int,
                t.1 as int,
                t.2 as int,
                t.3 as int,
                t.4 as int,
                t.5 as int,
                t.6 as int,
            ),
        ),
        r is None ==> utc_fields_from_millis(millis as int) is None,
{
    match chrono::DateTime::from_timestamp_millis(millis) {
        Some(dt) => {
            let n = dt.naive_utc();
            Some((n.year(), n.month(), n.day(), n.hour(), n.minute(), n.second(), n.nanosecond()))
        },
        None => None,
    }
}

/// The UTC fields of a Unix timestamp in microseconds, through
/// `chrono::DateTime::from_timestamp_micros` and `naive_utc`. The contract
/// claims only that the result is the named function of `micros`.
#[verifier::external_body]
fn fields_from_micros(micros: i64) -> (r: Option<(i32, u32, u32, u32, u32, u32, u32)>)
    ensures
        r matches Some(t) ==> utc_fields_from_micros(micros as int) == Some(
            (
                t.0 as int,
                t.1 as int,
                t.2 as int,
                t.3 as int,
                t.4 as int,
                t.5 as int,
                t.6 as int,
            ),
        ),
        r is None ==> utc_fields_from_micros(micros as int) is None,
{
    match chrono::DateTime::from_timestamp_micros(micros) {
        Some(dt) => {
            let n = dt.naive_utc();
            Some((n.year(), n.month(), n.day(), n.hour(), n.minute(), n.second(), n.nanosecond()))
        },
        None => None,
    }
}

// ── Canonical text ───────────────────────────────────────────────────────────

/// A year as `YYYY`: four zero-padded digits for years 0 to 9999, and
/// otherwise a sign followed by at least four digits.
pub open spec fn year_text(y: int) -> Seq<char> {
    if 0 <= y <= 9999 {
        zero_padded(y as nat, 4)
    } else if y < 0 {
        seq!['-'] + zero_padded((-y) as nat, 4)
    } else {
        seq!['+'] + zero_padded(y as nat, 4)
    }
}

/// `YYYY-MM-DD`.
pub open spec fn date_text(y: int, m: int, d: int) -> Seq<char> {
    year_text(y) + seq!['-'] + zero_padded(m as nat, 2) + seq!['-'] + zero_padded(d as nat, 2)
}

/// `YYYY-MM-DD 00:00:00`, the `DATE` text of a calendar date.
pub open spec fn midnight_text(t: (int, int, int)) -> Seq<char> {
    date_text(t.0, t.1, t.2) + " 00:00:00"@
}

/// `YYYY-MM-DD HH:MM:SS.ffffff`, the `TIMESTAMP` text of calendar fields, with
/// the fraction truncated to microseconds.
pub open spec fn timestamp_text(t: (int, int, int, int, int, int, int)) -> Seq<char> {
    date_text(t.0, t.1, t.2) + seq![' '] + zero_padded(t.3 as nat, 2) + seq![':'] + zero_padded(
        t.4 as nat,
        2,
    ) + seq![':'] + zero_padded(t.5 as nat, 2) + seq!['.'] + zero_padded(
        ((t.6 / 1000) % 1_000_000) as nat,
        6,
    )
}

fn push_year(s: &mut String, y: i32)
    ensures
        final(s)@ == old(s)@ + year_text(y as int),
{
    if 0 <= y && y <= 9999 {
        push_zero_padded(s, y as u64, 4);
    } else if y < 0 {
        push_char(s, '-');
        let a: u64 = (-(y as i64)) as u64;
        push_zero_padded(s, a, 4);
        assert(s@ =~= old(s)@ + year_text(y as int));
    } else {
        push_char(s, '+');
        push_zero_padded(s, y as u64, 4);
        assert(s@ =~= old(s)@ + year_text(y as int));
    }
}

fn push_date(s: &mut String, y: i32, m: u32, d: u32)
    ensures
        final(s)@ == old(s)@ + date_text(y as int, m as int, d as int),
{
    push_year(s, y);
    push_char(s, '-');
    push_zero_padded(s, m as u64, 2);
    push_char(s, '-');
    push_zero_padded(s, d as u64, 2);
    assert(s@ =~= old(s)@ + date_text(y as int, m as int, d as int));
}

/// The `DATE` text of a calendar date `(year, month, day)`:
/// `YYYY-MM-DD 00:00:00`.
pub fn date_fields_text(t: (i32, u32, u32)) -> (r: String)
    ensures
        r@ == midnight_text((t.0 as int, t.1 as int, t.2 as int)),
{
    let mut s = String::new();
    push_date(&mut s, t.0, t.1, t.2);
    s.append(" 00:00:00");
    s
}

/// The `DATE` text of the day `days` days after 1970-01-01, or `None` when the
/// date is outside chrono's range.
pub fn unix_days_text(days: i32) -> (r: Option<String>)
    ensures
        r is Some <==> civil_date_from_unix_days(days as int) is Some,
        r matches Some(t) ==> t@ == midnight_text(civil_date_from_unix_days(days as int)->0),
{
    match date_from_unix_days(days) {
        Some(t) => Some(date_fields_text(t)),
        None => None,
    }
}

/// The `TIMESTAMP` text of calendar fields `(year, month, day, hour, minute,
/// second, nanosecond)`: `YYYY-MM-DD HH:MM:SS.ffffff`.
pub fn fields_text(t: (i32, u32, u32, u32, u32, u32, u32)) -> (r: String)
    ensures
        r@ == timestamp_text(
            (
                t.0 as int,
                t.1 as int,
                t.2 as int,
                t.3 as int,
                t.4 as int,
                t.5 as int,
                t.6 as int,
            ),
        ),
{
    let mut s = String::new();
    push_date(&mut s, t.0, t.1, t.2);
    push_char(&mut s, ' ');
    push_zero_padded(&mut s, t.3 as u64, 2);
    push_char(&mut s, ':');
    push_zero_padded(&mut s, t.4 as u64, 2);
    push_char(&mut s, ':');
    push_zero_padded(&mut s, t.5 as u64, 2);
    push_char(&mut s, '.');
    push_zero_padded(&mut s, ((t.6 / 1000) % 1_000_000) as u64, 6);
    let ghost v = (
        t.0 as int,
        t.1 as int,
        t.2 as int,
        t.3 as int,
        t.4 as int,
        t.5 as int,
        t.6 as int,
    );
    assert(s@ =~= timestamp_text(v));
    s
}

/// The `TIMESTAMP` text of a Unix timestamp in milliseconds, or `None` out of
/// range.
pub fn millis_text(millis: i64) -> (r: Option<String>)
    ensures
        r is Some <==> utc_fields_from_millis(millis as int) is Some,
        r matches Some(t) ==> t@ == timestamp_text(utc_fields_from_millis(millis as int)->0),
{
    match fields_from_millis(millis) {
        Some(t) => Some(fields_text(t)),
        None => None,
    }
}

/// The `TIMESTAMP` text of a Unix timestamp in microseconds, or `None` out of
/// range.
pub fn micros_text(micros: i64) -> (r: Option<String>)
    ensures
        r is Some <==> utc_fields_from_micros(micros as int) is Some,
        r matches Some(t) ==> t@ == timestamp_text(utc_fields_from_micros(micros as int)->0),
{
    match fields_from_micros(micros) {
        Some(t) => Some(fields_text(t)),
        None => None,
    }
}

} // verus!
