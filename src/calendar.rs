//! Dates and instants as plain integers, with the conversions to and from
//! text that chrono performs.
//!
//! A date is a day number counted as chrono's `num_days_from_ce` counts it
//! (0001-01-01 is day 1); an instant is a count of microseconds since the Unix
//! epoch, UTC.
use vstd::prelude::*;

verus! {

/// Microseconds in a day.
pub const MICROS_PER_DAY: i64 = 86_400_000_000;

/// The day number of 1970-01-01.
pub const EPOCH_DAY: i64 = 719_163;

/// The UTC date on which an instant falls.
pub open spec fn spec_day_of(instant: i64) -> int {
    (instant as int) / (MICROS_PER_DAY as int) + EPOCH_DAY as int
}

/// The UTC date on which an instant falls, as a day number.
pub fn day_of(instant: i64) -> (r: i32)
    ensures
        r as int == spec_day_of(instant),
{
    let days = if instant >= 0 {
        instant / MICROS_PER_DAY
    } else {
        -((-(instant + 1)) / MICROS_PER_DAY) - 1
    };
    proof {
        let q = (instant as int) / (MICROS_PER_DAY as int);
        assert(q * (MICROS_PER_DAY as int) <= instant as int) by (nonlinear_arith)
            requires q == (instant as int) / (MICROS_PER_DAY as int);
        if instant < 0 {
            let p = (-(instant + 1)) as int;
            let m = MICROS_PER_DAY as int;
            assert(-(p / m) - 1 == (instant as int) / m) by (nonlinear_arith)
                requires p == -(instant as int + 1), p >= 0, m == 86_400_000_000;
        }
    }
    (days + EPOCH_DAY) as i32
}

/// The day number that chrono reads from text of the form `%Y-%m-%d`, or
/// `None` where chrono rejects the text.
pub uninterp spec fn ymd_day(text: Seq<char>) -> Option<i32>;

/// The text (`YYYY-MM-DD`) that chrono writes for a day number, or `None`
/// where the day lies outside chrono's range.
pub uninterp spec fn day_text(day: i32) -> Option<Seq<char>>;

/// The instant that chrono reads from RFC 3339 text, or `None` where chrono
/// rejects the text or the instant does not fit.
pub uninterp spec fn rfc3339_instant(text: Seq<char>) -> Option<i64>;

/// The RFC 3339 text that chrono writes for an instant (UTC), or `None` where
/// the instant lies outside chrono's range.
pub uninterp spec fn instant_text(instant: i64) -> Option<Seq<char>>;

/// Relies on chrono's `NaiveDate::parse_from_str` with format `%Y-%m-%d`, and
/// on `num_days_from_ce`.
#[verifier::external_body]
pub(crate) fn parse_ymd(text: &str) -> (r: Option<i32>)
    ensures
        r == ymd_day(text@),
{
    chrono::NaiveDate::parse_from_str(text, "%Y-%m-%d").ok().map(
        |d| chrono::Datelike::num_days_from_ce(&d),
    )
}

/// Relies on chrono's `NaiveDate::from_num_days_from_ce_opt` and its
/// `Display` (`%Y-%m-%d`).
#[verifier::external_body]
pub(crate) fn format_day(day: i32) -> (r: Option<String>)
    ensures
        r.is_some() == day_text(day).is_some(),
        r.is_some() ==> r.unwrap()@ == day_text(day).unwrap(),
{
    chrono::NaiveDate::from_num_days_from_ce_opt(day).map(|d| format!("{}", d))
}

/// Relies on chrono's `DateTime::parse_from_rfc3339` and `timestamp_micros`.
#[verifier::external_body]
pub(crate) fn parse_rfc3339(text: &str) -> (r: Option<i64>)
    ensures
        r == rfc3339_instant(text@),
{
    chrono::DateTime::parse_from_rfc3339(text).ok().map(|t| t.timestamp_micros())
}

/// Relies on chrono's `DateTime::<Utc>::from_timestamp_micros` and
/// `to_rfc3339`.
#[verifier::external_body]
pub(crate) fn format_instant(instant: i64) -> (r: Option<String>)
    ensures
        r.is_some() == instant_text(instant).is_some(),
        r.is_some() ==> r.unwrap()@ == instant_text(instant).unwrap(),
{
    chrono::DateTime::<chrono::Utc>::from_timestamp_micros(instant).map(|t| t.to_rfc3339())
}

} // verus!
