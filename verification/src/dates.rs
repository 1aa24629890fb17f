//! Calendar dates for the range reconciler.
//!
//! A date is handled as its day number in the proleptic Gregorian calendar
//! (January 1 of year 1 is day 1), so that a requested range of `days` days
//! starting at `start` is simply the integers `start .. start + days`. The
//! two conversions between day numbers and `YYYY-MM-DD` strings are the only
//! trusted calendar operations; everything else is arithmetic.

use vstd::prelude::*;

verus! {

/// The day number that a `YYYY-MM-DD` string denotes, if any.
pub uninterp spec fn day_num_of(s: Seq<char>) -> Option<int>;

/// The `YYYY-MM-DD` rendering of a day number.
pub uninterp spec fn day_str_of(d: int) -> Seq<char>;

/// Relies on chrono's `NaiveDate::parse_from_str` with the `%Y-%m-%d` format;
/// `Datelike::num_days_from_ce` converts the parsed date into its day count,
/// which chrono documents as lying strictly within one hundred million.
#[verifier::external_body]
pub fn parse_date(s: &str) -> (r: Option<i64>)
    ensures
        match r {
            Some(d) => day_num_of(s@) == Some(d as int) && -100000000 < d < 100000000,
            None => day_num_of(s@) is None,
        },
{
    chrono::NaiveDate::parse_from_str(s, "%Y-%m-%d")
        .ok()
        .map(|d| chrono::Datelike::num_days_from_ce(&d) as i64)
}

/// Relies on chrono's `NaiveDate::from_num_days_from_ce_opt` (`None` only for
/// a day outside the supported range, which covers ten million days on either
/// side) and its `%Y-%m-%d` formatting, which `parse_from_str` reads back as
/// the same date.
#[verifier::external_body]
pub fn format_date(d: i64) -> (r: Option<String>)
    ensures
        match r {
            Some(s) => s@ == day_str_of(d as int) && day_num_of(day_str_of(d as int)) == Some(
                d as int,
            ),
            None => true,
        },
        -10000000 <= d <= 10000000 ==> r is Some,
{
    if d < i32::MIN as i64 || d > i32::MAX as i64 {
        return None;
    }
    chrono::NaiveDate::from_num_days_from_ce_opt(d as i32)
        .map(|nd| nd.format("%Y-%m-%d").to_string())
}

} // verus!
