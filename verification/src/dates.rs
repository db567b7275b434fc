//! Calendar dates are modelled as proleptic Gregorian day numbers
//! (January 1 of year 1 CE is day 1), so that all window and coverage
//! arithmetic is plain integer arithmetic.
use vstd::prelude::*;

verus! {

/// Smallest day number a dose record may carry.
pub const DAY_MIN: i64 = -100_000_000;

/// Largest day number a dose record may carry.
pub const DAY_MAX: i64 = 100_000_000;

/// The day number that a date text denotes under a given strftime-style
/// format, if it denotes one at all.
pub uninterp spec fn parsed_day_of(fmt: Seq<char>, s: Seq<char>) -> Option<int>;

/// Relies on chrono::NaiveDate::parse_from_str for the parse and on
/// chrono::Datelike::num_days_from_ce for the day number (January 1 of year
/// 1 CE is day 1). Both depend on their arguments alone; chrono dates are
/// limited to roughly years -262144..=262142, so the day number lies well
/// within -100_000_000..=100_000_000.
#[verifier::external_body]
fn parse_date(s: &str, fmt: &str) -> (r: Option<i64>)
    ensures
        r is Some <==> parsed_day_of(fmt@, s@) is Some,
        r is Some ==> parsed_day_of(fmt@, s@) == Some(r.unwrap() as int),
        r is Some ==> DAY_MIN <= r.unwrap() <= DAY_MAX,
{
    match chrono::NaiveDate::parse_from_str(s, fmt) {
        Ok(d) => Some(chrono::Datelike::num_days_from_ce(&d) as i64),
        Err(_) => None,
    }
}

/// The date format dose records are ingested with: zero-padded
/// month/day/year.
pub open spec fn date_format() -> Seq<char> {
    "%m/%d/%Y"@
}

/// Parses a month/day/year date text into its day number.
pub fn parse_mdy_date(s: &str) -> (r: Option<i64>)
    ensures
        r is Some <==> parsed_day_of(date_format(), s@) is Some,
        r is Some ==> parsed_day_of(date_format(), s@) == Some(r.unwrap() as int),
        r is Some ==> DAY_MIN <= r.unwrap() <= DAY_MAX,
{
    parse_date(s, "%m/%d/%Y")
}

} // verus!
