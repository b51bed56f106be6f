//! Dates as they are shown: day and month, with or without the year.

use vstd::prelude::*;

verus! {

/// The text that chrono writes for the UTC date and time `timestamp` seconds
/// after the epoch under the strftime pattern `pattern`, or `None` where chrono
/// has no date for that number of seconds.
pub uninterp spec fn utc_text(timestamp: i64, pattern: Seq<char>) -> Option<Seq<char>>;

/// The pattern for a day and an abbreviated month name.
pub open spec fn day_month_pattern() -> Seq<char> {
    "%d %b"@
}

/// The pattern for a day, an abbreviated month name and a year.
pub open spec fn day_month_year_pattern() -> Seq<char> {
    "%d %b %Y"@
}

/// `chrono::DateTime::from_timestamp` followed by `DateTime::format`: the
/// result is what chrono writes for that second under that pattern, and is
/// absent exactly where chrono has no date for it. Only the two patterns of
/// this module are admitted, which chrono can always write.
#[verifier::external_body]
fn format_utc(timestamp: i64, pattern: &str) -> (text: Option<String>)
    requires
        pattern@ == day_month_pattern() || pattern@ == day_month_year_pattern(),
    ensures
        match text {
            Some(t) => utc_text(timestamp, pattern@) == Some(t@),
            None => utc_text(timestamp, pattern@) is None,
        },
{
    chrono::DateTime::from_timestamp(timestamp, 0).map(|moment| moment.format(pattern).to_string())
}

/// `chrono::Utc::now` followed by `DateTime::format`: the present moment
/// under one of the two patterns of this module. Nothing is claimed of the
/// text.
#[verifier::external_body]
fn format_now(pattern: &str) -> (text: String)
    requires
        pattern@ == day_month_pattern() || pattern@ == day_month_year_pattern(),
{
    chrono::Utc::now().format(pattern).to_string()
}

/// The date of `timestamp` as day and month, such as "07 Jun". A number of
/// seconds beyond the range of dates is shown as today.
pub fn format_timestamp_day_month(timestamp: i64) -> (text: String)
    ensures
        utc_text(timestamp, day_month_pattern()) matches Some(t) ==> text@ == t,
{
    match format_utc(timestamp, "%d %b") {
        Some(text) => text,
        None => format_now("%d %b"),
    }
}

/// The date of `timestamp` as day, month and year, such as "07 Jun 2025". A
/// number of seconds beyond the range of dates is shown as today.
pub fn format_timestamp_day_month_year(timestamp: i64) -> (text: String)
    ensures
        utc_text(timestamp, day_month_year_pattern()) matches Some(t) ==> text@ == t,
{
    match format_utc(timestamp, "%d %b %Y") {
        Some(text) => text,
        None => format_now("%d %b %Y"),
    }
}

} // verus!
