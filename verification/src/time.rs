//! Calendar work, done by the `chrono` crate.
//!
//! The library holds instants as milliseconds since the Unix epoch. What only
//! a calendar can tell, how an instant reads on the clock and which instant a
//! written date denotes, is asked of `chrono` and named here, so that
//! contracts can speak of it.

use crate::types::opt_view;
use vstd::prelude::*;

verus! {

/// The UTC wall-clock text `HH:MM:SS.mmm` of the instant `millis`
/// milliseconds after the epoch, as `chrono` prints it; `None` for an instant
/// that `chrono` cannot represent.
pub uninterp spec fn clock_of(millis: i64) -> Option<Seq<char>>;

/// The instant, in milliseconds after the epoch, that a text denotes as an
/// RFC 3339 date and time, as `chrono` reads it; `None` for a text that is
/// no such date.
pub uninterp spec fn rfc3339_of(text: Seq<char>) -> Option<i64>;

/// Prints the wall-clock time of an instant.
///
/// Trusted: converts with `chrono::DateTime::from_timestamp_millis`, which
/// gives `None` outside the years that `chrono` covers, and prints with
/// `DateTime::format` and the pattern `%H:%M:%S%.3f`. The result depends on
/// the instant alone: the time zone is UTC and the pattern has no locale.
#[verifier::external_body]
pub(crate) fn format_clock(millis: i64) -> (r: Option<String>)
    ensures
        opt_view(r) == clock_of(millis),
{
    match chrono::DateTime::from_timestamp_millis(millis) {
        Some(t) => Some(t.format("%H:%M:%S%.3f").to_string()),
        None => None,
    }
}

/// The RFC 3339 text of the instant `millis` milliseconds after the epoch,
/// in UTC with three decimals of the second and `Z` for the zone, as
/// `chrono` prints it; `None` for an instant that `chrono` cannot represent.
pub uninterp spec fn rfc3339_text_of(millis: i64) -> Option<Seq<char>>;

/// Prints an instant as an RFC 3339 date and time.
///
/// Trusted: converts with `chrono::DateTime::from_timestamp_millis`, which
/// gives `None` outside the years that `chrono` covers, and prints with
/// `DateTime::to_rfc3339_opts`, asked for milliseconds and for `Z`. The
/// result depends on the instant alone.
#[verifier::external_body]
pub(crate) fn format_rfc3339(millis: i64) -> (r: Option<String>)
    ensures
        opt_view(r) == rfc3339_text_of(millis),
{
    match chrono::DateTime::from_timestamp_millis(millis) {
        Some(t) => Some(t.to_rfc3339_opts(chrono::SecondsFormat::Millis, true)),
        None => None,
    }
}

/// The year, in UTC, of the instant `millis` milliseconds after the epoch,
/// as `chrono` tells it; `None` for an instant that `chrono` cannot
/// represent.
pub uninterp spec fn utc_year_of(millis: i64) -> Option<i32>;

/// Tells the year of an instant.
///
/// Trusted: converts with `chrono::DateTime::from_timestamp_millis`, which
/// gives `None` outside the years that `chrono` covers, and asks
/// `Datelike::year` of the result. The result depends on the instant alone:
/// the time zone is UTC.
#[verifier::external_body]
pub(crate) fn utc_year(millis: i64) -> (r: Option<i32>)
    ensures
        r == utc_year_of(millis),
{
    match chrono::DateTime::from_timestamp_millis(millis) {
        Some(t) => Some(chrono::Datelike::year(&t)),
        None => None,
    }
}

/// Reads an RFC 3339 date and time.
///
/// Trusted: calls `chrono::DateTime::parse_from_rfc3339` and takes the
/// instant of the result with `DateTime::timestamp_millis`. A text that does
/// not parse gives `None`. The result depends on the text alone.
#[verifier::external_body]
pub(crate) fn parse_rfc3339(text: &str) -> (r: Option<i64>)
    ensures
        r == rfc3339_of(text@),
{
    match chrono::DateTime::parse_from_rfc3339(text) {
        Ok(t) => Some(t.timestamp_millis()),
        Err(_) => None,
    }
}

} // verus!
