//! Publication dates as text.

use super::model::PubDate;
use vstd::prelude::*;

verus! {

/// The calendar day of an instant in the zone `offset_seconds` east of UTC,
/// written as year, month and day (`%Y-%m-%d`); `None` where `chrono`
/// cannot hold the instant or the offset.
pub uninterp spec fn day_text(timestamp: i64, nanos: u32, offset_seconds: i32) -> Option<Seq<char>>;

/// An instant in the zone `offset_seconds` east of UTC, written as RFC 3339
/// has it; `None` where `chrono` cannot hold the instant or the offset.
pub uninterp spec fn rfc3339_text(timestamp: i64, nanos: u32, offset_seconds: i32) -> Option<
    Seq<char>,
>;

/// The text of an optional string.
pub open spec fn text_view(text: Option<String>) -> Option<Seq<char>> {
    match text {
        Some(t) => Some(t@),
        None => None,
    }
}

/// `DateTime::format` of `chrono` with the pattern `%Y-%m-%d`, on the date
/// that `DateTime::from_timestamp`, `FixedOffset::east_opt` and
/// `DateTime::with_timezone` make of the three numbers. The result is
/// [`day_text`] of them.
#[verifier::external_body]
fn format_day(timestamp: i64, nanos: u32, offset_seconds: i32) -> (text: Option<String>)
    ensures
        text_view(text) == day_text(timestamp, nanos, offset_seconds),
{
    let utc = chrono::DateTime::from_timestamp(timestamp, nanos)?;
    let zone = chrono::FixedOffset::east_opt(offset_seconds)?;
    Some(utc.with_timezone(&zone).format("%Y-%m-%d").to_string())
}

/// `DateTime::to_rfc3339` of `chrono`, on the date that
/// `DateTime::from_timestamp`, `FixedOffset::east_opt` and
/// `DateTime::with_timezone` make of the three numbers. The result is
/// [`rfc3339_text`] of them.
#[verifier::external_body]
fn format_rfc3339(timestamp: i64, nanos: u32, offset_seconds: i32) -> (text: Option<String>)
    ensures
        text_view(text) == rfc3339_text(timestamp, nanos, offset_seconds),
{
    let utc = chrono::DateTime::from_timestamp(timestamp, nanos)?;
    let zone = chrono::FixedOffset::east_opt(offset_seconds)?;
    Some(utc.with_timezone(&zone).to_rfc3339())
}

impl PubDate {
    /// The date's calendar day in its own zone, as [`day_text`] has it.
    pub open spec fn day(self) -> Option<Seq<char>> {
        day_text(self.timestamp, self.nanos, self.offset_seconds)
    }

    /// The date as RFC 3339 has it, in its own zone.
    pub open spec fn rfc3339(self) -> Option<Seq<char>> {
        rfc3339_text(self.timestamp, self.nanos, self.offset_seconds)
    }

    /// Writes the date's calendar day in its own zone.
    pub fn to_day(&self) -> (text: Option<String>)
        ensures
            text_view(text) == self.day(),
    {
        format_day(self.timestamp, self.nanos, self.offset_seconds)
    }

    /// Writes the date as RFC 3339 has it, in its own zone.
    pub fn to_rfc3339(&self) -> (text: Option<String>)
        ensures
            text_view(text) == self.rfc3339(),
    {
        format_rfc3339(self.timestamp, self.nanos, self.offset_seconds)
    }
}

/// The date that `chrono` reads from `text` by the rules of RFC 2822, if
/// it reads one.
pub uninterp spec fn rfc2822_date(text: Seq<char>) -> Option<PubDate>;

/// The date that `chrono` reads from `text` by the pattern `format`, if it
/// reads one.
pub uninterp spec fn formatted_date(text: Seq<char>, format: Seq<char>) -> Option<PubDate>;

/// `DateTime::parse_from_rfc2822` of `chrono`. The date that it reads is
/// handed out as its instant (`timestamp`, `timestamp_subsec_nanos`) and
/// its offset (`local_minus_utc`); the result is [`rfc2822_date`] of the
/// text.
#[verifier::external_body]
fn read_rfc2822(text: &str) -> (date: Option<PubDate>)
    ensures
        date == rfc2822_date(text@),
{
    let parsed = chrono::DateTime::parse_from_rfc2822(text).ok()?;
    Some(
        PubDate {
            timestamp: parsed.timestamp(),
            nanos: parsed.timestamp_subsec_nanos(),
            offset_seconds: parsed.offset().local_minus_utc(),
        },
    )
}

/// `DateTime::parse_from_str` of `chrono`. The date that it reads is
/// handed out as its instant (`timestamp`, `timestamp_subsec_nanos`) and
/// its offset (`local_minus_utc`); the result is [`formatted_date`] of the
/// text and the pattern.
#[verifier::external_body]
fn read_formatted(text: &str, format: &str) -> (date: Option<PubDate>)
    ensures
        date == formatted_date(text@, format@),
{
    let parsed = chrono::DateTime::parse_from_str(text, format).ok()?;
    Some(
        PubDate {
            timestamp: parsed.timestamp(),
            nanos: parsed.timestamp_subsec_nanos(),
            offset_seconds: parsed.offset().local_minus_utc(),
        },
    )
}

/// The date that one of the patterns for dates off the standard reads from
/// `text`: the first of them that reads one.
pub open spec fn relaxed_date(text: Seq<char>) -> Option<PubDate> {
    match formatted_date(text, "%a, %d %b %Y %H:%M:%S %z"@) {
        Some(date) => Some(date),
        None => match formatted_date(text, "%Y-%m-%dT%H:%M:%S%:z"@) {
            Some(date) => Some(date),
            None => formatted_date(text, "%Y-%m-%d %H:%M:%S %z"@),
        },
    }
}

/// The publication date that `text` gives: the date of RFC 2822 where
/// `text` is one, else the date that a relaxed pattern reads. A text that
/// gives none leaves its episode undated.
pub open spec fn publication_date(text: Seq<char>) -> Option<PubDate> {
    match rfc2822_date(text) {
        Some(date) => Some(date),
        None => relaxed_date(text),
    }
}

/// Tries to parse dates that do not strictly conform to RFC 2822.
pub fn parse_relaxed_date(date_str: &str) -> (date: Option<PubDate>)
    ensures
        date == relaxed_date(date_str@),
{
    match read_formatted(date_str, "%a, %d %b %Y %H:%M:%S %z") {
        Some(date) => Some(date),
        None => match read_formatted(date_str, "%Y-%m-%dT%H:%M:%S%:z") {
            Some(date) => Some(date),
            None => read_formatted(date_str, "%Y-%m-%d %H:%M:%S %z"),
        },
    }
}

/// Reads a publication date.
pub fn parse_pub_date(date_str: &str) -> (date: Option<PubDate>)
    ensures
        date == publication_date(date_str@),
{
    match read_rfc2822(date_str) {
        Some(date) => Some(date),
        None => parse_relaxed_date(date_str),
    }
}

} // verus!
