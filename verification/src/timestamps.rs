//! Hours of the day from message timestamps.
//!
//! Timestamps are parsed by the `chrono` crate. Which texts it accepts is not
//! restated here: the hour it finds gets a name, and the only fact claimed of
//! an hour is that it lies between 0 and 23.

use chrono::Timelike;
use vstd::prelude::*;

verus! {

/// The two timestamp notations that archives use.
#[derive(Debug, Clone, Copy, PartialEq, Eq, Structural)]
pub enum TimestampFormat {
    /// `YYYY-MM-DD HH:MM:SS`, without a zone.
    Plain,
    /// RFC 3339, with a zone offset.
    Rfc3339,
}

/// The format description of the plain notation.
pub const PLAIN_FORMAT: &'static str = "%Y-%m-%d %H:%M:%S";

/// The hour of the date and time that `timestamp` spells in the notation
/// that `format` describes, if it spells one.
pub uninterp spec fn naive_hour(timestamp: Seq<char>, format: Seq<char>) -> Option<u32>;

/// The hour, at its own zone offset, of the RFC 3339 date and time that
/// `timestamp` spells, if it spells one.
pub uninterp spec fn rfc3339_hour(timestamp: Seq<char>) -> Option<u32>;

/// The notation that is not `format`.
pub open spec fn other_format(format: TimestampFormat) -> TimestampFormat {
    match format {
        TimestampFormat::Plain => TimestampFormat::Rfc3339,
        TimestampFormat::Rfc3339 => TimestampFormat::Plain,
    }
}

/// The hour of the day of a timestamp read in one notation, if the
/// timestamp is well formed in it.
pub open spec fn hour_in(timestamp: Seq<char>, format: TimestampFormat) -> Option<u32> {
    match format {
        TimestampFormat::Plain => naive_hour(timestamp, PLAIN_FORMAT@),
        TimestampFormat::Rfc3339 => rfc3339_hour(timestamp),
    }
}

/// The hour of the day of a timestamp that is expected in the notation
/// `format`: the hour it spells in that notation, or, if it is not well
/// formed in it, the hour it spells in the other notation. An archive does
/// not say which notation it uses, so the expected one is only tried first.
pub open spec fn hour_of(timestamp: Seq<char>, format: TimestampFormat) -> Option<u32> {
    match hour_in(timestamp, format) {
        Some(hour) => Some(hour),
        None => hour_in(timestamp, other_format(format)),
    }
}

/// `NaiveDateTime::parse_from_str`, then `Timelike::hour` of what it
/// parsed. The result depends on the two texts alone; an hour is a number
/// from 0 to 23. A timestamp or a format description that cannot be parsed
/// gives no hour.
#[verifier::external_body]
pub(crate) fn parse_naive_hour(timestamp: &str, format: &str) -> (r: Option<u32>)
    ensures
        r == naive_hour(timestamp@, format@),
        r matches Some(h) ==> h < 24,
{
    chrono::NaiveDateTime::parse_from_str(timestamp, format).ok().map(|parsed| parsed.hour())
}

/// `DateTime::parse_from_rfc3339`, then `Timelike::hour` of what it parsed,
/// which is the hour at the offset the timestamp names. The result depends
/// on the text alone; an hour is a number from 0 to 23.
#[verifier::external_body]
pub(crate) fn parse_rfc3339_hour(timestamp: &str) -> (r: Option<u32>)
    ensures
        r == rfc3339_hour(timestamp@),
        r matches Some(h) ==> h < 24,
{
    chrono::DateTime::parse_from_rfc3339(timestamp).ok().map(|parsed| parsed.hour())
}

/// The hour of the day of `timestamp` read in one notation, if the
/// timestamp is well formed in it.
pub fn parse_hour_in(timestamp: &str, format: TimestampFormat) -> (r: Option<u32>)
    ensures
        r == hour_in(timestamp@, format),
        r matches Some(h) ==> h < 24,
{
    match format {
        TimestampFormat::Plain => parse_naive_hour(timestamp, PLAIN_FORMAT),
        TimestampFormat::Rfc3339 => parse_rfc3339_hour(timestamp),
    }
}

/// The hour of the day of `timestamp`, which is expected in the notation
/// `format`: that notation is tried first, the other one if the timestamp is
/// not well formed in it.
pub fn parse_hour(timestamp: &str, format: TimestampFormat) -> (r: Option<u32>)
    ensures
        r == hour_of(timestamp@, format),
        r matches Some(h) ==> h < 24,
{
    match parse_hour_in(timestamp, format) {
        Some(hour) => Some(hour),
        None => match format {
            TimestampFormat::Plain => parse_hour_in(timestamp, TimestampFormat::Rfc3339),
            TimestampFormat::Rfc3339 => parse_hour_in(timestamp, TimestampFormat::Plain),
        },
    }
}

} // verus!
