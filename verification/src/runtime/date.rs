//! Dates as the mail parser reads them.

use vstd::prelude::*;
use crate::text::padded;

verus! {

/// A date and time with its zone, as written in a message.
#[derive(Clone, Copy, Debug, PartialEq, Eq, Structural)]
pub struct DateTime {
    pub year: u16,
    pub month: u8,
    pub day: u8,
    pub hour: u8,
    pub minute: u8,
    pub second: u8,
    pub tz_before_gmt: bool,
    pub tz_hour: u8,
    pub tz_minute: u8,
}

/// The date that the mail parser reads from a text in the format of
/// RFC 3339, if it reads one.
pub uninterp spec fn rfc3339_date(text: Seq<char>) -> Option<DateTime>;

/// The number of seconds from the start of 1970, in universal time, to the
/// date, as the mail parser counts them.
pub uninterp spec fn timestamp_of(date: DateTime) -> i64;

/// `DateTime::parse_rfc3339` of mail_parser: the fields of the date that it
/// reads from `text`, or nothing when it reads none. It checks the layout of
/// the text, not the ranges of the fields.
#[verifier::external_body]
pub(crate) fn parse_rfc3339(text: &str) -> (r: Option<DateTime>)
    ensures
        r == rfc3339_date(text@),
{
    let d = mail_parser::DateTime::parse_rfc3339(text)?;
    let (year, month, day, hour, minute, second) = (d.year, d.month, d.day, d.hour, d.minute, d.second);
    let (tz_before_gmt, tz_hour, tz_minute) = (d.tz_before_gmt, d.tz_hour, d.tz_minute);
    Some(DateTime { year, month, day, hour, minute, second, tz_before_gmt, tz_hour, tz_minute })
}

/// `DateTime::to_timestamp` of mail_parser, on a date with the same fields:
/// the seconds from the start of 1970 to the date.
#[verifier::external_body]
pub(crate) fn to_timestamp(date: &DateTime) -> (r: i64)
    ensures
        r == timestamp_of(*date),
{
    mail_parser::DateTime {
        year: date.year,
        month: date.month,
        day: date.day,
        hour: date.hour,
        minute: date.minute,
        second: date.second,
        tz_before_gmt: date.tz_before_gmt,
        tz_hour: date.tz_hour,
        tz_minute: date.tz_minute,
    }.to_timestamp()
}

/// The date that the mail parser reads from the raw bytes of a date header,
/// if it reads one.
pub uninterp spec fn date_in(raw: Seq<u8>) -> Option<DateTime>;

/// The date in the format of RFC 822, as the mail parser writes it.
pub uninterp spec fn rfc822_of(date: DateTime) -> Seq<char>;

/// The day of the week of the date, from 0 for Sunday to 6 for Saturday, as
/// the mail parser counts it.
pub uninterp spec fn weekday_of(date: DateTime) -> u8;

/// The date moved to the zone that lies `tz` seconds from universal time, as
/// the mail parser moves it.
pub uninterp spec fn in_zone(date: DateTime, tz: i32) -> DateTime;

/// The date in universal time that lies the given number of seconds from the
/// start of 1970, as the mail parser counts it.
pub uninterp spec fn date_at(timestamp: i64) -> DateTime;

/// `MessageStream::parse_date` of mail_parser, on a stream over `raw`: the
/// fields of the date that it reads, or nothing when it reads none. It
/// checks the layout, not the ranges of the fields.
#[verifier::external_body]
pub(crate) fn parse_date(raw: &[u8]) -> (r: Option<DateTime>)
    ensures
        r == date_in(raw@),
{
    match mail_parser::parsers::MessageStream::new(raw).parse_date() {
        mail_parser::HeaderValue::DateTime(d) => {
            let (year, month, day, hour, minute) = (d.year, d.month, d.day, d.hour, d.minute);
            let (second, before, th, tm) = (d.second, d.tz_before_gmt, d.tz_hour, d.tz_minute);
            let (tz_before_gmt, tz_hour, tz_minute) = (before, th, tm);
            Some(DateTime { year, month, day, hour, minute, second, tz_before_gmt, tz_hour, tz_minute })
        },
        _ => None,
    }
}

/// The sign of the zone of a date: a minus for a zone behind universal time.
pub open spec fn zone_sign(date: DateTime) -> Seq<char> {
    if date.tz_before_gmt && (date.tz_hour > 0 || date.tz_minute > 0) {
        "-"@
    } else {
        "+"@
    }
}

/// The date in the format of RFC 3339: the date, a `T`, the time, and the
/// zone as hours and minutes, or a `Z` for universal time; each number with
/// zeros before it up to the width of its field.
pub open spec fn rfc3339_of(date: DateTime) -> Seq<char> {
    padded(date.year as nat, 4) + "-"@ + padded(date.month as nat, 2) + "-"@ + padded(
        date.day as nat,
        2,
    ) + "T"@ + padded(date.hour as nat, 2) + ":"@ + padded(date.minute as nat, 2) + ":"@ + padded(
        date.second as nat,
        2,
    ) + if date.tz_hour != 0 || date.tz_minute != 0 {
        zone_sign(date) + padded(date.tz_hour as nat, 2) + ":"@ + padded(date.tz_minute as nat, 2)
    } else {
        "Z"@
    }
}

/// `DateTime::to_rfc3339` of mail_parser, on a date with the same fields:
/// the date in the format of RFC 3339.
#[verifier::external_body]
pub(crate) fn to_rfc3339(date: &DateTime) -> (r: String)
    ensures
        r@ == rfc3339_of(*date),
{
    let (year, month, day, hour, minute, second) = (date.year, date.month, date.day, date.hour, date.minute, date.second);
    let (tz_before_gmt, tz_hour, tz_minute) = (date.tz_before_gmt, date.tz_hour, date.tz_minute);
    mail_parser::DateTime { year, month, day, hour, minute, second, tz_before_gmt, tz_hour, tz_minute }.to_rfc3339()
}

/// `DateTime::to_rfc822` of mail_parser, on a date with the same fields: the
/// date in the format of RFC 822, with the names of the day and the month.
#[verifier::external_body]
pub(crate) fn to_rfc822(date: &DateTime) -> (r: String)
    ensures
        r@ == rfc822_of(*date),
{
    let (year, month, day, hour, minute, second) = (date.year, date.month, date.day, date.hour, date.minute, date.second);
    let (tz_before_gmt, tz_hour, tz_minute) = (date.tz_before_gmt, date.tz_hour, date.tz_minute);
    mail_parser::DateTime { year, month, day, hour, minute, second, tz_before_gmt, tz_hour, tz_minute }.to_rfc822()
}

/// `DateTime::day_of_week` of mail_parser, on a date with the same fields:
/// the day of the week as a number.
#[verifier::external_body]
pub(crate) fn day_of_week(date: &DateTime) -> (r: u8)
    ensures
        r == weekday_of(*date),
{
    let (year, month, day, hour, minute, second) = (date.year, date.month, date.day, date.hour, date.minute, date.second);
    let (tz_before_gmt, tz_hour, tz_minute) = (date.tz_before_gmt, date.tz_hour, date.tz_minute);
    mail_parser::DateTime { year, month, day, hour, minute, second, tz_before_gmt, tz_hour, tz_minute }.day_of_week()
}

/// `DateTime::to_timezone` of mail_parser, on a date with the same fields:
/// the date and time of the same moment in the zone that lies `tz` seconds
/// from universal time.
#[verifier::external_body]
pub(crate) fn to_timezone(date: &DateTime, tz: i32) -> (r: DateTime)
    ensures
        r == in_zone(*date, tz),
{
    let (year, month, day, hour, minute, second) = (date.year, date.month, date.day, date.hour, date.minute, date.second);
    let (tz_before_gmt, tz_hour, tz_minute) = (date.tz_before_gmt, date.tz_hour, date.tz_minute);
    let d = mail_parser::DateTime { year, month, day, hour, minute, second, tz_before_gmt, tz_hour, tz_minute }.to_timezone(i64::from(tz));
    let (year, month, day, hour, minute, second) = (d.year, d.month, d.day, d.hour, d.minute, d.second);
    let (tz_before_gmt, tz_hour, tz_minute) = (d.tz_before_gmt, d.tz_hour, d.tz_minute);
    DateTime { year, month, day, hour, minute, second, tz_before_gmt, tz_hour, tz_minute }
}

/// `DateTime::from_timestamp` of mail_parser: the date and time, in
/// universal time, of the moment that lies `timestamp` seconds from the
/// start of 1970.
#[verifier::external_body]
pub(crate) fn from_timestamp(timestamp: i64) -> (r: DateTime)
    ensures
        r == date_at(timestamp),
{
    let d = mail_parser::DateTime::from_timestamp(timestamp);
    let (year, month, day, hour, minute, second) = (d.year, d.month, d.day, d.hour, d.minute, d.second);
    let (tz_before_gmt, tz_hour, tz_minute) = (d.tz_before_gmt, d.tz_hour, d.tz_minute);
    DateTime { year, month, day, hour, minute, second, tz_before_gmt, tz_hour, tz_minute }
}

impl DateTime {
    /// Whether every field is in its range: a year from 1900 to 3000, a
    /// month, a day of at most 31, a time of day, and a zone of less than a
    /// day.
    pub open spec fn valid(self) -> bool {
        &&& self.tz_hour <= 23
        &&& 1900 <= self.year <= 3000
        &&& self.tz_minute <= 59
        &&& 1 <= self.month <= 12
        &&& 1 <= self.day <= 31
        &&& self.hour <= 23
        &&& self.minute <= 59
        &&& self.second <= 59
    }

    /// The day number of the date in the count of Julian days. January and
    /// February count as the last months of the year before; in the year 0
    /// they count as months of that year.
    pub open spec fn julian(self) -> int {
        let month: int = if self.month > 2 {
            self.month - 3
        } else {
            self.month + 9
        };
        let year: int = if self.month > 2 || self.year == 0 {
            self.year as int
        } else {
            self.year - 1
        };
        let c = year / 100;
        c * 146097 / 4 + (year - c * 100) * 1461 / 4 + (month * 153 + 2) / 5 + self.day + 1721119
    }

    /// The day number of the date in the count of modified Julian days,
    /// which start half a day before noon of 17 November 1858: the whole
    /// part of the Julian day less 2400000.5.
    pub open spec fn modified_julian(self) -> int {
        if self.julian() >= 2400001 {
            self.julian() - 2400001
        } else {
            self.julian() - 2400000
        }
    }

    /// The day number of the date in the count of Julian days.
    pub fn julian_day(&self) -> (r: i64)
        ensures
            r == self.julian(),
            0 <= r <= 30_000_000,
    {
        let month: i64 = if self.month > 2 {
            self.month as i64 - 3
        } else {
            self.month as i64 + 9
        };
        let year: i64 = if self.month > 2 || self.year == 0 {
            self.year as i64
        } else {
            self.year as i64 - 1
        };
        let c = year / 100;
        c * 146097 / 4 + (year - c * 100) * 1461 / 4 + (month * 153 + 2) / 5 + self.day as i64
            + 1721119
    }

    /// Tells whether every field is in its range.
    pub fn is_valid(&self) -> (r: bool)
        ensures
            r == self.valid(),
    {
        self.tz_hour <= 23 && 1900 <= self.year && self.year <= 3000 && self.tz_minute <= 59 && 1
            <= self.month && self.month <= 12 && 1 <= self.day && self.day <= 31 && self.hour
            <= 23 && self.minute <= 59 && self.second <= 59
    }
}

/// The time limit that a text states: the seconds from the start of 1970 to
/// the date in it, and 0 when it holds no valid date.
pub open spec fn absolute_limit(text: Seq<char>) -> i64 {
    match rfc3339_date(text) {
        Some(date) => if date.valid() {
            timestamp_of(date)
        } else {
            0
        },
        None => 0,
    }
}

/// The time limit that `text` states.
pub fn parse_absolute_limit(text: &str) -> (r: i64)
    ensures
        r == absolute_limit(text@),
{
    match parse_rfc3339(text) {
        Some(date) => {
            if date.is_valid() {
                to_timestamp(&date)
            } else {
                0
            }
        },
        None => 0,
    }
}

} // verus!
