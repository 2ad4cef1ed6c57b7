//! Points in time as plain values, obtained from the `time` crate.
use vstd::prelude::*;

use crate::text::{all_digits, digits_value};
use time::format_description::well_known::Rfc3339;
use time::OffsetDateTime;

verus! {

/// A point in time as the `time` crate describes it: its Unix time in
/// nanoseconds, its calendar fields in its own UTC offset, and its RFC 3339
/// and display texts.
#[derive(Debug, Clone)]
pub struct DateTime {
    pub unix_nanos: i128,
    pub year: i32,
    pub month: u8,
    pub day: u8,
    pub hour: u8,
    pub minute: u8,
    pub second: u8,
    pub nanosecond: u32,
    pub offset_seconds: i32,
    /// The RFC 3339 text, when the date can be written in that format.
    pub rfc3339: Option<String>,
    /// The `Display` text.
    pub display: String,
}

pub struct DateTimeView {
    pub unix_nanos: i128,
    pub year: i32,
    pub month: u8,
    pub day: u8,
    pub hour: u8,
    pub minute: u8,
    pub second: u8,
    pub nanosecond: u32,
    pub offset_seconds: i32,
    pub rfc3339: Option<Seq<char>>,
    pub display: Seq<char>,
}

impl View for DateTime {
    type V = DateTimeView;

    open spec fn view(&self) -> DateTimeView {
        DateTimeView {
            unix_nanos: self.unix_nanos,
            year: self.year,
            month: self.month,
            day: self.day,
            hour: self.hour,
            minute: self.minute,
            second: self.second,
            nanosecond: self.nanosecond,
            offset_seconds: self.offset_seconds,
            rfc3339: match self.rfc3339 {
                Some(s) => Some(s@),
                None => None,
            },
            display: self.display@,
        }
    }
}

/// A Gregorian leap year.
pub open spec fn is_leap_year(y: int) -> bool {
    y % 4 == 0 && (y % 100 != 0 || y % 400 == 0)
}

/// Number of days in month `m` of year `y`.
pub open spec fn days_in_month(y: int, m: int) -> int {
    if m == 2 {
        if is_leap_year(y) {
            29
        } else {
            28
        }
    } else if m == 4 || m == 6 || m == 9 || m == 11 {
        30
    } else {
        31
    }
}

/// A calendar date and a time of day (without leap second) that exist.
pub open spec fn valid_calendar(y: int, mo: int, d: int, h: int, mi: int, s: int) -> bool {
    &&& -9999 <= y <= 9999
    &&& 1 <= mo <= 12
    &&& 1 <= d <= days_in_month(y, mo)
    &&& 0 <= h < 24
    &&& 0 <= mi < 60
    &&& 0 <= s < 60
}

/// The point's calendar fields are these, with no fraction of a second, in
/// UTC.
pub open spec fn whole_second_utc(
    t: DateTimeView,
    y: int,
    mo: int,
    d: int,
    h: int,
    mi: int,
    s: int,
) -> bool {
    &&& t.year == y
    &&& t.month == mo
    &&& t.day == d
    &&& t.hour == h
    &&& t.minute == mi
    &&& t.second == s
    &&& t.nanosecond == 0
    &&& t.offset_seconds == 0
}

/// The decimal value of the characters `[i, j)` of `s`.
pub open spec fn field(s: Seq<char>, i: int, j: int) -> int {
    digits_value(s.subrange(i, j)) as int
}

/// Text of the plain RFC 3339 form `YYYY-MM-DDThh:mm:ssZ`: digits and these
/// separators, with seconds below 60.
pub open spec fn rfc3339_plain(s: Seq<char>) -> bool {
    &&& s.len() == 20
    &&& all_digits(s.subrange(0, 4))
    &&& s[4] == '-'
    &&& all_digits(s.subrange(5, 7))
    &&& s[7] == '-'
    &&& all_digits(s.subrange(8, 10))
    &&& s[10] == 'T'
    &&& all_digits(s.subrange(11, 13))
    &&& s[13] == ':'
    &&& all_digits(s.subrange(14, 16))
    &&& s[16] == ':'
    &&& all_digits(s.subrange(17, 19))
    &&& s[19] == 'Z'
    &&& field(s, 17, 19) < 60
}

/// The calendar fields written in a plain RFC 3339 text exist.
pub open spec fn plain_fields_valid(s: Seq<char>) -> bool {
    valid_calendar(
        field(s, 0, 4),
        field(s, 5, 7),
        field(s, 8, 10),
        field(s, 11, 13),
        field(s, 14, 16),
        field(s, 17, 19),
    )
}

/// The point has the calendar fields written in a plain RFC 3339 text.
pub open spec fn reads_plain(t: DateTimeView, s: Seq<char>) -> bool {
    whole_second_utc(
        t,
        field(s, 0, 4),
        field(s, 5, 7),
        field(s, 8, 10),
        field(s, 11, 13),
        field(s, 14, 16),
        field(s, 17, 19),
    )
}

/// The UTC point `nanos` nanoseconds after the Unix epoch, when the `time`
/// crate can represent it (`OffsetDateTime::from_unix_timestamp_nanos`).
pub uninterp spec fn utc_date_time(nanos: i128) -> Option<DateTimeView>;

/// The point an RFC 3339 text denotes, when it is valid
/// (`OffsetDateTime::parse` with `Rfc3339`).
pub uninterp spec fn rfc3339_date_time(text: Seq<char>) -> Option<DateTimeView>;

/// `OffsetDateTime::from_unix_timestamp_nanos`, read into a `DateTime`.
/// Its result is named `utc_date_time`; as the crate documents, a point it
/// returns is in UTC and keeps the given Unix time, and its date and time of
/// day exist (the crate's `Date` and `Time` hold only such values; a UTC
/// point has no leap second). The error text is the crate's and is not
/// stated.
#[verifier::external_body]
pub(crate) fn date_time_from_unix_nanos(nanos: i128) -> (r: Result<DateTime, String>)
    ensures
        r is Ok <==> utc_date_time(nanos) is Some,
        r matches Ok(t) ==> utc_date_time(nanos) == Some(t@) && t.unix_nanos == nanos
            && t.offset_seconds == 0,
        r matches Ok(t) ==> valid_calendar(
            t.year as int,
            t.month as int,
            t.day as int,
            t.hour as int,
            t.minute as int,
            t.second as int,
        ) && t.nanosecond < 1_000_000_000,
{
    match OffsetDateTime::from_unix_timestamp_nanos(nanos) {
        Ok(t) => Ok(DateTime {
            unix_nanos: t.unix_timestamp_nanos(), year: t.year(), month: u8::from(t.month()),
            day: t.day(), hour: t.hour(), minute: t.minute(), second: t.second(),
            nanosecond: t.nanosecond(), offset_seconds: t.offset().whole_seconds(),
            rfc3339: t.format(&Rfc3339).ok(), display: t.to_string(),
        }),
        Err(e) => Err(e.to_string()),
    }
}

/// `OffsetDateTime::parse` with the `Rfc3339` description, read into a
/// `DateTime`. Its result is named `rfc3339_date_time`. For the plain form
/// `YYYY-MM-DDThh:mm:ssZ` (seconds below 60) the crate's parser reads the
/// fields as written, with no fraction, in UTC, and succeeds exactly when
/// that date and time of day exist. The error text is the crate's and is not
/// stated.
#[verifier::external_body]
pub(crate) fn parse_rfc3339(text: &str) -> (r: Result<DateTime, String>)
    ensures
        r is Ok <==> rfc3339_date_time(text@) is Some,
        r matches Ok(t) ==> rfc3339_date_time(text@) == Some(t@),
        rfc3339_plain(text@) ==> (r is Ok <==> plain_fields_valid(text@)),
        rfc3339_plain(text@) ==> (r matches Ok(t) ==> reads_plain(t@, text@)),
{
    match OffsetDateTime::parse(text, &Rfc3339) {
        Ok(t) => Ok(DateTime {
            unix_nanos: t.unix_timestamp_nanos(), year: t.year(), month: u8::from(t.month()),
            day: t.day(), hour: t.hour(), minute: t.minute(), second: t.second(),
            nanosecond: t.nanosecond(), offset_seconds: t.offset().whole_seconds(),
            rfc3339: t.format(&Rfc3339).ok(), display: t.to_string(),
        }),
        Err(e) => Err(e.to_string()),
    }
}

/// The RFC 3339 text of a point, or its display text when it has none.
pub fn rfc3339_or_display(t: &DateTime) -> (r: String)
    ensures
        r@ == match t@.rfc3339 {
            Some(s) => s,
            None => t@.display,
        },
{
    match &t.rfc3339 {
        Some(s) => s.clone(),
        None => t.display.clone(),
    }
}

} // verus!
