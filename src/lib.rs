//! UTC-only calendar and clock arithmetic for the proleptic Gregorian calendar,
//! counted from the Unix epoch (1970-01-01T00:00:00Z).
//!
//! Instants move between a duration since the epoch (`UTCTimestamp`), a whole
//! day count (`UTCDay`), a calendar date (`UTCDate`) and a time of day
//! (`UTCTimeOfDay`), and are written and read as ISO 8601 text.
use crate::calendar::{date_of_day, days_since_epoch, MAX_YEAR};
use crate::constants::NANOS_PER_DAY;
use crate::date::{UTCDate, UTCDateError};
use crate::calendar::is_valid_date;
use crate::iso::{
    ascii_string, ascii_text, copy_prefix, extend_bytes, iso_date_bytes, iso_date_fields,
    iso_date_parse_error, iso_date_text, iso_datetime_fields, iso_tod_bytes, iso_tod_len_spec,
    iso_tod_parse_error, iso_tod_text, substr,
};
use crate::time::{
    day_tod_nanos, duration_nanos, UTCDayErrOutOfRange, UTCTimeOfDay, UTCTimeOfDayError, UTCTimestamp,
    UTCTransformations,
};
use core::time::Duration;
use vstd::arithmetic::div_mod::lemma_fundamental_div_mod;
use vstd::prelude::*;
use vstd::string::StringSliceAdditionalSpecFns;

pub mod calendar;
pub mod constants;
pub mod date;
pub mod iso;
pub mod text;
pub mod time;

verus! {

/// UTC Datetime: a date and a time of day on it, with nanosecond resolution.
#[derive(Debug, Clone, Copy, PartialEq, Eq, Structural, PartialOrd, Ord, Hash)]
pub struct UTCDatetime {
    date: UTCDate,
    tod: UTCTimeOfDay,
}

impl View for UTCDatetime {
    /// `((year, month, day), nanoseconds since midnight)`
    type V = ((int, int, int), int);

    closed spec fn view(&self) -> ((int, int, int), int) {
        (self.date@, self.tod@)
    }
}

impl UTCDatetime {
    /// The minimum length of an ISO datetime (in UTF8 characters)
    pub const MIN_ISO_DATETIME_LEN: usize = UTCTimeOfDay::MIN_ISO_TOD_LEN + UTCDate::ISO_DATE_LEN;

    /// The minimum UTC datetime: the epoch.
    pub fn min_value() -> (r: Self)
        ensures
            r@ == ((1970int, 1int, 1int), 0int),
    {
        Self { date: UTCDate::min_value(), tod: UTCTimeOfDay::zero() }
    }

    /// The maximum UTC datetime: `November 9, 584_554_051_223, T07:00:15.999999999Z`,
    /// the instant of the maximum timestamp.
    pub fn max_value() -> (r: Self)
        ensures
            r@ == ((MAX_YEAR as int, 11int, 9int), 25_215_999_999_999int),
    {
        Self {
            date: UTCDate::max_value(),
            tod: UTCTimeOfDay::from_nanos_unchecked(25_215_999_999_999),
        }
    }

    /// Create a datetime from a date and a time of day.
    pub fn from_components(date: UTCDate, tod: UTCTimeOfDay) -> (r: Self)
        ensures
            r@ == (date@, tod@),
    {
        Self { date, tod }
    }

    /// The date and the time of day.
    pub fn as_components(&self) -> (r: (UTCDate, UTCTimeOfDay))
        ensures
            (r.0@, r.1@) == self@,
    {
        (self.date, self.tod)
    }

    /// Consume the datetime into its date and time of day.
    pub fn to_components(self) -> (r: (UTCDate, UTCTimeOfDay))
        ensures
            (r.0@, r.1@) == self@,
    {
        (self.date, self.tod)
    }

    /// The date.
    pub fn as_date(&self) -> (r: UTCDate)
        ensures
            r@ == self@.0,
    {
        self.date
    }

    /// The time of day.
    pub fn as_tod(&self) -> (r: UTCTimeOfDay)
        ensures
            r@ == self@.1,
    {
        self.tod
    }

    /// Try to parse a datetime from ISO 8601 text `YYYY-MM-DDThh:mm:ssZ` or
    /// `YYYY-MM-DDThh:mm:ss.nnnZ`, with up to nine fractional digits.
    ///
    /// The first ten bytes are read as a date and the rest, from the `T`, as
    /// a time of day; their errors come wrapped in `UTCDate` and `UTCTimeOfDay`.
    pub fn try_from_iso_datetime(iso: &str) -> (r: Result<Self, UTCDatetimeError>)
        ensures
            iso.spec_bytes().len() < 20 ==> (r matches Err(UTCDatetimeError::InsufficientStrLen(l, m))
                && l == iso.spec_bytes().len() && m == 20),
            iso.spec_bytes().len() >= 20 && iso.spec_bytes()[10] != 84 ==> (r matches Err(
                UTCDatetimeError::UTCTimeOfDay(UTCTimeOfDayError::InvalidSeparator(k)),
            ) && k == 0),
            ({
                let b = iso.spec_bytes();
                let d = b.subrange(0, 10);
                let t = b.subrange(10, b.len() as int);
                let date_ok = (iso_date_fields(d) matches Some(f) && is_valid_date(f.0, f.1, f.2));
                &&& b.len() >= 20 && b[10] == 84 && !date_ok ==> (r matches Err(
                    UTCDatetimeError::UTCDate(_),
                ))
                &&& b.len() >= 20 && b[10] == 84 && iso_date_parse_error(d) ==> (r matches Err(
                    UTCDatetimeError::UTCDate(UTCDateError::ParseErr(_)),
                ))
                &&& b.len() >= 20 && b[10] == 84 && date_ok && r is Err ==> (r matches Err(
                    UTCDatetimeError::UTCTimeOfDay(_),
                ))
                &&& b.len() >= 20 && b[10] == 84 && date_ok && iso_tod_parse_error(t) ==> (r matches Err(
                    UTCDatetimeError::UTCTimeOfDay(UTCTimeOfDayError::ParseErr(_)),
                ))
            }),
            r is Ok <==> iso_datetime_fields(iso.spec_bytes()) is Some,
            r matches Ok(dt) ==> dt@ == iso_datetime_fields(iso.spec_bytes())->0,
    {
        let bytes = iso.as_bytes();
        let len = bytes.len();
        if len < Self::MIN_ISO_DATETIME_LEN {
            return Err(UTCDatetimeError::InsufficientStrLen(len, Self::MIN_ISO_DATETIME_LEN));
        }
        if bytes[10] != 84u8 {
            return Err(UTCDatetimeError::UTCTimeOfDay(UTCTimeOfDayError::InvalidSeparator(0)));
        }
        let date_str = substr(iso, 0, 10);
        let tod_str = substr(iso, 10, len);
        proof {
            assert(date_str.spec_bytes() =~= iso.spec_bytes().subrange(0, 10));
            assert(tod_str.spec_bytes() =~= iso.spec_bytes().subrange(10, len as int));
        }
        let date = match UTCDate::try_from_iso_date(date_str) {
            Ok(d) => d,
            Err(e) => return Err(UTCDatetimeError::UTCDate(e)),
        };
        let tod = match UTCTimeOfDay::try_from_iso_tod(tod_str) {
            Ok(t) => t,
            Err(e) => return Err(UTCDatetimeError::UTCTimeOfDay(e)),
        };
        Ok(Self::from_components(date, tod))
    }

    /// The ISO text of the datetime, as bytes.
    fn iso_bytes(&self, precision: usize) -> (r: Vec<u8>)
        ensures
            r@ == iso_date_text(self@.0.0, self@.0.1, self@.0.2) + iso_tod_text(
                self@.1,
                precision as int,
            ),
    {
        let (year, month, day) = self.date.as_components();
        let mut out = iso_date_bytes(year, month, day);
        let tod_text = iso_tod_bytes(self.tod.as_nanos(), precision);
        extend_bytes(&mut out, &tod_text);
        out
    }

    /// The datetime as ISO 8601 text: `YYYY-MM-DDThh:mm:ssZ` at precision 0,
    /// `YYYY-MM-DDThh:mm:ss.nnnZ` at precision 3.
    ///
    /// The precision is the number of fractional digits, at most nine; the
    /// fraction is truncated, never rounded.
    pub fn as_iso_datetime(&self, precision: usize) -> (r: String)
        ensures
            r@ == ascii_text(
                iso_date_text(self@.0.0, self@.0.1, self@.0.2) + iso_tod_text(self@.1, precision as int),
            ),
    {
        ascii_string(&self.iso_bytes(precision))
    }

    /// Write the datetime as ISO 8601 text to the front of `buf`, byte for
    /// byte as `as_iso_datetime` gives it.
    ///
    /// The text has `iso_datetime_len(precision)` bytes up to the year 9999,
    /// and one more for each further digit of the year. Where the buffer is
    /// shorter, nothing is written and `InsufficientStrLen` holds its length
    /// and the length required. On success the number of bytes written is
    /// returned.
    pub fn write_iso_datetime(&self, buf: &mut [u8], precision: usize) -> (r: Result<
        usize,
        UTCDatetimeError,
    >)
        ensures
            ({
                let text = iso_date_text(self@.0.0, self@.0.1, self@.0.2) + iso_tod_text(
                    self@.1,
                    precision as int,
                );
                &&& old(buf)@.len() < text.len() ==> (r matches Err(
                    UTCDatetimeError::InsufficientStrLen(l, m),
                ) && l == old(buf)@.len() && m == text.len() && final(buf)@ == old(buf)@)
                &&& old(buf)@.len() >= text.len() ==> (r matches Ok(n) && n == text.len()
                    && final(buf)@ == text + old(buf)@.skip(n as int))
            }),
    {
        let text = self.iso_bytes(precision);
        let write_len = text.len();
        if write_len > buf.len() {
            return Err(UTCDatetimeError::InsufficientStrLen(buf.len(), write_len));
        }
        copy_prefix(buf, &text, write_len);
        assert(text@.take(write_len as int) =~= text@);
        Ok(write_len)
    }

    /// Number of bytes of an ISO datetime text written with `precision`, for
    /// years up to 9999.
    pub fn iso_datetime_len(precision: usize) -> (r: usize)
        ensures
            r == iso_tod_len_spec(precision as int) + 10,
    {
        UTCTimeOfDay::iso_tod_len(precision) + UTCDate::ISO_DATE_LEN
    }
}

impl UTCTransformations for UTCDatetime {
    open spec fn instant(&self) -> int {
        day_tod_nanos(days_since_epoch(self@.0.0, self@.0.1, self@.0.2), self@.1)
    }

    open spec fn granularity() -> int {
        1
    }

    fn from_timestamp(timestamp: UTCTimestamp) -> (r: Self) {
        let tod = timestamp.as_tod();
        let date = UTCDate::from_timestamp(timestamp);
        let nanos = timestamp.as_nanos();
        proof {
            lemma_fundamental_div_mod(nanos as int, NANOS_PER_DAY as int);
        }
        Self::from_components(date, tod)
    }

    fn as_timestamp(&self) -> (r: UTCTimestamp) {
        UTCTimestamp::from_day_and_tod(self.date.as_day(), self.tod)
    }
}

impl Default for UTCDatetime {
    fn default() -> (r: Self)
        ensures
            r@ == ((1970int, 1int, 1int), 0int),
    {
        UTCDatetime::min_value()
    }
}

impl From<UTCTimestamp> for UTCDatetime {
    fn from(timestamp: UTCTimestamp) -> UTCDatetime {
        UTCDatetime { date: UTCDate::from(timestamp), tod: UTCTimeOfDay::from_timestamp(timestamp) }
    }
}

impl vstd::std_specs::convert::FromSpecImpl<UTCTimestamp> for UTCDatetime {
    open spec fn obeys_from_spec() -> bool {
        true
    }

    closed spec fn from_spec(v: UTCTimestamp) -> UTCDatetime {
        UTCDatetime {
            date: UTCDate::of_view(date_of_day(v@ / (NANOS_PER_DAY as int))),
            tod: UTCTimeOfDay::of_nanos(v@ % (NANOS_PER_DAY as int)),
        }
    }
}

impl From<Duration> for UTCDatetime {
    fn from(duration: Duration) -> UTCDatetime {
        UTCDatetime::from(UTCTimestamp::from_duration(duration))
    }
}

impl vstd::std_specs::convert::FromSpecImpl<Duration> for UTCDatetime {
    open spec fn obeys_from_spec() -> bool {
        true
    }

    closed spec fn from_spec(v: Duration) -> UTCDatetime {
        UTCDatetime {
            date: UTCDate::of_view(date_of_day(duration_nanos(v) / (NANOS_PER_DAY as int))),
            tod: UTCTimeOfDay::of_nanos(duration_nanos(v) % (NANOS_PER_DAY as int)),
        }
    }
}

/// Error type for UTCDatetime methods
#[derive(Debug)]
pub enum UTCDatetimeError {
    /// Error within the date part
    UTCDate(UTCDateError),
    /// Error within the time-of-day part
    UTCTimeOfDay(UTCTimeOfDayError),
    /// The ISO datetime text or the buffer is too short: `(length, required)`
    InsufficientStrLen(usize, usize),
}

impl From<UTCDateError> for UTCDatetimeError {
    fn from(value: UTCDateError) -> Self {
        Self::UTCDate(value)
    }
}

impl vstd::std_specs::convert::FromSpecImpl<UTCDateError> for UTCDatetimeError {
    open spec fn obeys_from_spec() -> bool {
        true
    }

    open spec fn from_spec(v: UTCDateError) -> Self {
        UTCDatetimeError::UTCDate(v)
    }
}

impl From<UTCTimeOfDayError> for UTCDatetimeError {
    fn from(value: UTCTimeOfDayError) -> Self {
        Self::UTCTimeOfDay(value)
    }
}

impl vstd::std_specs::convert::FromSpecImpl<UTCTimeOfDayError> for UTCDatetimeError {
    open spec fn obeys_from_spec() -> bool {
        true
    }

    open spec fn from_spec(v: UTCTimeOfDayError) -> Self {
        UTCDatetimeError::UTCTimeOfDay(v)
    }
}

/// Crate-level error type
#[derive(Debug)]
pub enum UTCError {
    /// Error within UTC Date
    UTCDate(UTCDateError),
    /// Error within UTC Time of Day
    UTCTimeOfDay(UTCTimeOfDayError),
    /// Error within UTC Day
    UTCDay(UTCDayErrOutOfRange),
    /// Error within UTC Datetime
    UTCDatetime(UTCDatetimeError),
}

impl From<UTCDateError> for UTCError {
    fn from(value: UTCDateError) -> Self {
        Self::UTCDate(value)
    }
}

impl vstd::std_specs::convert::FromSpecImpl<UTCDateError> for UTCError {
    open spec fn obeys_from_spec() -> bool {
        true
    }

    open spec fn from_spec(v: UTCDateError) -> Self {
        UTCError::UTCDate(v)
    }
}

impl From<UTCTimeOfDayError> for UTCError {
    fn from(value: UTCTimeOfDayError) -> Self {
        Self::UTCTimeOfDay(value)
    }
}

impl vstd::std_specs::convert::FromSpecImpl<UTCTimeOfDayError> for UTCError {
    open spec fn obeys_from_spec() -> bool {
        true
    }

    open spec fn from_spec(v: UTCTimeOfDayError) -> Self {
        UTCError::UTCTimeOfDay(v)
    }
}

impl From<UTCDayErrOutOfRange> for UTCError {
    fn from(value: UTCDayErrOutOfRange) -> Self {
        Self::UTCDay(value)
    }
}

impl vstd::std_specs::convert::FromSpecImpl<UTCDayErrOutOfRange> for UTCError {
    open spec fn obeys_from_spec() -> bool {
        true
    }

    open spec fn from_spec(v: UTCDayErrOutOfRange) -> Self {
        UTCError::UTCDay(v)
    }
}

impl From<UTCDatetimeError> for UTCError {
    fn from(value: UTCDatetimeError) -> Self {
        Self::UTCDatetime(value)
    }
}

impl vstd::std_specs::convert::FromSpecImpl<UTCDatetimeError> for UTCError {
    open spec fn obeys_from_spec() -> bool {
        true
    }

    open spec fn from_spec(v: UTCDatetimeError) -> Self {
        UTCError::UTCDatetime(v)
    }
}

} // verus!
