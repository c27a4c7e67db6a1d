//! Calendar dates of the proleptic Gregorian calendar, from the epoch onward.
use crate::calendar::{
    date_of_day, days_since_epoch, era_year_start, is_leap_year, is_valid_date, lemma_date_of_day_is,
    lemma_days_since_epoch_march, lemma_era_split, lemma_leap_period, lemma_month_of_day, lemma_valid_iff_day_in_range,
    lemma_year_of_era, march_day_of_year, march_year, month_len, MAX_YEAR, MIN_YEAR,
};
use crate::constants::NANOS_PER_DAY;
use crate::time::{duration_nanos, UTCDay, UTCTimestamp, UTCTransformations};
use crate::iso::{
    ascii_string, ascii_text, copy_prefix, digits_in, invalid_digit_error, iso_date_bytes,
    iso_date_fields, iso_date_parse_error, iso_date_separator_pos, iso_date_separators_ok,
    iso_date_text, lemma_digits_field, substr,
};
use crate::text::{parse_u64, parse_u8, pow10};
use core::num::ParseIntError;
use core::time::Duration;
use vstd::string::StringSliceAdditionalSpecFns;
use vstd::arithmetic::div_mod::{lemma_fundamental_div_mod, lemma_fundamental_div_mod_converse};
use vstd::prelude::*;

verus! {

/// `(year, month, day)` of the stored fields `(era, year_of_era, month, day)`.
pub open spec fn stored_date(era: int, yoe: int, month: int, day: int) -> (int, int, int) {
    (400 * era + yoe + if month <= 2 {
        1int
    } else {
        0int
    }, month, day)
}

/// UTC Date: a calendar date from the Unix epoch (inclusive) onward.
///
/// The year is kept as a 400-year era and a year of that era, both counted
/// in years that start on March 1, so that the leap day closes its year.
#[derive(Debug, Clone, Copy, PartialEq, Eq, Structural, PartialOrd, Ord, Hash)]
pub struct UTCDate {
    era: u32,
    yoe: u16,
    month: u8,
    day: u8,
}

impl View for UTCDate {
    /// `(year, month, day)`
    type V = (int, int, int);

    closed spec fn view(&self) -> (int, int, int) {
        stored_date(self.era as int, self.yoe as int, self.month as int, self.day as int)
    }
}

impl UTCDate {
    #[verifier::type_invariant]
    spec fn inv(self) -> bool {
        self.yoe < 400 && is_valid_date(self@.0, self@.1, self@.2)
    }

    /// The maximum year supported
    pub const MAX_YEAR: u64 = MAX_YEAR;

    /// The minimum year supported
    pub const MIN_YEAR: u64 = MIN_YEAR;

    /// The length of an ISO date (in characters)
    pub const ISO_DATE_LEN: usize = 10;

    /// The minimum UTC Date supported: the epoch, January 1, 1970.
    pub fn min_value() -> (r: Self)
        ensures
            r@ == (1970int, 1int, 1int),
    {
        Self { era: 4, yoe: 369, month: 1, day: 1 }
    }

    /// The maximum UTC Date supported: November 9, 584_554_051_223.
    ///
    /// It is the date of `UTCDay::max_value()`, the last day a timestamp reaches.
    pub fn max_value() -> (r: Self)
        ensures
            r@ == (MAX_YEAR as int, 11int, 9int),
    {
        Self { era: 1_461_385_128, yoe: 23, month: 11, day: 9 }
    }

    /// Create a UTC Date from a year, month and day the caller already knows
    /// to form a supported date.
    pub fn from_components_unchecked(year: u64, month: u8, day: u8) -> (r: Self)
        requires
            is_valid_date(year as int, month as int, day as int),
        ensures
            r@ == (year as int, month as int, day as int),
    {
        let ya = if month <= 2 {
            year - 1
        } else {
            year
        };
        let era = ya / 400;
        let yoe = ya - era * 400;
        Self { era: era as u32, yoe: yoe as u16, month, day }
    }

    /// Try to create a UTC Date from a year, month and day.
    ///
    /// The year is checked first, then the month, then the day within its
    /// month, and last the whole date against `UTCDate::max_value()`.
    pub fn try_from_components(year: u64, month: u8, day: u8) -> (r: Result<Self, UTCDateError>)
        ensures
            r is Ok <==> is_valid_date(year as int, month as int, day as int),
            r matches Ok(date) ==> date@ == (year as int, month as int, day as int),
            r is Err ==> r == Err::<Self, UTCDateError>(components_error(year, month, day)->0),
    {
        if year < MIN_YEAR || year > MAX_YEAR {
            return Err(UTCDateError::YearOutOfRange(year));
        }
        if month == 0 || month > 12 {
            return Err(UTCDateError::MonthOutOfRange(month));
        }
        if day == 0 || day > month_days(year, month) {
            return Err(UTCDateError::DayOutOfRange(year, month, day));
        }
        if year == MAX_YEAR && (month > 11 || (month == 11 && day > 9)) {
            return Err(UTCDateError::DateOutOfRange(year, month, day));
        }
        Ok(Self::from_components_unchecked(year, month, day))
    }

    /// Create a UTC Date from the number of days since the epoch.
    ///
    /// The day count is shifted to start on March 1 of year 0, then split
    /// into 400-year eras, years of the era, and days of the year.
    pub fn from_day(utc_day: UTCDay) -> (r: Self)
        ensures
            r@ == date_of_day(utc_day@),
            days_since_epoch(r@.0, r@.1, r@.2) == utc_day@,
    {
        let n = utc_day.as_u64();
        let z: u64 = n + 719468;
        let era: u32 = (z / 146097) as u32;
        let doe: u32 = (z - era as u64 * 146097) as u32;
        proof {
            lemma_year_of_era(doe as int);
        }
        let yoe: u32 = (doe - doe / 1460 + doe / 36524 - doe / 146096) / 365;
        let doy: u32 = doe + yoe / 100 - 365 * yoe - yoe / 4;
        let mp: u32 = (5 * doy + 2) / 153;
        let ghost ya: int = 400 * era + yoe;
        let ghost y: int = if mp >= 10 {
            ya + 1
        } else {
            ya
        };
        proof {
            lemma_leap_period(yoe + 1, era as int);
            lemma_month_of_day(doy as int, y);
        }
        let day: u8 = (doy - (153 * mp + 2) / 5 + 1) as u8;
        let month: u8 = if mp < 10 {
            (mp + 3) as u8
        } else {
            (mp - 9) as u8
        };
        proof {
            lemma_days_since_epoch_march(y, month as int, day as int);
            lemma_era_split(era as int, yoe as int);
            assert(march_year(y, month as int) == ya);
            assert(march_day_of_year(month as int, day as int) == doy);
            lemma_valid_iff_day_in_range(y, month as int, day as int);
            lemma_date_of_day_is(n as int, y, month as int, day as int);
        }
        Self { era, yoe: yoe as u16, month, day }
    }

    /// The number of days from the epoch to this date.
    pub fn as_day(&self) -> (r: UTCDay)
        ensures
            r@ == days_since_epoch(self@.0, self@.1, self@.2),
    {
        proof {
            use_type_invariant(self);
        }
        let m = self.month as u32;
        let d = self.day as u32;
        let yoe = self.yoe as u32;
        let doy: u32 = (153 * (if m > 2 {
            m - 3
        } else {
            m + 9
        }) + 2) / 5 + d - 1;
        let doe: u32 = yoe * 365 + yoe / 4 - yoe / 100 + doy;
        proof {
            lemma_days_since_epoch_march(self@.0, self@.1, self@.2);
            lemma_era_split(self.era as int, yoe as int);
            lemma_valid_iff_day_in_range(self@.0, self@.1, self@.2);
            assert(era_year_start(yoe as int) + doy == doe);
        }
        let days: u64 = self.era as u64 * 146097 + doe as u64 - 719468;
        UTCDay::from_u64_unchecked(days)
    }

    /// The stored fields `(era, year_of_era, month, day)`, where the year of
    /// the era counts years that start on March 1.
    pub fn as_fields(&self) -> (r: (u32, u16, u8, u8))
        ensures
            r.1 < 400,
            self@ == stored_date(r.0 as int, r.1 as int, r.2 as int, r.3 as int),
    {
        proof {
            use_type_invariant(self);
        }
        (self.era, self.yoe, self.month, self.day)
    }

    /// The date stored as `(era, year_of_era, month, day)`, where these form
    /// a supported date.
    pub fn try_from_fields(era: u32, yoe: u16, month: u8, day: u8) -> (r: Option<Self>)
        ensures
            r is Some <==> yoe < 400 && ({
                let t = stored_date(era as int, yoe as int, month as int, day as int);
                is_valid_date(t.0, t.1, t.2)
            }),
            r matches Some(date) ==> date@ == stored_date(era as int, yoe as int, month as int, day as int),
    {
        if yoe >= 400 || month == 0 || month > 12 {
            return None;
        }
        let year = yoe as u64 + era as u64 * 400 + if month <= 2 {
            1
        } else {
            0
        };
        match Self::try_from_components(year, month, day) {
            Ok(date) => Some(date),
            Err(_) => None,
        }
    }

    /// The date as `(year, month, day)`.
    pub fn as_components(&self) -> (r: (u64, u8, u8))
        ensures
            r.0 == self@.0 && r.1 == self@.1 && r.2 == self@.2,
            is_valid_date(r.0 as int, r.1 as int, r.2 as int),
    {
        proof {
            use_type_invariant(self);
        }
        let year = self.yoe as u64 + (self.era as u64 * 400) + if self.month <= 2 {
            1
        } else {
            0
        };
        (year, self.month, self.day)
    }

    /// Consume the date into `(year, month, day)`.
    pub fn to_components(self) -> (r: (u64, u8, u8))
        ensures
            r.0 == self@.0 && r.1 == self@.1 && r.2 == self@.2,
    {
        self.as_components()
    }

    /// Whether the date lies in a leap year.
    pub fn is_leap_year(&self) -> (r: bool)
        ensures
            r == is_leap_year(self@.0),
    {
        proof {
            use_type_invariant(self);
        }
        let yoe_adj: u16 = self.yoe + if self.month <= 2 {
            1
        } else {
            0
        };
        proof {
            lemma_leap_period(yoe_adj as int, self.era as int);
        }
        (yoe_adj % 4 == 0) && ((yoe_adj % 100 != 0) || (yoe_adj % 400 == 0))
    }

    /// The number of days of the date's month, leap years accounted for.
    pub fn days_in_month(&self) -> (r: u8)
        ensures
            r == month_len(self@.0, self@.1),
    {
        proof {
            use_type_invariant(self);
        }
        match self.month {
            1 | 3 | 5 | 7 | 8 | 10 | 12 => 31,
            4 | 6 | 9 | 11 => 30,
            _ => {
                if self.is_leap_year() {
                    29
                } else {
                    28
                }
            },
        }
    }

    /// Try to parse a date from ISO 8601 text `YYYY-MM-DD`.
    ///
    /// The text must have ten bytes, hyphens at bytes 4 and 7, and decimal
    /// digits elsewhere; the date they give is then checked as
    /// `try_from_components` does. A non-digit gives `ParseErr`, carrying the
    /// error std gives for the text.
    pub fn try_from_iso_date(iso: &str) -> (r: Result<Self, UTCDateError>)
        ensures
            iso.spec_bytes().len() != 10 ==> (r matches Err(UTCDateError::InvalidStrLen(l)) && l
                == iso.spec_bytes().len()),
            iso.spec_bytes().len() == 10 && !iso_date_separators_ok(iso.spec_bytes()) ==> (r matches Err(
                UTCDateError::InvalidSeparator(k),
            ) && k == iso_date_separator_pos(iso.spec_bytes())),
            iso_date_parse_error(iso.spec_bytes()) ==> (r matches Err(UTCDateError::ParseErr(_))),
            iso_date_fields(iso.spec_bytes()) matches Some(f) ==> ({
                &&& r is Ok <==> is_valid_date(f.0, f.1, f.2)
                &&& (r matches Ok(date) ==> date@ == f)
                &&& r is Err ==> r == Err::<Self, UTCDateError>(
                    components_error(f.0 as u64, f.1 as u8, f.2 as u8)->0,
                )
            }),
            r is Ok ==> iso_date_fields(iso.spec_bytes()) is Some,
    {
        let bytes = iso.as_bytes();
        let len = bytes.len();
        if len != Self::ISO_DATE_LEN {
            return Err(UTCDateError::InvalidStrLen(len));
        }
        if bytes[4] != 45u8 {
            return Err(UTCDateError::InvalidSeparator(4));
        }
        if bytes[7] != 45u8 {
            return Err(UTCDateError::InvalidSeparator(7));
        }
        if !(digits_in(bytes, 0, 4) && digits_in(bytes, 5, 7) && digits_in(bytes, 8, 10)) {
            return Err(UTCDateError::ParseErr(invalid_digit_error(iso, 4)));
        }
        proof {
            lemma_digits_field(iso.spec_bytes(), 0, 4);
            lemma_digits_field(iso.spec_bytes(), 5, 7);
            lemma_digits_field(iso.spec_bytes(), 8, 10);
            reveal_with_fuel(pow10, 5);
        }
        let year: u64 = match parse_u64(substr(iso, 0, 4)) {
            Ok(v) => v,
            Err(e) => return Err(UTCDateError::ParseErr(e)),
        };
        let month: u8 = match parse_u8(substr(iso, 5, 7)) {
            Ok(v) => v,
            Err(e) => return Err(UTCDateError::ParseErr(e)),
        };
        let day: u8 = match parse_u8(substr(iso, 8, 10)) {
            Ok(v) => v,
            Err(e) => return Err(UTCDateError::ParseErr(e)),
        };
        Self::try_from_components(year, month, day)
    }

    /// The ISO text of the date's fields, as bytes.
    fn iso_bytes(&self) -> (r: Vec<u8>)
        ensures
            r@ == iso_date_text(self@.0, self@.1, self@.2),
    {
        let (year, month, day) = self.as_components();
        iso_date_bytes(year, month, day)
    }

    /// The date as ISO 8601 text `YYYY-MM-DD`.
    ///
    /// A year beyond 9999 is written with all of its digits.
    pub fn as_iso_date(&self) -> (r: String)
        ensures
            r@ == ascii_text(iso_date_text(self@.0, self@.1, self@.2)),
    {
        ascii_string(&self.iso_bytes())
    }

    /// Write the date as ISO 8601 text `YYYY-MM-DD` to the front of `buf`,
    /// byte for byte as `as_iso_date` gives it.
    ///
    /// The text has `UTCDate::ISO_DATE_LEN` (10) bytes up to the year 9999,
    /// and one more for each further digit of the year. Where the buffer is
    /// shorter, nothing is written and `InvalidStrLen` holds its length. On
    /// success the number of bytes written is returned.
    pub fn write_iso_date(&self, buf: &mut [u8]) -> (r: Result<usize, UTCDateError>)
        ensures
            old(buf)@.len() < iso_date_text(self@.0, self@.1, self@.2).len() ==> (r matches Err(
                UTCDateError::InvalidStrLen(l),
            ) && l == old(buf)@.len() && final(buf)@ == old(buf)@),
            old(buf)@.len() >= iso_date_text(self@.0, self@.1, self@.2).len() ==> (r matches Ok(n)
                && n == iso_date_text(self@.0, self@.1, self@.2).len() && final(buf)@
                == iso_date_text(self@.0, self@.1, self@.2) + old(buf)@.skip(n as int)),
    {
        let text = self.iso_bytes();
        let write_len = text.len();
        if write_len > buf.len() {
            return Err(UTCDateError::InvalidStrLen(buf.len()));
        }
        copy_prefix(buf, &text, write_len);
        assert(text@.take(write_len as int) =~= text@);
        Ok(write_len)
    }
}

impl UTCTransformations for UTCDate {
    open spec fn instant(&self) -> int {
        days_since_epoch(self@.0, self@.1, self@.2) * NANOS_PER_DAY
    }

    open spec fn granularity() -> int {
        NANOS_PER_DAY as int
    }

    fn from_timestamp(timestamp: UTCTimestamp) -> (r: Self) {
        proof {
            lemma_fundamental_div_mod(timestamp@, NANOS_PER_DAY as int);
        }
        Self::from_day(timestamp.as_day())
    }

    fn as_timestamp(&self) -> (r: UTCTimestamp) {
        UTCTimestamp::from_day(self.as_day())
    }
}

/// The error `try_from_components` gives for `(year, month, day)`, checked in
/// that order: year, month, day within its month, then the whole date;
/// `None` for a supported date.
pub open spec fn components_error(year: u64, month: u8, day: u8) -> Option<UTCDateError> {
    if !(MIN_YEAR <= year <= MAX_YEAR) {
        Some(UTCDateError::YearOutOfRange(year))
    } else if !(1 <= month <= 12) {
        Some(UTCDateError::MonthOutOfRange(month))
    } else if !(1 <= day <= month_len(year as int, month as int)) {
        Some(UTCDateError::DayOutOfRange(year, month, day))
    } else if !is_valid_date(year as int, month as int, day as int) {
        Some(UTCDateError::DateOutOfRange(year, month, day))
    } else {
        None
    }
}

impl UTCDate {
    /// The stored form of the date `(year, month, day)`.
    pub closed spec fn of_view(t: (int, int, int)) -> UTCDate {
        let ya = if t.1 <= 2 {
            t.0 - 1
        } else {
            t.0
        };
        UTCDate { era: (ya / 400) as u32, yoe: (ya % 400) as u16, month: t.1 as u8, day: t.2 as u8 }
    }

    /// `r`, known to be the stored form of its date.
    fn named(r: UTCDate) -> (s: UTCDate)
        ensures
            s == r,
            s == UTCDate::of_view(r@),
    {
        proof {
            use_type_invariant(&r);
            let ya = 400 * r.era + r.yoe;
            lemma_fundamental_div_mod_converse(ya, 400, r.era as int, r.yoe as int);
        }
        r
    }
}

impl From<UTCDay> for UTCDate {
    fn from(day: UTCDay) -> UTCDate {
        UTCDate::named(UTCDate::from_day(day))
    }
}

impl vstd::std_specs::convert::FromSpecImpl<UTCDay> for UTCDate {
    open spec fn obeys_from_spec() -> bool {
        true
    }

    open spec fn from_spec(v: UTCDay) -> UTCDate {
        UTCDate::of_view(date_of_day(v@))
    }
}

impl From<UTCTimestamp> for UTCDate {
    fn from(timestamp: UTCTimestamp) -> UTCDate {
        UTCDate::named(UTCDate::from_day(timestamp.as_day()))
    }
}

impl vstd::std_specs::convert::FromSpecImpl<UTCTimestamp> for UTCDate {
    open spec fn obeys_from_spec() -> bool {
        true
    }

    open spec fn from_spec(v: UTCTimestamp) -> UTCDate {
        UTCDate::of_view(date_of_day(v@ / (NANOS_PER_DAY as int)))
    }
}

impl From<Duration> for UTCDate {
    fn from(duration: Duration) -> UTCDate {
        UTCDate::named(UTCDate::from_day(UTCTimestamp::from_duration(duration).as_day()))
    }
}

impl vstd::std_specs::convert::FromSpecImpl<Duration> for UTCDate {
    open spec fn obeys_from_spec() -> bool {
        true
    }

    open spec fn from_spec(v: Duration) -> UTCDate {
        UTCDate::of_view(date_of_day(duration_nanos(v) / (NANOS_PER_DAY as int)))
    }
}

/// Days of month `month` (1 to 12) in `year`.
fn month_days(year: u64, month: u8) -> (r: u8)
    requires
        1 <= month <= 12,
    ensures
        r == month_len(year as int, month as int),
{
    match month {
        1 | 3 | 5 | 7 | 8 | 10 | 12 => 31,
        4 | 6 | 9 | 11 => 30,
        _ => {
            if year % 4 == 0 && (year % 100 != 0 || year % 400 == 0) {
                29
            } else {
                28
            }
        },
    }
}

impl Default for UTCDate {
    fn default() -> (r: Self)
        ensures
            r@ == (1970int, 1int, 1int),
    {
        UTCDate::min_value()
    }
}

/// Error type for UTCDate methods
#[derive(Debug)]
pub enum UTCDateError {
    /// A numeric field of an ISO date did not parse
    ParseErr(ParseIntError),
    /// The year is out of range
    YearOutOfRange(u64),
    /// The month is out of range
    MonthOutOfRange(u8),
    /// The day is out of range for its month: `(year, month, day)`
    DayOutOfRange(u64, u8, u8),
    /// The whole date lies beyond the maximum date: `(year, month, day)`
    DateOutOfRange(u64, u8, u8),
    /// The ISO date text or the buffer has the wrong length
    InvalidStrLen(usize),
    /// The ISO date text lacks a hyphen where one belongs; it holds the position
    InvalidSeparator(usize),
}

} // verus!
