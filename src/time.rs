//! Range-checked counts of time since the epoch: timestamps, whole days and
//! times of day.
use crate::constants::{
    MICROS_PER_DAY, MICROS_PER_SECOND, MILLIS_PER_DAY, MILLIS_PER_SECOND, NANOS_PER_DAY,
    NANOS_PER_HOUR, NANOS_PER_MICRO, NANOS_PER_MILLI, NANOS_PER_MINUTE, NANOS_PER_SECOND,
    SECONDS_PER_DAY,
};
use crate::iso::{
    ascii_string, ascii_text, copy_prefix, digits_in, invalid_digit_error, iso_hms_digits_ok,
    iso_precision, iso_tod_bytes, iso_tod_fields, iso_tod_len_spec, iso_tod_parse_error,
    iso_tod_separator_pos, iso_tod_separators_ok, iso_tod_text, lemma_digits_field, substr,
};
use crate::text::{
    lemma_padded_digits, lemma_pow10_add, parse_u32, parse_u8, pow10,
    pow10_u32,
};
use vstd::string::StringSliceAdditionalSpecFns;
use core::num::ParseIntError;
use core::time::Duration;
use std::time::{SystemTime, SystemTimeError};
use vstd::arithmetic::div_mod::{lemma_fundamental_div_mod, lemma_fundamental_div_mod_converse};
use vstd::prelude::*;

verus! {

/// The host clock's reading, as std reports it.
#[verifier::external_type_specification]
#[verifier::external_body]
pub struct ExSystemTime(SystemTime);

/// Error of std for a clock reading earlier than the epoch.
#[verifier::external_type_specification]
#[verifier::external_body]
pub struct ExSystemTimeError(SystemTimeError);

/// Whole seconds of a duration.
pub uninterp spec fn duration_secs(d: Duration) -> u64;

/// Nanoseconds of a duration beyond its whole seconds.
pub uninterp spec fn duration_subsec_nanos(d: Duration) -> u32;

/// Length of a duration in nanoseconds.
pub open spec fn duration_nanos(d: Duration) -> int {
    duration_secs(d) * NANOS_PER_SECOND + duration_subsec_nanos(d)
}

/// Relies on `Duration::as_secs`: the whole seconds of the duration.
#[verifier::external_body]
fn duration_as_secs(d: &Duration) -> (r: u64)
    ensures
        r == duration_secs(*d),
{
    d.as_secs()
}

/// Relies on `Duration::subsec_nanos`: the fraction of a second, in
/// nanoseconds, which is always below one billion.
#[verifier::external_body]
fn duration_subsec(d: &Duration) -> (r: u32)
    ensures
        r == duration_subsec_nanos(*d),
        r < NANOS_PER_SECOND,
{
    d.subsec_nanos()
}

/// Relies on `Duration::new`: with fewer nanoseconds than a second, the
/// duration keeps both parts as given.
#[verifier::external_body]
fn duration_new(secs: u64, nanos: u32) -> (r: Duration)
    requires
        nanos < NANOS_PER_SECOND,
    ensures
        duration_secs(r) == secs,
        duration_subsec_nanos(r) == nanos,
{
    Duration::new(secs, nanos)
}

/// Relies on `SystemTime::now`: the host clock's reading, of which nothing is known.
#[verifier::external_body]
fn system_now() -> SystemTime {
    SystemTime::now()
}

/// Relies on `SystemTime::duration_since` with the epoch: the time elapsed
/// since it, or an error where the clock reads earlier.
#[verifier::external_body]
fn elapsed_since_epoch(t: &SystemTime) -> Result<Duration, SystemTimeError> {
    t.duration_since(SystemTime::UNIX_EPOCH)
}

/// The largest timestamp, in nanoseconds since the epoch: `u64::MAX` seconds
/// and 999_999_999 nanoseconds.
pub open spec fn timestamp_max() -> int {
    u64::MAX * NANOS_PER_SECOND + (NANOS_PER_SECOND - 1)
}

/// The timestamp, in nanoseconds, of time of day `tod` on day `day`: the sum
/// where it fits, and else the last second of `u64` with the fraction of
/// `tod` (the seconds saturate).
pub open spec fn day_tod_nanos(day: int, tod: int) -> int {
    if day * NANOS_PER_DAY + tod <= timestamp_max() {
        day * NANOS_PER_DAY + tod
    } else {
        u64::MAX * NANOS_PER_SECOND + tod % (NANOS_PER_SECOND as int)
    }
}

/// The timestamp of a day and a time of day splits back into that day, and
/// into that time of day wherever the sum fits the largest timestamp (all
/// pairs but the late times of the last day, whose seconds saturate).
pub proof fn lemma_day_tod_round_trip(day: int, tod: int)
    requires
        0 <= day <= DAY_MAX,
        0 <= tod < NANOS_PER_DAY,
    ensures
        day_tod_nanos(day, tod) / (NANOS_PER_DAY as int) == day,
        day * NANOS_PER_DAY + tod <= timestamp_max() ==> day_tod_nanos(day, tod) % (
        NANOS_PER_DAY as int) == tod,
{
    let npd = NANOS_PER_DAY as int;
    assert(npd == 86_400_000_000_000);
    if day * npd + tod <= timestamp_max() {
        lemma_fundamental_div_mod_converse(day * npd + tod, npd, day, tod);
    } else {
        assert(day == DAY_MAX) by (nonlinear_arith)
            requires
                day * npd + tod > timestamp_max(),
                timestamp_max() == 18_446_744_073_709_551_615_999_999_999,
                npd == 86_400_000_000_000,
                0 <= day <= 213_503_982_334_601,
                0 <= tod < npd,
        ;
        let sub = tod % (NANOS_PER_SECOND as int);
        let x = u64::MAX * NANOS_PER_SECOND + sub;
        lemma_fundamental_div_mod_converse(x, npd, day, x - day * npd);
    }
}

/// Whole days and time of day of `secs` seconds and `nanos` nanoseconds.
proof fn lemma_split_secs(secs: int, nanos: int)
    requires
        0 <= secs,
        0 <= nanos < NANOS_PER_SECOND,
    ensures
        (secs * NANOS_PER_SECOND + nanos) / (NANOS_PER_DAY as int) == secs / 86400,
        (secs * NANOS_PER_SECOND + nanos) % (NANOS_PER_DAY as int) == (secs % 86400)
            * NANOS_PER_SECOND + nanos,
        (secs % 86400) * NANOS_PER_SECOND + nanos < NANOS_PER_DAY,
{
    lemma_fundamental_div_mod(secs, 86400);
    let q = secs / 86400;
    let r = secs % 86400;
    assert(secs * NANOS_PER_SECOND + nanos == q * NANOS_PER_DAY + (r * NANOS_PER_SECOND + nanos)
        && r * NANOS_PER_SECOND + nanos < NANOS_PER_DAY) by (nonlinear_arith)
        requires
            secs == 86400 * q + r,
            0 <= r < 86400,
            0 <= nanos < 1_000_000_000,
            NANOS_PER_SECOND == 1_000_000_000,
            NANOS_PER_DAY == 86_400_000_000_000,
    ;
    lemma_fundamental_div_mod_converse(
        secs * NANOS_PER_SECOND + nanos,
        NANOS_PER_DAY as int,
        q,
        r * NANOS_PER_SECOND + nanos,
    );
}

/// UTC Timestamp: a duration since the Unix epoch, as whole seconds and the
/// nanoseconds of the second under way.
#[derive(Debug, Clone, Copy, PartialEq, Eq, Structural, PartialOrd, Ord, Hash)]
pub struct UTCTimestamp {
    secs: u64,
    nanos: u32,
}

impl View for UTCTimestamp {
    /// Nanoseconds since the epoch
    type V = int;

    closed spec fn view(&self) -> int {
        self.secs * NANOS_PER_SECOND + self.nanos
    }
}

impl UTCTimestamp {
    #[verifier::type_invariant]
    spec fn inv(self) -> bool {
        self.nanos < NANOS_PER_SECOND
    }

    /// The timestamp made of `nanos` nanoseconds, for `nanos` within range.
    fn from_total(nanos: u128) -> (r: Self)
        requires
            nanos <= timestamp_max(),
        ensures
            r@ == nanos,
    {
        proof {
            lemma_fundamental_div_mod(nanos as int, NANOS_PER_SECOND as int);
        }
        let secs = (nanos / (NANOS_PER_SECOND as u128)) as u64;
        let sub = (nanos % (NANOS_PER_SECOND as u128)) as u32;
        Self { secs, nanos: sub }
    }

    /// The timestamp in nanoseconds, as an integer.
    fn total(&self) -> (r: u128)
        ensures
            r == self@,
            r <= timestamp_max(),
    {
        proof {
            use_type_invariant(self);
            assert(self.secs * NANOS_PER_SECOND <= u64::MAX * NANOS_PER_SECOND) by (nonlinear_arith)
                requires
                    self.secs <= u64::MAX,
            ;
        }
        self.secs as u128 * NANOS_PER_SECOND as u128 + self.nanos as u128
    }

    /// The 'zero' UTC Timestamp: the instant of the epoch.
    pub fn zero() -> (r: Self)
        ensures
            r@ == 0,
    {
        Self { secs: 0, nanos: 0 }
    }

    /// The maximum UTC Timestamp: the longest duration, which falls on
    /// November 9, 584_554_051_223.
    pub fn max_value() -> (r: Self)
        ensures
            r@ == timestamp_max(),
    {
        Self { secs: u64::MAX, nanos: 999_999_999 }
    }

    /// Create a UTC Timestamp at the start of a UTC day.
    pub fn from_day(day: UTCDay) -> (r: Self)
        ensures
            r@ == day@ * NANOS_PER_DAY,
    {
        let secs = day.as_u64() * SECONDS_PER_DAY;
        proof {
            let d = day@;
            assert(secs * NANOS_PER_SECOND == d * NANOS_PER_DAY) by (nonlinear_arith)
                requires
                    secs == d * 86400,
                    NANOS_PER_SECOND == 1_000_000_000,
                    NANOS_PER_DAY == 86_400_000_000_000,
            ;
        }
        Self { secs, nanos: 0 }
    }

    /// Create a UTC Timestamp from a UTC day and a time of day on it.
    ///
    /// The seconds saturate at `u64::MAX`, which only the last day can reach.
    pub fn from_day_and_tod(day: UTCDay, tod: UTCTimeOfDay) -> (r: Self)
        ensures
            r@ == day_tod_nanos(day@, tod@),
    {
        let tod_ns = tod.as_nanos();
        let day_secs = day.as_u64() * SECONDS_PER_DAY;
        let tod_secs = tod_ns / NANOS_PER_SECOND;
        let secs = day_secs.saturating_add(tod_secs);
        let nanos = (tod_ns % NANOS_PER_SECOND) as u32;
        proof {
            let d = day@;
            let t = tod_ns as int;
            lemma_fundamental_div_mod(t, NANOS_PER_SECOND as int);
            assert(d * NANOS_PER_DAY + t == (day_secs + tod_secs) * NANOS_PER_SECOND + nanos)
                by (nonlinear_arith)
                requires
                    day_secs == d * 86400,
                    t == 1_000_000_000 * tod_secs + nanos,
                    NANOS_PER_SECOND == 1_000_000_000,
                    NANOS_PER_DAY == 86_400_000_000_000,
            ;
            assert(d * NANOS_PER_DAY + t <= timestamp_max() <==> day_secs + tod_secs <= u64::MAX)
                by (nonlinear_arith)
                requires
                    d * NANOS_PER_DAY + t == (day_secs + tod_secs) * 1_000_000_000 + nanos,
                    0 <= nanos < 1_000_000_000,
                    timestamp_max() == u64::MAX * 1_000_000_000 + 999_999_999,
            ;
        }
        Self { secs, nanos }
    }

    /// Try to create a UTC Timestamp from the host clock.
    ///
    /// Fails where the clock reads a time before the epoch.
    pub fn try_from_system_time() -> (r: Result<Self, SystemTimeError>) {
        let now = system_now();
        match elapsed_since_epoch(&now) {
            Ok(d) => Ok(Self::from_duration(d)),
            Err(e) => Err(e),
        }
    }

    /// Create a UTC Timestamp from a duration since the epoch.
    pub fn from_duration(d: Duration) -> (r: Self)
        ensures
            r@ == duration_nanos(d),
    {
        let secs = duration_as_secs(&d);
        let nanos = duration_subsec(&d);
        Self { secs, nanos }
    }

    /// The UTC Timestamp as a duration since the epoch.
    pub fn as_duration(&self) -> (r: Duration)
        ensures
            duration_nanos(r) == self@,
            duration_secs(r) == self@ / (NANOS_PER_SECOND as int),
            duration_subsec_nanos(r) == self@ % (NANOS_PER_SECOND as int),
    {
        proof {
            use_type_invariant(self);
        }
        duration_new(self.secs, self.nanos)
    }

    /// Consume the UTC Timestamp into a duration since the epoch.
    pub fn to_duration(self) -> (r: Duration)
        ensures
            duration_nanos(r) == self@,
            duration_secs(r) == self@ / (NANOS_PER_SECOND as int),
            duration_subsec_nanos(r) == self@ % (NANOS_PER_SECOND as int),
    {
        self.as_duration()
    }

    /// The time of day of the timestamp.
    pub fn as_tod(&self) -> (r: UTCTimeOfDay)
        ensures
            r@ == self@ % (NANOS_PER_DAY as int),
    {
        proof {
            use_type_invariant(self);
        }
        proof {
            lemma_split_secs(self.secs as int, self.nanos as int);
        }
        let ns = ((self.secs % SECONDS_PER_DAY) * NANOS_PER_SECOND) + (self.nanos as u64);
        UTCTimeOfDay::from_nanos_unchecked(ns)
    }

    /// The number of whole days since the epoch.
    pub fn as_day(&self) -> (r: UTCDay)
        ensures
            r@ == self@ / (NANOS_PER_DAY as int),
    {
        proof {
            use_type_invariant(self);
        }
        proof {
            lemma_split_secs(self.secs as int, self.nanos as int);
        }
        UTCDay::from_u64_unchecked(self.secs / SECONDS_PER_DAY)
    }

    /// Create a UTC Timestamp from seconds since the epoch.
    pub fn from_secs(secs: u64) -> (r: Self)
        ensures
            r@ == secs * NANOS_PER_SECOND,
    {
        Self { secs, nanos: 0 }
    }

    /// Whole seconds since the epoch.
    pub fn as_secs(&self) -> (r: u64)
        ensures
            r == self@ / (NANOS_PER_SECOND as int),
    {
        proof {
            use_type_invariant(self);
            lemma_fundamental_div_mod_converse(
                self@,
                NANOS_PER_SECOND as int,
                self.secs as int,
                self.nanos as int,
            );
        }
        self.secs
    }

    /// Create a UTC Timestamp from milliseconds since the epoch.
    pub fn from_millis(millis: u64) -> (r: Self)
        ensures
            r@ == millis * NANOS_PER_MILLI,
    {
        Self {
            secs: millis / MILLIS_PER_SECOND,
            nanos: ((millis % MILLIS_PER_SECOND) * NANOS_PER_MILLI) as u32,
        }
    }

    /// Whole milliseconds since the epoch.
    pub fn as_millis(&self) -> (r: u128)
        ensures
            r == self@ / (NANOS_PER_MILLI as int),
    {
        self.total() / NANOS_PER_MILLI as u128
    }

    /// Create a UTC Timestamp from microseconds since the epoch.
    pub fn from_micros(micros: u64) -> (r: Self)
        ensures
            r@ == micros * NANOS_PER_MICRO,
    {
        Self {
            secs: micros / MICROS_PER_SECOND,
            nanos: ((micros % MICROS_PER_SECOND) * NANOS_PER_MICRO) as u32,
        }
    }

    /// Whole microseconds since the epoch.
    pub fn as_micros(&self) -> (r: u128)
        ensures
            r == self@ / (NANOS_PER_MICRO as int),
    {
        self.total() / NANOS_PER_MICRO as u128
    }

    /// Create a UTC Timestamp from nanoseconds since the epoch.
    pub fn from_nanos(nanos: u64) -> (r: Self)
        ensures
            r@ == nanos,
    {
        Self::from_total(nanos as u128)
    }

    /// Nanoseconds since the epoch.
    pub fn as_nanos(&self) -> (r: u128)
        ensures
            r == self@,
            r <= timestamp_max(),
    {
        self.total()
    }

    /// Checked addition: `None` where the sum exceeds the maximum timestamp.
    pub fn checked_add(self, rhs: UTCTimestamp) -> (r: Option<UTCTimestamp>)
        ensures
            r is Some <==> self@ + rhs@ <= timestamp_max(),
            r matches Some(t) ==> t@ == self@ + rhs@,
    {
        let a = self.total();
        let b = rhs.total();
        if b > TIMESTAMP_MAX_NANOS - a {
            None
        } else {
            Some(Self::from_total(a + b))
        }
    }

    /// Checked addition of a duration: `None` where the sum exceeds the maximum timestamp.
    pub fn checked_add_duration(self, rhs: Duration) -> (r: Option<UTCTimestamp>)
        ensures
            r is Some <==> self@ + duration_nanos(rhs) <= timestamp_max(),
            r matches Some(t) ==> t@ == self@ + duration_nanos(rhs),
    {
        self.checked_add(Self::from_duration(rhs))
    }

    /// Saturating addition: the maximum timestamp where the sum exceeds it.
    pub fn saturating_add(self, rhs: UTCTimestamp) -> (r: UTCTimestamp)
        ensures
            r@ == if self@ + rhs@ <= timestamp_max() { self@ + rhs@ } else { timestamp_max() },
    {
        match self.checked_add(rhs) {
            Some(res) => res,
            None => UTCTimestamp::max_value(),
        }
    }

    /// Saturating addition of a duration: the maximum timestamp where the sum exceeds it.
    pub fn saturating_add_duration(self, rhs: Duration) -> (r: UTCTimestamp)
        ensures
            r@ == if self@ + duration_nanos(rhs) <= timestamp_max() {
                self@ + duration_nanos(rhs)
            } else {
                timestamp_max()
            },
    {
        self.saturating_add(Self::from_duration(rhs))
    }

    /// Saturating addition of nanoseconds.
    pub fn saturating_add_nanos(self, rhs: u64) -> (r: UTCTimestamp)
        ensures
            r@ == if self@ + rhs <= timestamp_max() { self@ + rhs } else { timestamp_max() },
    {
        self.saturating_add(UTCTimestamp::from_nanos(rhs))
    }

    /// Saturating addition of microseconds.
    pub fn saturating_add_micros(self, rhs: u64) -> (r: UTCTimestamp)
        ensures
            r@ == if self@ + rhs * NANOS_PER_MICRO <= timestamp_max() {
                self@ + rhs * NANOS_PER_MICRO
            } else {
                timestamp_max()
            },
    {
        self.saturating_add(UTCTimestamp::from_micros(rhs))
    }

    /// Saturating addition of milliseconds.
    pub fn saturating_add_millis(self, rhs: u64) -> (r: UTCTimestamp)
        ensures
            r@ == if self@ + rhs * NANOS_PER_MILLI <= timestamp_max() {
                self@ + rhs * NANOS_PER_MILLI
            } else {
                timestamp_max()
            },
    {
        self.saturating_add(UTCTimestamp::from_millis(rhs))
    }

    /// Saturating addition of seconds.
    pub fn saturating_add_secs(self, rhs: u64) -> (r: UTCTimestamp)
        ensures
            r@ == if self@ + rhs * NANOS_PER_SECOND <= timestamp_max() {
                self@ + rhs * NANOS_PER_SECOND
            } else {
                timestamp_max()
            },
    {
        self.saturating_add(UTCTimestamp::from_secs(rhs))
    }

    /// Checked subtraction: `None` where the result would be negative.
    pub fn checked_sub(self, rhs: UTCTimestamp) -> (r: Option<UTCTimestamp>)
        ensures
            r is Some <==> self@ >= rhs@,
            r matches Some(t) ==> t@ == self@ - rhs@,
    {
        let a = self.total();
        let b = rhs.total();
        if b > a {
            None
        } else {
            Some(Self::from_total(a - b))
        }
    }

    /// Checked subtraction of a duration: `None` where the result would be negative.
    pub fn checked_sub_duration(self, rhs: Duration) -> (r: Option<UTCTimestamp>)
        ensures
            r is Some <==> self@ >= duration_nanos(rhs),
            r matches Some(t) ==> t@ == self@ - duration_nanos(rhs),
    {
        self.checked_sub(Self::from_duration(rhs))
    }

    /// Saturating subtraction: the zero timestamp where the result would be negative.
    pub fn saturating_sub(self, rhs: UTCTimestamp) -> (r: UTCTimestamp)
        ensures
            r@ == if self@ >= rhs@ { self@ - rhs@ } else { 0 },
    {
        match self.checked_sub(rhs) {
            Some(res) => res,
            None => UTCTimestamp::zero(),
        }
    }

    /// Saturating subtraction of a duration: the zero timestamp where the result would be negative.
    pub fn saturating_sub_duration(self, rhs: Duration) -> (r: UTCTimestamp)
        ensures
            r@ == if self@ >= duration_nanos(rhs) { self@ - duration_nanos(rhs) } else { 0 },
    {
        self.saturating_sub(Self::from_duration(rhs))
    }

    /// Saturating subtraction of nanoseconds.
    pub fn saturating_sub_nanos(self, rhs: u64) -> (r: UTCTimestamp)
        ensures
            r@ == if self@ >= rhs { self@ - rhs } else { 0 },
    {
        self.saturating_sub(UTCTimestamp::from_nanos(rhs))
    }

    /// Saturating subtraction of microseconds.
    pub fn saturating_sub_micros(self, rhs: u64) -> (r: UTCTimestamp)
        ensures
            r@ == if self@ >= rhs * NANOS_PER_MICRO { self@ - rhs * NANOS_PER_MICRO } else { 0 },
    {
        self.saturating_sub(UTCTimestamp::from_micros(rhs))
    }

    /// Saturating subtraction of milliseconds.
    pub fn saturating_sub_millis(self, rhs: u64) -> (r: UTCTimestamp)
        ensures
            r@ == if self@ >= rhs * NANOS_PER_MILLI { self@ - rhs * NANOS_PER_MILLI } else { 0 },
    {
        self.saturating_sub(UTCTimestamp::from_millis(rhs))
    }

    /// Saturating subtraction of seconds.
    pub fn saturating_sub_secs(self, rhs: u64) -> (r: UTCTimestamp)
        ensures
            r@ == if self@ >= rhs * NANOS_PER_SECOND { self@ - rhs * NANOS_PER_SECOND } else { 0 },
    {
        self.saturating_sub(UTCTimestamp::from_secs(rhs))
    }

    /// Checked multiplication: `None` where the product exceeds the maximum timestamp.
    pub fn checked_mul(self, rhs: u32) -> (r: Option<UTCTimestamp>)
        ensures
            r is Some <==> self@ * rhs <= timestamp_max(),
            r matches Some(t) ==> t@ == self@ * rhs,
    {
        let a = self.total();
        if rhs == 0 {
            return Some(UTCTimestamp::zero());
        }
        if a > TIMESTAMP_MAX_NANOS / rhs as u128 {
            proof {
                assert(a * rhs > timestamp_max()) by (nonlinear_arith)
                    requires
                        a > TIMESTAMP_MAX_NANOS / rhs as u128,
                        rhs > 0,
                        TIMESTAMP_MAX_NANOS == timestamp_max(),
                ;
            }
            None
        } else {
            proof {
                assert(a * rhs <= timestamp_max()) by (nonlinear_arith)
                    requires
                        a <= TIMESTAMP_MAX_NANOS / rhs as u128,
                        rhs > 0,
                        TIMESTAMP_MAX_NANOS == timestamp_max(),
                ;
            }
            Some(Self::from_total(a * rhs as u128))
        }
    }

    /// Saturating multiplication: the maximum timestamp where the product exceeds it.
    pub fn saturating_mul(self, rhs: u32) -> (r: UTCTimestamp)
        ensures
            r@ == if self@ * rhs <= timestamp_max() { self@ * rhs } else { timestamp_max() },
    {
        match self.checked_mul(rhs) {
            Some(res) => res,
            None => UTCTimestamp::max_value(),
        }
    }

    /// Checked division, rounding down: `None` where `rhs` is zero.
    pub fn checked_div(self, rhs: u32) -> (r: Option<UTCTimestamp>)
        ensures
            r is Some <==> rhs != 0,
            r matches Some(t) ==> t@ == self@ / (rhs as int),
    {
        let a = self.total();
        if rhs == 0 {
            None
        } else {
            proof {
                assert(a / rhs as u128 <= a) by (nonlinear_arith)
                    requires
                        rhs > 0,
                ;
            }
            Some(Self::from_total(a / rhs as u128))
        }
    }
}

impl Default for UTCTimestamp {
    fn default() -> (r: Self)
        ensures
            r@ == 0,
    {
        UTCTimestamp::zero()
    }
}

/// `timestamp_max()` as a machine integer.
const TIMESTAMP_MAX_NANOS: u128 = 18_446_744_073_709_551_615_999_999_999;

/// Largest whole-day count whose last instant a timestamp still holds.
pub const DAY_MAX: u64 = 213_503_982_334_601;

/// UTC Day count: the number of whole days since the Unix epoch.
#[derive(Debug, Clone, Copy, PartialEq, Eq, Structural, PartialOrd, Ord, Hash)]
pub struct UTCDay(u64);

impl View for UTCDay {
    type V = int;

    closed spec fn view(&self) -> int {
        self.0 as int
    }
}

impl UTCDay {
    #[verifier::type_invariant]
    spec fn inv(self) -> bool {
        self.0 <= DAY_MAX
    }

    /// The zero UTC day value: the epoch day.
    pub fn zero() -> (r: Self)
        ensures
            r@ == 0,
    {
        Self(0)
    }

    /// The maximum UTC day value.
    ///
    /// Maximum day support is limited by the maximum `UTCTimestamp`.
    pub fn max_value() -> (r: Self)
        ensures
            r@ == DAY_MAX,
    {
        Self(DAY_MAX)
    }

    /// Create a UTC Day from an integer the caller already knows to be in range.
    pub fn from_u64_unchecked(u: u64) -> (r: Self)
        requires
            u <= DAY_MAX,
        ensures
            r@ == u,
    {
        Self(u)
    }

    /// Try to create a UTC Day from an integer.
    pub fn try_from_u64(u: u64) -> (r: Result<Self, UTCDayErrOutOfRange>)
        ensures
            r is Ok <==> u <= DAY_MAX,
            r matches Ok(d) ==> d@ == u,
            r matches Err(e) ==> e.0 == u,
    {
        if u > DAY_MAX {
            return Err(UTCDayErrOutOfRange(u));
        }
        Ok(Self(u))
    }

    /// UTC Day as its integer count.
    pub fn as_u64(&self) -> (r: u64)
        ensures
            r == self@,
            r <= DAY_MAX,
    {
        proof {
            use_type_invariant(self);
        }
        self.0
    }

    /// Consume the UTC Day into its integer count.
    pub fn to_u64(self) -> (r: u64)
        ensures
            r == self@,
            r <= DAY_MAX,
    {
        proof {
            use_type_invariant(&self);
        }
        self.0
    }

    /// The day of the week, where `[0, 6]` stands for `[Sun, Sat]`.
    pub fn as_weekday(&self) -> (r: u8)
        ensures
            r == (self@ + 4) % 7,
    {
        proof {
            use_type_invariant(self);
        }
        ((self.0 + 4) % 7) as u8
    }

    /// Checked addition: `None` where the sum exceeds `UTCDay::max_value()`.
    pub fn checked_add(self, rhs: UTCDay) -> (r: Option<UTCDay>)
        ensures
            r is Some <==> self@ + rhs@ <= DAY_MAX,
            r matches Some(d) ==> d@ == self@ + rhs@,
    {
        proof {
            use_type_invariant(&rhs);
        }
        self.checked_add_u64(rhs.0)
    }

    /// Checked addition of a day count: `None` where the sum exceeds `UTCDay::max_value()`.
    pub fn checked_add_u64(self, rhs: u64) -> (r: Option<UTCDay>)
        ensures
            r is Some <==> self@ + rhs <= DAY_MAX,
            r matches Some(d) ==> d@ == self@ + rhs,
    {
        proof {
            use_type_invariant(&self);
        }
        if rhs > DAY_MAX - self.0 {
            None
        } else {
            Some(UTCDay(self.0 + rhs))
        }
    }

    /// Saturating addition: `UTCDay::max_value()` where the sum exceeds it.
    pub fn saturating_add(self, rhs: UTCDay) -> (r: UTCDay)
        ensures
            r@ == if self@ + rhs@ <= DAY_MAX { self@ + rhs@ } else { DAY_MAX as int },
    {
        match self.checked_add(rhs) {
            Some(res) => res,
            None => UTCDay::max_value(),
        }
    }

    /// Saturating addition of a day count: `UTCDay::max_value()` where the sum exceeds it.
    pub fn saturating_add_u64(self, rhs: u64) -> (r: UTCDay)
        ensures
            r@ == if self@ + rhs <= DAY_MAX { self@ + rhs } else { DAY_MAX as int },
    {
        match self.checked_add_u64(rhs) {
            Some(res) => res,
            None => UTCDay::max_value(),
        }
    }

    /// Checked subtraction: `None` where the result would be negative.
    pub fn checked_sub(self, rhs: UTCDay) -> (r: Option<UTCDay>)
        ensures
            r is Some <==> self@ >= rhs@,
            r matches Some(d) ==> d@ == self@ - rhs@,
    {
        proof {
            use_type_invariant(&rhs);
        }
        self.checked_sub_u64(rhs.0)
    }

    /// Checked subtraction of a day count: `None` where the result would be negative.
    pub fn checked_sub_u64(self, rhs: u64) -> (r: Option<UTCDay>)
        ensures
            r is Some <==> self@ >= rhs,
            r matches Some(d) ==> d@ == self@ - rhs,
    {
        proof {
            use_type_invariant(&self);
        }
        if rhs > self.0 {
            None
        } else {
            Some(UTCDay(self.0 - rhs))
        }
    }

    /// Saturating subtraction: `UTCDay::zero()` where the result would be negative.
    pub fn saturating_sub(self, rhs: UTCDay) -> (r: UTCDay)
        ensures
            r@ == if self@ >= rhs@ { self@ - rhs@ } else { 0 },
    {
        match self.checked_sub(rhs) {
            Some(res) => res,
            None => UTCDay::zero(),
        }
    }

    /// Saturating subtraction of a day count: `UTCDay::zero()` where the result would be negative.
    pub fn saturating_sub_u64(self, rhs: u64) -> (r: UTCDay)
        ensures
            r@ == if self@ >= rhs { self@ - rhs } else { 0 },
    {
        match self.checked_sub_u64(rhs) {
            Some(res) => res,
            None => UTCDay::zero(),
        }
    }

    /// Checked multiplication: `None` where the product exceeds `UTCDay::max_value()`.
    pub fn checked_mul(self, rhs: u64) -> (r: Option<UTCDay>)
        ensures
            r is Some <==> self@ * rhs <= DAY_MAX,
            r matches Some(d) ==> d@ == self@ * rhs,
    {
        proof {
            use_type_invariant(&self);
        }
        match self.0.checked_mul(rhs) {
            Some(u) => {
                if u > DAY_MAX {
                    None
                } else {
                    Some(UTCDay(u))
                }
            },
            None => None,
        }
    }

    /// Saturating multiplication: `UTCDay::max_value()` where the product exceeds it.
    pub fn saturating_mul(self, rhs: u64) -> (r: UTCDay)
        ensures
            r@ == if self@ * rhs <= DAY_MAX { self@ * rhs } else { DAY_MAX as int },
    {
        match self.checked_mul(rhs) {
            Some(res) => res,
            None => UTCDay::max_value(),
        }
    }

    /// Checked division: `None` where `rhs` is zero.
    pub fn checked_div(self, rhs: u64) -> (r: Option<UTCDay>)
        ensures
            r is Some <==> rhs != 0,
            r matches Some(d) ==> d@ == self@ / (rhs as int),
    {
        proof {
            use_type_invariant(&self);
        }
        if rhs == 0 {
            None
        } else {
            Some(UTCDay(self.0 / rhs))
        }
    }
}

impl Default for UTCDay {
    fn default() -> (r: Self)
        ensures
            r@ == 0,
    {
        UTCDay::zero()
    }
}

/// `n` rounded down to a multiple of `g`.
pub open spec fn floor_to(n: int, g: int) -> int {
    n - n % g
}

/// Common conversions of UTC values to and from instants since the epoch.
///
/// A value stands for one instant; converting an instant to a value rounds it
/// down to the value's granularity (whole days for a day count or a date).
pub trait UTCTransformations: Sized {
    /// The instant this value stands for, in nanoseconds since the epoch.
    spec fn instant(&self) -> int;

    /// The step between the instants values of this type stand for, in nanoseconds.
    spec fn granularity() -> int;

    /// Create from a UTC timestamp.
    fn from_timestamp(timestamp: UTCTimestamp) -> (r: Self)
        ensures
            r.instant() == floor_to(timestamp@, Self::granularity()),
    ;

    /// Convert to a UTC timestamp.
    fn as_timestamp(&self) -> (r: UTCTimestamp)
        ensures
            r@ == self.instant(),
    ;

    /// Create from a duration measured from the epoch.
    fn from_duration(duration: Duration) -> (r: Self)
        ensures
            r.instant() == floor_to(duration_nanos(duration), Self::granularity()),
    {
        Self::from_timestamp(UTCTimestamp::from_duration(duration))
    }

    /// Convert to a duration measured from the epoch.
    fn as_duration(&self) -> (r: Duration)
        ensures
            duration_nanos(r) == self.instant(),
    {
        self.as_timestamp().as_duration()
    }

    /// Create from seconds measured from the epoch.
    fn from_secs(secs: u64) -> (r: Self)
        ensures
            r.instant() == floor_to(secs * NANOS_PER_SECOND, Self::granularity()),
    {
        Self::from_timestamp(UTCTimestamp::from_secs(secs))
    }

    /// Convert to whole seconds measured from the epoch.
    fn as_secs(&self) -> (r: u64)
        ensures
            r == self.instant() / (NANOS_PER_SECOND as int),
    {
        self.as_timestamp().as_secs()
    }

    /// Create from milliseconds measured from the epoch.
    fn from_millis(millis: u64) -> (r: Self)
        ensures
            r.instant() == floor_to(millis * NANOS_PER_MILLI, Self::granularity()),
    {
        Self::from_timestamp(UTCTimestamp::from_millis(millis))
    }

    /// Convert to whole milliseconds measured from the epoch.
    fn as_millis(&self) -> (r: u128)
        ensures
            r == self.instant() / (NANOS_PER_MILLI as int),
    {
        self.as_timestamp().as_millis()
    }

    /// Create from microseconds measured from the epoch.
    fn from_micros(micros: u64) -> (r: Self)
        ensures
            r.instant() == floor_to(micros * NANOS_PER_MICRO, Self::granularity()),
    {
        Self::from_timestamp(UTCTimestamp::from_micros(micros))
    }

    /// Convert to whole microseconds measured from the epoch.
    fn as_micros(&self) -> (r: u128)
        ensures
            r == self.instant() / (NANOS_PER_MICRO as int),
    {
        self.as_timestamp().as_micros()
    }

    /// Create from nanoseconds measured from the epoch.
    fn from_nanos(nanos: u64) -> (r: Self)
        ensures
            r.instant() == floor_to(nanos as int, Self::granularity()),
    {
        Self::from_timestamp(UTCTimestamp::from_nanos(nanos))
    }

    /// Convert to nanoseconds measured from the epoch.
    fn as_nanos(&self) -> (r: u128)
        ensures
            r == self.instant(),
    {
        self.as_timestamp().as_nanos()
    }

    /// Create from the host clock.
    ///
    /// Fails where the clock reads a time before the epoch.
    fn try_from_system_time() -> (r: Result<Self, SystemTimeError>)
        ensures
            r matches Ok(v) ==> exists|n: int|
                0 <= n <= timestamp_max() && #[trigger] v.instant() == floor_to(
                    n,
                    Self::granularity(),
                ),
    {
        match UTCTimestamp::try_from_system_time() {
            Ok(timestamp) => {
                let v = Self::from_timestamp(timestamp);
                proof {
                    use_type_invariant(&timestamp);
                    assert(0 <= timestamp@ <= timestamp_max()) by (nonlinear_arith)
                        requires
                            timestamp@ == timestamp.secs * NANOS_PER_SECOND + timestamp.nanos,
                            timestamp.secs <= u64::MAX,
                            timestamp.nanos < NANOS_PER_SECOND,
                    ;
                }
                Ok(v)
            },
            Err(e) => Err(e),
        }
    }
}

impl UTCTransformations for UTCDay {
    open spec fn instant(&self) -> int {
        self@ * NANOS_PER_DAY
    }

    open spec fn granularity() -> int {
        NANOS_PER_DAY as int
    }

    fn from_timestamp(timestamp: UTCTimestamp) -> (r: Self) {
        let r = timestamp.as_day();
        proof {
            let t = timestamp@;
            let npd = NANOS_PER_DAY as int;
            lemma_fundamental_div_mod(t, npd);
            assert(r@ * NANOS_PER_DAY == t - t % npd) by (nonlinear_arith)
                requires
                    r@ == t / npd,
                    t == npd * (t / npd) + t % npd,
                    npd == NANOS_PER_DAY,
            ;
        }
        r
    }

    fn as_timestamp(&self) -> (r: UTCTimestamp) {
        UTCTimestamp::from_day(*self)
    }
}

impl UTCDay {
    /// The day value holding the count `n`.
    pub closed spec fn of_count(n: int) -> UTCDay {
        UTCDay(n as u64)
    }
}

impl core::ops::Add for UTCDay {
    type Output = UTCDay;

    /// Addition; the caller keeps the sum within `UTCDay::max_value()`.
    fn add(self, rhs: UTCDay) -> UTCDay {
        self.checked_add(rhs).unwrap()
    }
}

impl vstd::std_specs::ops::AddSpecImpl for UTCDay {
    open spec fn obeys_add_spec() -> bool {
        true
    }

    open spec fn add_req(self, rhs: UTCDay) -> bool {
        self@ + rhs@ <= DAY_MAX
    }

    open spec fn add_spec(self, rhs: UTCDay) -> UTCDay {
        UTCDay::of_count(self@ + rhs@)
    }
}

impl core::ops::Add<u64> for UTCDay {
    type Output = UTCDay;

    /// Addition of a day count; the caller keeps the sum within `UTCDay::max_value()`.
    fn add(self, rhs: u64) -> UTCDay {
        self.checked_add_u64(rhs).unwrap()
    }
}

impl vstd::std_specs::ops::AddSpecImpl<u64> for UTCDay {
    open spec fn obeys_add_spec() -> bool {
        true
    }

    open spec fn add_req(self, rhs: u64) -> bool {
        self@ + rhs <= DAY_MAX
    }

    open spec fn add_spec(self, rhs: u64) -> UTCDay {
        UTCDay::of_count(self@ + rhs)
    }
}

impl core::ops::Sub for UTCDay {
    type Output = UTCDay;

    /// Subtraction; the caller keeps the result from going below zero.
    fn sub(self, rhs: UTCDay) -> UTCDay {
        self.checked_sub(rhs).unwrap()
    }
}

impl vstd::std_specs::ops::SubSpecImpl for UTCDay {
    open spec fn obeys_sub_spec() -> bool {
        true
    }

    open spec fn sub_req(self, rhs: UTCDay) -> bool {
        self@ >= rhs@
    }

    open spec fn sub_spec(self, rhs: UTCDay) -> UTCDay {
        UTCDay::of_count(self@ - rhs@)
    }
}

impl core::ops::Sub<u64> for UTCDay {
    type Output = UTCDay;

    /// Subtraction of a day count; the caller keeps the result from going below zero.
    fn sub(self, rhs: u64) -> UTCDay {
        self.checked_sub_u64(rhs).unwrap()
    }
}

impl vstd::std_specs::ops::SubSpecImpl<u64> for UTCDay {
    open spec fn obeys_sub_spec() -> bool {
        true
    }

    open spec fn sub_req(self, rhs: u64) -> bool {
        self@ >= rhs
    }

    open spec fn sub_spec(self, rhs: u64) -> UTCDay {
        UTCDay::of_count(self@ - rhs)
    }
}

impl core::ops::Mul<u64> for UTCDay {
    type Output = UTCDay;

    /// Multiplication; the caller keeps the product within `UTCDay::max_value()`.
    fn mul(self, rhs: u64) -> UTCDay {
        self.checked_mul(rhs).unwrap()
    }
}

impl vstd::std_specs::ops::MulSpecImpl<u64> for UTCDay {
    open spec fn obeys_mul_spec() -> bool {
        true
    }

    open spec fn mul_req(self, rhs: u64) -> bool {
        self@ * rhs <= DAY_MAX
    }

    open spec fn mul_spec(self, rhs: u64) -> UTCDay {
        UTCDay::of_count(self@ * rhs)
    }
}

impl core::ops::Mul<UTCDay> for u64 {
    type Output = UTCDay;

    /// Multiplication; the caller keeps the product within `UTCDay::max_value()`.
    fn mul(self, rhs: UTCDay) -> UTCDay {
        rhs.checked_mul(self).unwrap()
    }
}

impl vstd::std_specs::ops::MulSpecImpl<UTCDay> for u64 {
    open spec fn obeys_mul_spec() -> bool {
        true
    }

    open spec fn mul_req(self, rhs: UTCDay) -> bool {
        rhs@ * self <= DAY_MAX
    }

    open spec fn mul_spec(self, rhs: UTCDay) -> UTCDay {
        UTCDay::of_count(rhs@ * self)
    }
}

impl core::ops::Div<u64> for UTCDay {
    type Output = UTCDay;

    /// Division, rounding down; the caller keeps `rhs` nonzero.
    fn div(self, rhs: u64) -> UTCDay {
        self.checked_div(rhs).unwrap()
    }
}

impl vstd::std_specs::ops::DivSpecImpl<u64> for UTCDay {
    open spec fn obeys_div_spec() -> bool {
        true
    }

    open spec fn div_req(self, rhs: u64) -> bool {
        rhs != 0
    }

    open spec fn div_spec(self, rhs: u64) -> UTCDay {
        UTCDay::of_count(self@ / (rhs as int))
    }
}

impl core::convert::TryFrom<u64> for UTCDay {
    type Error = UTCDayErrOutOfRange;

    fn try_from(value: u64) -> Result<UTCDay, UTCDayErrOutOfRange> {
        UTCDay::try_from_u64(value)
    }
}

impl vstd::std_specs::convert::TryFromSpecImpl<u64> for UTCDay {
    open spec fn obeys_try_from_spec() -> bool {
        true
    }

    open spec fn try_from_spec(v: u64) -> Result<UTCDay, UTCDayErrOutOfRange> {
        if v <= DAY_MAX {
            Ok(UTCDay::of_count(v as int))
        } else {
            Err(UTCDayErrOutOfRange(v))
        }
    }
}

impl From<UTCTimestamp> for UTCDay {
    fn from(timestamp: UTCTimestamp) -> UTCDay {
        timestamp.as_day()
    }
}

impl vstd::std_specs::convert::FromSpecImpl<UTCTimestamp> for UTCDay {
    open spec fn obeys_from_spec() -> bool {
        true
    }

    open spec fn from_spec(v: UTCTimestamp) -> UTCDay {
        UTCDay::of_count(v@ / (NANOS_PER_DAY as int))
    }
}

impl From<Duration> for UTCDay {
    fn from(duration: Duration) -> UTCDay {
        UTCTimestamp::from_duration(duration).as_day()
    }
}

impl vstd::std_specs::convert::FromSpecImpl<Duration> for UTCDay {
    open spec fn obeys_from_spec() -> bool {
        true
    }

    open spec fn from_spec(v: Duration) -> UTCDay {
        UTCDay::of_count(duration_nanos(v) / (NANOS_PER_DAY as int))
    }
}

impl UTCTimestamp {
    /// The timestamp of `n` nanoseconds since the epoch.
    pub closed spec fn of_nanos(n: int) -> UTCTimestamp {
        UTCTimestamp { secs: (n / (NANOS_PER_SECOND as int)) as u64, nanos: (n % (NANOS_PER_SECOND as int)) as u32 }
    }

    /// A timestamp is the one its nanoseconds name.
    proof fn lemma_of_nanos(self)
        requires
            self.nanos < NANOS_PER_SECOND,
        ensures
            self == UTCTimestamp::of_nanos(self@),
    {
        lemma_fundamental_div_mod_converse(
            self@,
            NANOS_PER_SECOND as int,
            self.secs as int,
            self.nanos as int,
        );
    }

    /// `r`, known to be the timestamp its nanoseconds name.
    fn named(r: UTCTimestamp) -> (s: UTCTimestamp)
        ensures
            s == r,
            s == UTCTimestamp::of_nanos(r@),
    {
        proof {
            use_type_invariant(&r);
            r.lemma_of_nanos();
        }
        r
    }
}

impl core::ops::Add for UTCTimestamp {
    type Output = UTCTimestamp;

    /// Addition; the caller keeps the sum within the maximum timestamp.
    fn add(self, rhs: UTCTimestamp) -> UTCTimestamp {
        UTCTimestamp::named(self.checked_add(rhs).unwrap())
    }
}

impl vstd::std_specs::ops::AddSpecImpl for UTCTimestamp {
    open spec fn obeys_add_spec() -> bool {
        true
    }

    open spec fn add_req(self, rhs: UTCTimestamp) -> bool {
        self@ + rhs@ <= timestamp_max()
    }

    open spec fn add_spec(self, rhs: UTCTimestamp) -> UTCTimestamp {
        UTCTimestamp::of_nanos(self@ + rhs@)
    }
}

impl core::ops::Add<Duration> for UTCTimestamp {
    type Output = UTCTimestamp;

    /// Addition of a duration; the caller keeps the sum within the maximum timestamp.
    fn add(self, rhs: Duration) -> UTCTimestamp {
        UTCTimestamp::named(self.checked_add_duration(rhs).unwrap())
    }
}

impl vstd::std_specs::ops::AddSpecImpl<Duration> for UTCTimestamp {
    open spec fn obeys_add_spec() -> bool {
        true
    }

    open spec fn add_req(self, rhs: Duration) -> bool {
        self@ + duration_nanos(rhs) <= timestamp_max()
    }

    open spec fn add_spec(self, rhs: Duration) -> UTCTimestamp {
        UTCTimestamp::of_nanos(self@ + duration_nanos(rhs))
    }
}

impl core::ops::Sub for UTCTimestamp {
    type Output = UTCTimestamp;

    /// Subtraction; the caller keeps the result from going below zero.
    fn sub(self, rhs: UTCTimestamp) -> UTCTimestamp {
        UTCTimestamp::named(self.checked_sub(rhs).unwrap())
    }
}

impl vstd::std_specs::ops::SubSpecImpl for UTCTimestamp {
    open spec fn obeys_sub_spec() -> bool {
        true
    }

    open spec fn sub_req(self, rhs: UTCTimestamp) -> bool {
        self@ >= rhs@
    }

    open spec fn sub_spec(self, rhs: UTCTimestamp) -> UTCTimestamp {
        UTCTimestamp::of_nanos(self@ - rhs@)
    }
}

impl core::ops::Sub<Duration> for UTCTimestamp {
    type Output = UTCTimestamp;

    /// Subtraction of a duration; the caller keeps the result from going below zero.
    fn sub(self, rhs: Duration) -> UTCTimestamp {
        UTCTimestamp::named(self.checked_sub_duration(rhs).unwrap())
    }
}

impl vstd::std_specs::ops::SubSpecImpl<Duration> for UTCTimestamp {
    open spec fn obeys_sub_spec() -> bool {
        true
    }

    open spec fn sub_req(self, rhs: Duration) -> bool {
        self@ >= duration_nanos(rhs)
    }

    open spec fn sub_spec(self, rhs: Duration) -> UTCTimestamp {
        UTCTimestamp::of_nanos(self@ - duration_nanos(rhs))
    }
}

impl core::ops::Mul<u32> for UTCTimestamp {
    type Output = UTCTimestamp;

    /// Multiplication; the caller keeps the product within the maximum timestamp.
    fn mul(self, rhs: u32) -> UTCTimestamp {
        UTCTimestamp::named(self.checked_mul(rhs).unwrap())
    }
}

impl vstd::std_specs::ops::MulSpecImpl<u32> for UTCTimestamp {
    open spec fn obeys_mul_spec() -> bool {
        true
    }

    open spec fn mul_req(self, rhs: u32) -> bool {
        self@ * rhs <= timestamp_max()
    }

    open spec fn mul_spec(self, rhs: u32) -> UTCTimestamp {
        UTCTimestamp::of_nanos(self@ * rhs)
    }
}

impl core::ops::Mul<UTCTimestamp> for u32 {
    type Output = UTCTimestamp;

    /// Multiplication; the caller keeps the product within the maximum timestamp.
    fn mul(self, rhs: UTCTimestamp) -> UTCTimestamp {
        UTCTimestamp::named(rhs.checked_mul(self).unwrap())
    }
}

impl vstd::std_specs::ops::MulSpecImpl<UTCTimestamp> for u32 {
    open spec fn obeys_mul_spec() -> bool {
        true
    }

    open spec fn mul_req(self, rhs: UTCTimestamp) -> bool {
        rhs@ * self <= timestamp_max()
    }

    open spec fn mul_spec(self, rhs: UTCTimestamp) -> UTCTimestamp {
        UTCTimestamp::of_nanos(rhs@ * self)
    }
}

impl core::ops::Div<u32> for UTCTimestamp {
    type Output = UTCTimestamp;

    /// Division, rounding down; the caller keeps `rhs` nonzero.
    fn div(self, rhs: u32) -> UTCTimestamp {
        UTCTimestamp::named(self.checked_div(rhs).unwrap())
    }
}

impl vstd::std_specs::ops::DivSpecImpl<u32> for UTCTimestamp {
    open spec fn obeys_div_spec() -> bool {
        true
    }

    open spec fn div_req(self, rhs: u32) -> bool {
        rhs != 0
    }

    open spec fn div_spec(self, rhs: u32) -> UTCTimestamp {
        UTCTimestamp::of_nanos(self@ / (rhs as int))
    }
}

impl From<Duration> for UTCTimestamp {
    fn from(duration: Duration) -> UTCTimestamp {
        UTCTimestamp::named(UTCTimestamp::from_duration(duration))
    }
}

impl vstd::std_specs::convert::FromSpecImpl<Duration> for UTCTimestamp {
    open spec fn obeys_from_spec() -> bool {
        true
    }

    open spec fn from_spec(v: Duration) -> UTCTimestamp {
        UTCTimestamp::of_nanos(duration_nanos(v))
    }
}

impl From<UTCDay> for UTCTimestamp {
    fn from(day: UTCDay) -> UTCTimestamp {
        UTCTimestamp::named(UTCTimestamp::from_day(day))
    }
}

impl vstd::std_specs::convert::FromSpecImpl<UTCDay> for UTCTimestamp {
    open spec fn obeys_from_spec() -> bool {
        true
    }

    open spec fn from_spec(v: UTCDay) -> UTCTimestamp {
        UTCTimestamp::of_nanos(v@ * NANOS_PER_DAY)
    }
}

/// Error for a day count beyond `UTCDay::max_value()`; it holds the rejected count.
#[derive(Debug, Clone, Copy, PartialEq, Eq, Structural)]
pub struct UTCDayErrOutOfRange(pub u64);

/// Nanoseconds since midnight of `hrs` hours, `mins` minutes, `secs` seconds
/// and `subsec_ns` nanoseconds.
pub open spec fn hhmmss_nanos(hrs: int, mins: int, secs: int, subsec_ns: int) -> int {
    subsec_ns + hrs * NANOS_PER_HOUR + mins * NANOS_PER_MINUTE + secs * NANOS_PER_SECOND
}

/// UTC Time of Day: nanoseconds since midnight, below one day.
#[derive(Debug, Clone, Copy, PartialEq, Eq, Structural, PartialOrd, Ord, Hash)]
pub struct UTCTimeOfDay(u64);

impl View for UTCTimeOfDay {
    /// Nanoseconds since midnight
    type V = int;

    closed spec fn view(&self) -> int {
        self.0 as int
    }
}

impl UTCTimeOfDay {
    #[verifier::type_invariant]
    spec fn inv(self) -> bool {
        self.0 < NANOS_PER_DAY
    }

    /// The minimum length of an ISO time (in UTF8 characters)
    pub const MIN_ISO_TOD_LEN: usize = 10;

    /// The maximum supported subsecond precision of an ISO time
    pub const MAX_ISO_TOD_PRECISION: usize = 9;

    /// The zero time of day: midnight.
    pub fn zero() -> (r: Self)
        ensures
            r@ == 0,
    {
        Self(0)
    }

    /// The maximum time of day: one nanosecond before midnight.
    pub fn max_value() -> (r: Self)
        ensures
            r@ == NANOS_PER_DAY - 1,
    {
        Self(NANOS_PER_DAY - 1)
    }

    /// Create a time of day from nanoseconds the caller knows to be within a day.
    pub fn from_nanos_unchecked(nanos: u64) -> (r: Self)
        requires
            nanos < NANOS_PER_DAY,
        ensures
            r@ == nanos,
    {
        Self(nanos)
    }

    /// Create a time of day from microseconds the caller knows to be within a day.
    pub fn from_micros_unchecked(micros: u64) -> (r: Self)
        requires
            micros < MICROS_PER_DAY,
        ensures
            r@ == micros * NANOS_PER_MICRO,
    {
        Self(micros * NANOS_PER_MICRO)
    }

    /// Create a time of day from milliseconds the caller knows to be within a day.
    pub fn from_millis_unchecked(millis: u32) -> (r: Self)
        requires
            millis < MILLIS_PER_DAY,
        ensures
            r@ == millis * NANOS_PER_MILLI,
    {
        Self((millis as u64) * NANOS_PER_MILLI)
    }

    /// Create a time of day from seconds the caller knows to be within a day.
    pub fn from_secs_unchecked(secs: u32) -> (r: Self)
        requires
            secs < SECONDS_PER_DAY,
        ensures
            r@ == secs * NANOS_PER_SECOND,
    {
        Self((secs as u64) * NANOS_PER_SECOND)
    }

    fn ns_from_hhmmss(hrs: u8, mins: u8, secs: u8, subsec_ns: u32) -> (r: u64)
        ensures
            r == hhmmss_nanos(hrs as int, mins as int, secs as int, subsec_ns as int),
    {
        (subsec_ns as u64) + (hrs as u64) * NANOS_PER_HOUR + (mins as u64) * NANOS_PER_MINUTE
            + (secs as u64) * NANOS_PER_SECOND
    }

    /// Create a time of day from hours, minutes, seconds and nanoseconds the
    /// caller knows to add up to less than a day.
    pub fn from_hhmmss_unchecked(hrs: u8, mins: u8, secs: u8, subsec_ns: u32) -> (r: Self)
        requires
            hhmmss_nanos(hrs as int, mins as int, secs as int, subsec_ns as int) < NANOS_PER_DAY,
        ensures
            r@ == hhmmss_nanos(hrs as int, mins as int, secs as int, subsec_ns as int),
    {
        Self(Self::ns_from_hhmmss(hrs, mins, secs, subsec_ns))
    }

    /// Try to create a time of day from nanoseconds.
    pub fn try_from_nanos(nanos: u64) -> (r: Result<Self, UTCTimeOfDayError>)
        ensures
            r is Ok <==> nanos < NANOS_PER_DAY,
            r matches Ok(t) ==> t@ == nanos,
            r matches Err(e) ==> e == UTCTimeOfDayError::ExcessNanos(nanos),
    {
        if nanos >= NANOS_PER_DAY {
            return Err(UTCTimeOfDayError::ExcessNanos(nanos));
        }
        Ok(Self(nanos))
    }

    /// Try to create a time of day from microseconds.
    pub fn try_from_micros(micros: u64) -> (r: Result<Self, UTCTimeOfDayError>)
        ensures
            r is Ok <==> micros < MICROS_PER_DAY,
            r matches Ok(t) ==> t@ == micros * NANOS_PER_MICRO,
            r matches Err(e) ==> e == UTCTimeOfDayError::ExcessMicros(micros),
    {
        if micros >= MICROS_PER_DAY {
            return Err(UTCTimeOfDayError::ExcessMicros(micros));
        }
        Ok(Self::from_micros_unchecked(micros))
    }

    /// Try to create a time of day from milliseconds.
    pub fn try_from_millis(millis: u32) -> (r: Result<Self, UTCTimeOfDayError>)
        ensures
            r is Ok <==> millis < MILLIS_PER_DAY,
            r matches Ok(t) ==> t@ == millis * NANOS_PER_MILLI,
            r matches Err(e) ==> e == UTCTimeOfDayError::ExcessMillis(millis),
    {
        if millis as u64 >= MILLIS_PER_DAY {
            return Err(UTCTimeOfDayError::ExcessMillis(millis));
        }
        Ok(Self::from_millis_unchecked(millis))
    }

    /// Try to create a time of day from seconds.
    pub fn try_from_secs(secs: u32) -> (r: Result<Self, UTCTimeOfDayError>)
        ensures
            r is Ok <==> secs < SECONDS_PER_DAY,
            r matches Ok(t) ==> t@ == secs * NANOS_PER_SECOND,
            r matches Err(e) ==> e == UTCTimeOfDayError::ExcessSeconds(secs),
    {
        if secs as u64 >= SECONDS_PER_DAY {
            return Err(UTCTimeOfDayError::ExcessSeconds(secs));
        }
        Ok(Self::from_secs_unchecked(secs))
    }

    /// Try to create a time of day from hours, minutes, seconds and nanoseconds.
    ///
    /// No part is limited on its own (61 minutes is accepted); the total must
    /// stay below one day.
    pub fn try_from_hhmmss(hrs: u8, mins: u8, secs: u8, subsec_ns: u32) -> (r: Result<
        Self,
        UTCTimeOfDayError,
    >)
        ensures
            r is Ok <==> hhmmss_nanos(hrs as int, mins as int, secs as int, subsec_ns as int)
                < NANOS_PER_DAY,
            r matches Ok(t) ==> t@ == hhmmss_nanos(
                hrs as int,
                mins as int,
                secs as int,
                subsec_ns as int,
            ),
            r matches Err(e) ==> e == UTCTimeOfDayError::ExcessNanos(
                hhmmss_nanos(hrs as int, mins as int, secs as int, subsec_ns as int) as u64,
            ),
    {
        Self::try_from_nanos(Self::ns_from_hhmmss(hrs, mins, secs, subsec_ns))
    }

    /// Consume the time of day into nanoseconds.
    pub fn to_nanos(self) -> (r: u64)
        ensures
            r == self@,
            r < NANOS_PER_DAY,
    {
        self.as_nanos()
    }

    /// The time of day in nanoseconds.
    pub fn as_nanos(&self) -> (r: u64)
        ensures
            r == self@,
            r < NANOS_PER_DAY,
    {
        proof {
            use_type_invariant(self);
        }
        self.0
    }

    /// The time of day in whole microseconds.
    pub fn as_micros(&self) -> (r: u64)
        ensures
            r == self@ / (NANOS_PER_MICRO as int),
    {
        self.as_nanos() / NANOS_PER_MICRO
    }

    /// The time of day in whole milliseconds.
    pub fn as_millis(&self) -> (r: u32)
        ensures
            r == self@ / (NANOS_PER_MILLI as int),
    {
        (self.as_nanos() / NANOS_PER_MILLI) as u32
    }

    /// The time of day in whole seconds.
    pub fn as_secs(&self) -> (r: u32)
        ensures
            r == self@ / (NANOS_PER_SECOND as int),
    {
        (self.as_nanos() / NANOS_PER_SECOND) as u32
    }

    /// The time of day as `(hours, minutes, seconds)`.
    pub fn as_hhmmss(&self) -> (r: (u8, u8, u8))
        ensures
            r.0 == self@ / (NANOS_PER_HOUR as int),
            r.1 == (self@ % (NANOS_PER_HOUR as int)) / (NANOS_PER_MINUTE as int),
            r.2 == (self@ % (NANOS_PER_MINUTE as int)) / (NANOS_PER_SECOND as int),
            r.0 < 24 && r.1 < 60 && r.2 < 60,
    {
        let ns = self.as_nanos();
        let hrs = (ns / NANOS_PER_HOUR) as u8;
        let mins = ((ns % NANOS_PER_HOUR) / NANOS_PER_MINUTE) as u8;
        let secs = ((ns % NANOS_PER_MINUTE) / NANOS_PER_SECOND) as u8;
        (hrs, mins, secs)
    }

    /// The nanoseconds of the second under way.
    pub fn as_subsec_ns(&self) -> (r: u32)
        ensures
            r == self@ % (NANOS_PER_SECOND as int),
    {
        (self.as_nanos() % NANOS_PER_SECOND) as u32
    }

    /// The time of day of a UTC timestamp.
    pub fn from_timestamp(timestamp: UTCTimestamp) -> (r: Self)
        ensures
            r@ == timestamp@ % (NANOS_PER_DAY as int),
            r == UTCTimeOfDay::of_nanos(timestamp@ % (NANOS_PER_DAY as int)),
    {
        timestamp.as_tod()
    }

    /// The time of day holding `n` nanoseconds since midnight.
    pub closed spec fn of_nanos(n: int) -> UTCTimeOfDay {
        UTCTimeOfDay(n as u64)
    }

    /// Try to parse a time of day from ISO 8601 text `Thh:mm:ssZ` or
    /// `Thh:mm:ss.nnnZ`, with up to nine fractional digits.
    ///
    /// The fixed bytes are checked first (`InvalidSeparator` with the
    /// position), then the hour, minute and second digits (`ParseErr`), then
    /// the number of fractional digits (`ExcessPrecision`), then those digits
    /// (`ParseErr`), and last the total against one day (`ExcessNanos`). A
    /// bare dot stands for zero nanoseconds. `ParseErr` carries the error std
    /// gives for the text.
    pub fn try_from_iso_tod(iso: &str) -> (r: Result<Self, UTCTimeOfDayError>)
        ensures
            iso.spec_bytes().len() < 10 ==> (r matches Err(UTCTimeOfDayError::InsufficientStrLen(l, m))
                && l == iso.spec_bytes().len() && m == 10),
            iso.spec_bytes().len() >= 10 && !iso_tod_separators_ok(iso.spec_bytes()) ==> (r matches Err(
                UTCTimeOfDayError::InvalidSeparator(k),
            ) && k == iso_tod_separator_pos(iso.spec_bytes())),
            iso_tod_parse_error(iso.spec_bytes()) ==> (r matches Err(UTCTimeOfDayError::ParseErr(_))),
            iso.spec_bytes().len() >= 10 && iso_tod_separators_ok(iso.spec_bytes()) && iso_hms_digits_ok(
                iso.spec_bytes(),
            ) && iso_precision(iso.spec_bytes()) > 9 ==> (r matches Err(
                UTCTimeOfDayError::ExcessPrecision(p),
            ) && p == iso_precision(iso.spec_bytes()) as u32),
            iso_tod_fields(iso.spec_bytes()) matches Some(f) ==> ({
                let total = hhmmss_nanos(f.0, f.1, f.2, f.3);
                &&& r is Ok <==> total < NANOS_PER_DAY
                &&& r matches Ok(t) ==> t@ == total
                &&& r is Err ==> (r matches Err(UTCTimeOfDayError::ExcessNanos(n)) && n == total)
            }),
            r is Ok ==> iso_tod_fields(iso.spec_bytes()) is Some,
    {
        let bytes = iso.as_bytes();
        let len = bytes.len();
        if len < Self::MIN_ISO_TOD_LEN {
            return Err(UTCTimeOfDayError::InsufficientStrLen(len, Self::MIN_ISO_TOD_LEN));
        }
        if bytes[0] != 84u8 {
            return Err(UTCTimeOfDayError::InvalidSeparator(0));
        }
        if bytes[3] != 58u8 {
            return Err(UTCTimeOfDayError::InvalidSeparator(3));
        }
        if bytes[6] != 58u8 {
            return Err(UTCTimeOfDayError::InvalidSeparator(6));
        }
        if len > 10 && bytes[9] != 46u8 {
            return Err(UTCTimeOfDayError::InvalidSeparator(9));
        }
        if bytes[len - 1] != 90u8 {
            return Err(UTCTimeOfDayError::InvalidSeparator(len - 1));
        }
        if !(digits_in(bytes, 1, 3) && digits_in(bytes, 4, 6) && digits_in(bytes, 7, 9)) {
            return Err(UTCTimeOfDayError::ParseErr(invalid_digit_error(iso, 3)));
        }
        proof {
            lemma_digits_field(iso.spec_bytes(), 1, 3);
            lemma_digits_field(iso.spec_bytes(), 4, 6);
            lemma_digits_field(iso.spec_bytes(), 7, 9);
            reveal_with_fuel(pow10, 3);
        }
        let hrs: u8 = match parse_u8(substr(iso, 1, 3)) {
            Ok(v) => v,
            Err(e) => return Err(UTCTimeOfDayError::ParseErr(e)),
        };
        let mins: u8 = match parse_u8(substr(iso, 4, 6)) {
            Ok(v) => v,
            Err(e) => return Err(UTCTimeOfDayError::ParseErr(e)),
        };
        let secs: u8 = match parse_u8(substr(iso, 7, 9)) {
            Ok(v) => v,
            Err(e) => return Err(UTCTimeOfDayError::ParseErr(e)),
        };
        let subsec_ns: u32 = if len > 10 {
            let precision = len - 11;
            if precision > Self::MAX_ISO_TOD_PRECISION {
                return Err(UTCTimeOfDayError::ExcessPrecision(precision as u32));
            }
            if precision == 0 {
                0
            } else {
                if !digits_in(bytes, 10, len - 1) {
                    return Err(UTCTimeOfDayError::ParseErr(invalid_digit_error(iso, 3)));
                }
                proof {
                    lemma_digits_field(iso.spec_bytes(), 10, len - 1);
                    lemma_pow10_add(precision as nat, (9 - precision) as nat);
                    reveal_with_fuel(pow10, 10);
                }
                let field = substr(iso, 10, len - 1);
                let subsec: u32 = match parse_u32(field) {
                    Ok(v) => v,
                    Err(e) => return Err(UTCTimeOfDayError::ParseErr(e)),
                };
                let scale = pow10_u32(Self::MAX_ISO_TOD_PRECISION - precision);
                proof {
                    assert(subsec * scale < 1_000_000_000) by (nonlinear_arith)
                        requires
                            subsec < pow10(precision as nat),
                            pow10(precision as nat) * scale == 1_000_000_000,
                    ;
                }
                subsec * scale
            }
        } else {
            0
        };
        Self::try_from_hhmmss(hrs, mins, secs, subsec_ns)
    }

    /// The ISO text of the time of day, as bytes.
    fn iso_bytes(&self, precision: usize) -> (r: Vec<u8>)
        ensures
            r@ == iso_tod_text(self@, precision as int),
            r@.len() == iso_tod_len_spec(precision as int),
    {
        let ns = self.as_nanos();
        proof {
            lemma_iso_tod_len(ns as int, precision as int);
        }
        iso_tod_bytes(ns, precision)
    }

    /// The time of day as ISO 8601 text: `Thh:mm:ssZ` at precision 0,
    /// `Thh:mm:ss.nnnZ` at precision 3.
    ///
    /// The precision is the number of fractional digits, at most nine; the
    /// fraction is truncated, never rounded.
    pub fn as_iso_tod(&self, precision: usize) -> (r: String)
        ensures
            r@ == ascii_text(iso_tod_text(self@, precision as int)),
    {
        ascii_string(&self.iso_bytes(precision))
    }

    /// Write the time of day as ISO 8601 text to the front of `buf`.
    ///
    /// The buffer needs at least `iso_tod_len(precision)` bytes, else nothing
    /// is written and `InsufficientStrLen` holds its length and the length
    /// required. On success the number of bytes written is returned.
    pub fn write_iso_tod(&self, buf: &mut [u8], precision: usize) -> (r: Result<
        usize,
        UTCTimeOfDayError,
    >)
        ensures
            old(buf)@.len() < iso_tod_len_spec(precision as int) ==> (r matches Err(
                UTCTimeOfDayError::InsufficientStrLen(l, m),
            ) && l == old(buf)@.len() && m == iso_tod_len_spec(precision as int) && final(buf)@
                == old(buf)@),
            old(buf)@.len() >= iso_tod_len_spec(precision as int) ==> (r matches Ok(n) && n
                == iso_tod_len_spec(precision as int) && final(buf)@ == iso_tod_text(
                self@,
                precision as int,
            ) + old(buf)@.skip(n as int)),
    {
        let write_len = Self::iso_tod_len(precision);
        if write_len > buf.len() {
            return Err(UTCTimeOfDayError::InsufficientStrLen(buf.len(), write_len));
        }
        let text = self.iso_bytes(precision);
        copy_prefix(buf, &text, write_len);
        assert(text@.take(write_len as int) =~= text@);
        Ok(write_len)
    }

    /// Length of the ISO time-of-day text written with `precision`.
    pub fn iso_tod_len(precision: usize) -> (r: usize)
        ensures
            r == iso_tod_len_spec(precision as int),
    {
        if precision == 0 {
            Self::MIN_ISO_TOD_LEN
        } else if precision < Self::MAX_ISO_TOD_PRECISION {
            Self::MIN_ISO_TOD_LEN + precision + 1
        } else {
            Self::MIN_ISO_TOD_LEN + Self::MAX_ISO_TOD_PRECISION + 1
        }
    }
}

/// The ISO text of a time of day has the length `iso_tod_len_spec` gives.
pub proof fn lemma_iso_tod_len(tod: int, precision: int)
    requires
        0 <= tod,
        0 <= precision,
    ensures
        iso_tod_text(tod, precision).len() == iso_tod_len_spec(precision),
{
    lemma_padded_digits((tod / (NANOS_PER_HOUR as int)) as nat, 2);
    lemma_padded_digits(((tod % (NANOS_PER_HOUR as int)) / (NANOS_PER_MINUTE as int)) as nat, 2);
    lemma_padded_digits(((tod % (NANOS_PER_MINUTE as int)) / (NANOS_PER_SECOND as int)) as nat, 2);
    lemma_padded_digits((tod % (NANOS_PER_SECOND as int)) as nat, 9);
}

impl Default for UTCTimeOfDay {
    fn default() -> (r: Self)
        ensures
            r@ == 0,
    {
        UTCTimeOfDay::zero()
    }
}

/// Error type for UTCTimeOfDay methods
#[derive(Debug)]
pub enum UTCTimeOfDayError {
    /// A numeric field of an ISO time did not parse
    ParseErr(ParseIntError),
    /// The ISO time has more than nine fractional digits; it holds their number
    ExcessPrecision(u32),
    /// Nanoseconds beyond one day
    ExcessNanos(u64),
    /// Microseconds beyond one day
    ExcessMicros(u64),
    /// Milliseconds beyond one day
    ExcessMillis(u32),
    /// Seconds beyond one day
    ExcessSeconds(u32),
    /// The ISO time text or the buffer is too short: `(length, required)`
    InsufficientStrLen(usize, usize),
    /// The ISO time text lacks a fixed byte (`T`, `:`, `.` or `Z`) where one
    /// belongs; it holds the position
    InvalidSeparator(usize),
}

} // verus!
