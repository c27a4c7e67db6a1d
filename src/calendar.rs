//! The proleptic Gregorian calendar as mathematics: leap years, month lengths
//! and the number of days from the epoch to a calendar date.
use crate::time::DAY_MAX;
use vstd::arithmetic::div_mod::{lemma_fundamental_div_mod, lemma_fundamental_div_mod_converse};
use vstd::prelude::*;

verus! {

/// Latest year that holds a supported date.
pub const MAX_YEAR: u64 = 584_554_051_223;

/// Earliest supported year: that of the epoch.
pub const MIN_YEAR: u64 = 1970;

/// Whether `y` is a leap year of the Gregorian calendar.
pub open spec fn is_leap_year(y: int) -> bool {
    y % 4 == 0 && (y % 100 != 0 || y % 400 == 0)
}

/// Number of days of month `m` (1 to 12) in year `y`.
pub open spec fn month_len(y: int, m: int) -> int {
    if m == 2 {
        if is_leap_year(y) {
            29
        } else {
            28
        }
    } else if m == 4 || m == 6 || m == 9 || m == 11 {
        30
    } else {
        31
    }
}

/// Number of leap years among the years `1..=y`.
pub open spec fn leap_years_through(y: int) -> int {
    y / 4 - y / 100 + y / 400
}

/// Days from the epoch to January 1 of year `y`.
pub open spec fn days_before_year(y: int) -> int {
    365 * (y - 1970) + leap_years_through(y - 1) - leap_years_through(1969)
}

/// Days from January 1 to the first day of month `m` in year `y`.
pub open spec fn days_before_month(y: int, m: int) -> int {
    let common: int = if m <= 1 {
        0
    } else if m == 2 {
        31
    } else if m == 3 {
        59
    } else if m == 4 {
        90
    } else if m == 5 {
        120
    } else if m == 6 {
        151
    } else if m == 7 {
        181
    } else if m == 8 {
        212
    } else if m == 9 {
        243
    } else if m == 10 {
        273
    } else if m == 11 {
        304
    } else {
        334
    };
    common + if m > 2 && is_leap_year(y) {
        1int
    } else {
        0int
    }
}

/// Number of days from the epoch (1970-01-01) to the date `y-m-d`.
pub open spec fn days_since_epoch(y: int, m: int, d: int) -> int {
    days_before_year(y) + days_before_month(y, m) + d - 1
}

/// Whether `(y, m, d)` names a day of the calendar, whatever the year.
pub open spec fn is_calendar_date(y: int, m: int, d: int) -> bool {
    1 <= m <= 12 && 1 <= d <= month_len(y, m)
}

/// Whether `(y, m, d)` is a supported date: a calendar date from the epoch
/// up to and including November 9 of `MAX_YEAR`.
pub open spec fn is_valid_date(y: int, m: int, d: int) -> bool {
    &&& is_calendar_date(y, m, d)
    &&& MIN_YEAR <= y <= MAX_YEAR
    &&& (y < MAX_YEAR || m < 11 || (m == 11 && d <= 9))
}

/// The supported date that lies `n` days after the epoch.
pub open spec fn date_of_day(n: int) -> (int, int, int) {
    choose|t: (int, int, int)| is_valid_date(t.0, t.1, t.2) && days_since_epoch(t.0, t.1, t.2) == n
}

/// Whether `(y1, m1, d1)` comes strictly before `(y2, m2, d2)`.
pub open spec fn date_before(y1: int, m1: int, d1: int, y2: int, m2: int, d2: int) -> bool {
    y1 < y2 || (y1 == y2 && (m1 < m2 || (m1 == m2 && d1 < d2)))
}

// The calendar counted from March 1 of year 0, where the leap day closes the year.

/// Days from March 1 of year 0 to March 1 of year `ya`.
pub open spec fn days_to_march_year(ya: int) -> int {
    365 * ya + ya / 4 - ya / 100 + ya / 400
}

/// Position of month `m` in a year that starts in March (0 = March, 11 = February).
pub open spec fn march_month(m: int) -> int {
    if m > 2 {
        m - 3
    } else {
        m + 9
    }
}

/// Day of a March-based year on which month `m`, day `d` falls (0 = March 1).
pub open spec fn march_day_of_year(m: int, d: int) -> int {
    (153 * march_month(m) + 2) / 5 + d - 1
}

/// The March-based year that holds month `m` of year `y`.
pub open spec fn march_year(y: int, m: int) -> int {
    if m <= 2 {
        y - 1
    } else {
        y
    }
}

/// Day of the 400-year era on which year `yoe` of the era begins, in March-based years.
pub open spec fn era_year_start(yoe: int) -> int {
    365 * yoe + yoe / 4 - yoe / 100
}

/// Shift from the day count since March 1 of year 0 to that since the epoch.
pub open spec fn epoch_shift() -> int {
    719468
}

pub proof fn lemma_leap_step(y: int)
    requires
        y >= 1,
    ensures
        leap_years_through(y) == leap_years_through(y - 1) + if is_leap_year(y) {
            1int
        } else {
            0int
        },
{
}

/// The day count of a calendar date, through the March-based year.
pub proof fn lemma_days_since_epoch_march(y: int, m: int, d: int)
    requires
        y >= 1,
        1 <= m <= 12,
    ensures
        days_since_epoch(y, m, d) == days_to_march_year(march_year(y, m)) + march_day_of_year(m, d)
            - epoch_shift(),
{
    lemma_leap_step(y);
}

/// Splitting the March-based year into 400-year eras.
pub proof fn lemma_era_split(era: int, yoe: int)
    requires
        era >= 0,
        0 <= yoe < 400,
    ensures
        days_to_march_year(400 * era + yoe) == 146097 * era + era_year_start(yoe),
{
    let ya = 400 * era + yoe;
    lemma_fundamental_div_mod_converse(ya, 4, 100 * era + yoe / 4, yoe % 4);
    lemma_fundamental_div_mod_converse(ya, 100, 4 * era + yoe / 100, yoe % 100);
    lemma_fundamental_div_mod_converse(ya, 400, era, yoe);
}

/// The year of the era and the day of that year, as the day of the era gives them.
pub proof fn lemma_year_of_era(doe: int)
    requires
        0 <= doe <= 146096,
    ensures
        ({
            let yoe = (doe - doe / 1460 + doe / 36524 - doe / 146096) / 365;
            let doy = doe - era_year_start(yoe);
            &&& 0 <= yoe <= 399
            &&& 0 <= doy
            &&& doy <= 364 || (doy == 365 && is_leap_year(yoe + 1))
        }),
{
    let c = doe / 36524;
    let r = doe % 36524;
    let b = r / 1461;
    let s = r % 1461;
    assert(doe == 36524 * c + 1461 * b + s);
    if doe == 146096 {
        lemma_fundamental_div_mod_converse(doe, 1460, 100, 96);
        lemma_fundamental_div_mod_converse(145999, 365, 399, 364);
        lemma_fundamental_div_mod_converse(399, 4, 99, 3);
        lemma_fundamental_div_mod_converse(399, 100, 3, 99);
        lemma_fundamental_div_mod_converse(400, 4, 100, 0);
        lemma_fundamental_div_mod_converse(400, 100, 4, 0);
        lemma_fundamental_div_mod_converse(400, 400, 1, 0);
    } else {
        assert(c <= 3);
        assert(b <= 24);
        let e = (24 * c + b + s) / 1460;
        assert(0 <= e <= 1);
        lemma_fundamental_div_mod_converse(24 * c + b + s, 1460, e, (24 * c + b + s) % 1460);
        lemma_fundamental_div_mod_converse(doe, 1460, 25 * c + b + e, (24 * c + b + s) % 1460);
        lemma_fundamental_div_mod_converse(doe, 36524, c, r);
        lemma_fundamental_div_mod_converse(doe, 146096, 0, doe);
        let a = (s - e) / 365;
        assert(0 <= a <= 3);
        lemma_fundamental_div_mod_converse(s - e, 365, a, (s - e) % 365);
        let n = doe - doe / 1460 + doe / 36524 - doe / 146096;
        assert(n == 36500 * c + 1460 * b + (s - e));
        lemma_fundamental_div_mod_converse(n, 365, 100 * c + 4 * b + a, (s - e) % 365);
        let yoe = 100 * c + 4 * b + a;
        lemma_fundamental_div_mod_converse(yoe, 4, 25 * c + b, a);
        lemma_fundamental_div_mod_converse(yoe, 100, c, 4 * b + a);
        assert(era_year_start(yoe) == 36524 * c + 1461 * b + 365 * a);
        let yn = yoe + 1;
        if a == 3 {
            lemma_fundamental_div_mod_converse(yn, 4, 25 * c + b + 1, 0);
            if b == 24 {
                lemma_fundamental_div_mod_converse(yn, 100, c + 1, 0);
                if c == 3 {
                    lemma_fundamental_div_mod_converse(yn, 400, 1, 0);
                } else {
                    lemma_fundamental_div_mod_converse(yn, 400, 0, yn);
                }
            } else {
                lemma_fundamental_div_mod_converse(yn, 100, c, 4 * b + 4);
            }
        }
    }
}

/// Month and day of the month, as the day of a March-based year gives them.
pub proof fn lemma_month_of_day(doy: int, y: int)
    requires
        0 <= doy <= 365,
        doy == 365 ==> is_leap_year(y),
    ensures
        ({
            let mp = (5 * doy + 2) / 153;
            let d = doy - (153 * mp + 2) / 5 + 1;
            let m = if mp < 10 {
                mp + 3
            } else {
                mp - 9
            };
            &&& 0 <= mp <= 11
            &&& march_month(m) == mp
            &&& 1 <= m <= 12
            &&& 1 <= d <= month_len(y, m)
            &&& march_day_of_year(m, d) == doy
        }),
{
    let mp = (5 * doy + 2) / 153;
    lemma_fundamental_div_mod(5 * doy + 2, 153);
    assert(0 <= mp <= 11);
    let t = (153 * mp + 2) / 5;
    lemma_fundamental_div_mod(153 * mp + 2, 5);
    let m = if mp < 10 {
        mp + 3
    } else {
        mp - 9
    };
    assert(march_month(m) == mp);
    if mp == 11 {
        assert(t == 337);
    } else if mp == 10 {
        assert(t == 306);
    } else if mp == 9 {
        assert(t == 275);
    } else if mp == 8 {
        assert(t == 245);
    } else if mp == 7 {
        assert(t == 214);
    } else if mp == 6 {
        assert(t == 184);
    } else if mp == 5 {
        assert(t == 153);
    } else if mp == 4 {
        assert(t == 122);
    } else if mp == 3 {
        assert(t == 92);
    } else if mp == 2 {
        assert(t == 61);
    } else if mp == 1 {
        assert(t == 31);
    } else {
        assert(t == 0);
    }
}

/// A leap year stays one when whole 400-year eras are added to it.
pub proof fn lemma_leap_period(x: int, era: int)
    requires
        x >= 0,
        era >= 0,
    ensures
        is_leap_year(x + 400 * era) == is_leap_year(x),
{
    lemma_fundamental_div_mod_converse(x + 400 * era, 4, x / 4 + 100 * era, x % 4);
    lemma_fundamental_div_mod_converse(x + 400 * era, 100, x / 100 + 4 * era, x % 100);
    lemma_fundamental_div_mod_converse(x + 400 * era, 400, x / 400 + era, x % 400);
}

/// January 1 of the next year follows the last day of `y`.
pub proof fn lemma_days_before_year_step(y: int)
    requires
        y >= 0,
    ensures
        days_before_year(y + 1) == days_before_year(y) + 365 + if is_leap_year(y) {
            1int
        } else {
            0int
        },
{
    if y >= 1 {
        lemma_leap_step(y);
    } else {
        assert(leap_years_through(0) == 0);
        assert(leap_years_through(-1) == -1);
    }
}

/// Later years start later: each full year in between adds at least 365 days.
pub proof fn lemma_days_before_year_mono(a: int, b: int)
    requires
        0 <= a <= b,
    ensures
        days_before_year(a) + 365 * (b - a) <= days_before_year(b),
    decreases b - a,
{
    if a < b {
        lemma_days_before_year_mono(a, b - 1);
        lemma_days_before_year_step(b - 1);
    }
}

/// Every day of a calendar year lies before January 1 of the next year.
proof fn lemma_day_within_year(y: int, m: int, d: int)
    requires
        is_calendar_date(y, m, d),
    ensures
        0 <= days_before_month(y, m) + d - 1 < 365 + if is_leap_year(y) {
            1int
        } else {
            0int
        },
{
}

/// Within one year, every day of an earlier month comes before a later month begins.
proof fn lemma_month_order(y: int, m1: int, d1: int, m2: int)
    requires
        is_calendar_date(y, m1, d1),
        m1 < m2 <= 12,
    ensures
        days_before_month(y, m1) + d1 - 1 < days_before_month(y, m2),
{
}

/// The day count grows strictly with the date.
pub proof fn lemma_days_since_epoch_increasing(y1: int, m1: int, d1: int, y2: int, m2: int, d2: int)
    requires
        y1 >= 0,
        is_calendar_date(y1, m1, d1),
        is_calendar_date(y2, m2, d2),
        date_before(y1, m1, d1, y2, m2, d2),
    ensures
        days_since_epoch(y1, m1, d1) < days_since_epoch(y2, m2, d2),
{
    if y1 < y2 {
        lemma_day_within_year(y1, m1, d1);
        lemma_days_before_year_step(y1);
        lemma_days_before_year_mono(y1 + 1, y2);
    } else if m1 < m2 {
        lemma_month_order(y1, m1, d1, m2);
    }
}

/// Two calendar dates with the same day count are the same date.
pub proof fn lemma_days_since_epoch_injective(y1: int, m1: int, d1: int, y2: int, m2: int, d2: int)
    requires
        y1 >= 0,
        y2 >= 0,
        is_calendar_date(y1, m1, d1),
        is_calendar_date(y2, m2, d2),
        days_since_epoch(y1, m1, d1) == days_since_epoch(y2, m2, d2),
    ensures
        y1 == y2 && m1 == m2 && d1 == d2,
{
    if date_before(y1, m1, d1, y2, m2, d2) {
        lemma_days_since_epoch_increasing(y1, m1, d1, y2, m2, d2);
    } else if date_before(y2, m2, d2, y1, m1, d1) {
        lemma_days_since_epoch_increasing(y2, m2, d2, y1, m1, d1);
    }
}

/// The epoch is day 0 and the last supported date is day `DAY_MAX`.
pub proof fn lemma_date_range_ends()
    ensures
        days_since_epoch(1970, 1, 1) == 0,
        days_since_epoch(MAX_YEAR as int, 11, 9) == DAY_MAX,
{
}

/// A calendar date is supported exactly when its day count lies in `[0, DAY_MAX]`.
pub proof fn lemma_valid_iff_day_in_range(y: int, m: int, d: int)
    requires
        y >= 0,
        is_calendar_date(y, m, d),
    ensures
        is_valid_date(y, m, d) <==> 0 <= days_since_epoch(y, m, d) <= DAY_MAX,
{
    lemma_date_range_ends();
    if date_before(y, m, d, 1970, 1, 1) {
        lemma_days_since_epoch_increasing(y, m, d, 1970, 1, 1);
    } else if y >= 1970 {
        lemma_days_before_year_mono(1970, y);
        assert(days_since_epoch(y, m, d) >= 0);
    }
    if date_before(MAX_YEAR as int, 11, 9, y, m, d) {
        lemma_days_since_epoch_increasing(MAX_YEAR as int, 11, 9, y, m, d);
    } else if date_before(y, m, d, MAX_YEAR as int, 11, 9) {
        lemma_days_since_epoch_increasing(y, m, d, MAX_YEAR as int, 11, 9);
    }
}

/// The supported date with day count `n` is the one `date_of_day` names.
pub proof fn lemma_date_of_day_is(n: int, y: int, m: int, d: int)
    requires
        is_valid_date(y, m, d),
        days_since_epoch(y, m, d) == n,
    ensures
        date_of_day(n) == (y, m, d),
{
    let w = (y, m, d);
    assert(is_valid_date(w.0, w.1, w.2) && days_since_epoch(w.0, w.1, w.2) == n);
    let t = date_of_day(n);
    assert(is_valid_date(t.0, t.1, t.2) && days_since_epoch(t.0, t.1, t.2) == n);
    lemma_days_since_epoch_injective(t.0, t.1, t.2, y, m, d);
}

/// Converting a supported date to its day count and back gives the same date.
pub proof fn lemma_date_day_round_trip(y: int, m: int, d: int)
    requires
        is_valid_date(y, m, d),
    ensures
        date_of_day(days_since_epoch(y, m, d)) == (y, m, d),
{
    lemma_date_of_day_is(days_since_epoch(y, m, d), y, m, d);
}

/// Every day count from 0 to `DAY_MAX` has a supported date, and converting
/// that date back gives the same count.
pub proof fn lemma_day_date_round_trip(n: int)
    requires
        0 <= n <= DAY_MAX,
    ensures
        ({
            let t = date_of_day(n);
            is_valid_date(t.0, t.1, t.2) && days_since_epoch(t.0, t.1, t.2) == n
        }),
{
    let z = n + epoch_shift();
    lemma_fundamental_div_mod(z, 146097);
    let era = z / 146097;
    let doe = z % 146097;
    lemma_year_of_era(doe);
    let yoe = (doe - doe / 1460 + doe / 36524 - doe / 146096) / 365;
    let doy = doe - era_year_start(yoe);
    let mp = (5 * doy + 2) / 153;
    let ya = 400 * era + yoe;
    let y = if mp >= 10 {
        ya + 1
    } else {
        ya
    };
    lemma_leap_period(yoe + 1, era);
    lemma_month_of_day(doy, y);
    let d = doy - (153 * mp + 2) / 5 + 1;
    let m = if mp < 10 {
        mp + 3
    } else {
        mp - 9
    };
    lemma_days_since_epoch_march(y, m, d);
    lemma_era_split(era, yoe);
    assert(march_year(y, m) == ya);
    lemma_valid_iff_day_in_range(y, m, d);
    lemma_date_of_day_is(n, y, m, d);
}

} // verus!
