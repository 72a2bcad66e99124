//! Proleptic Gregorian calendar arithmetic on days and seconds since the
//! Unix epoch (1970-01-01T00:00:00).

use vstd::prelude::*;
use vstd::arithmetic::div_mod::{
    lemma_fundamental_div_mod, lemma_fundamental_div_mod_converse, lemma_mod_multiples_vanish,
};

verus! {

/// A year is a leap year when it is divisible by 4, except for years
/// divisible by 100 that are not divisible by 400.
pub open spec fn is_leap_year(y: int) -> bool {
    y % 4 == 0 && (y % 100 != 0 || y % 400 == 0)
}

pub open spec fn days_in_year(y: int) -> int {
    if is_leap_year(y) {
        366
    } else {
        365
    }
}

pub open spec fn days_in_month(y: int, m: int) -> int {
    if m == 2 {
        if is_leap_year(y) {
            29
        } else {
            28
        }
    } else if m == 4 || m == 6 || m == 9 || m == 11 {
        30
    } else {
        31
    }
}

/// Days from 1970-01-01 to the first day of year `y` (negative for years
/// before 1970).
pub open spec fn days_to_year(y: int) -> int
    decreases vstd::math::abs(y - 1970),
{
    if y == 1970 {
        0
    } else if y > 1970 {
        days_to_year(y - 1) + days_in_year(y - 1)
    } else {
        days_to_year(y + 1) - days_in_year(y)
    }
}

/// Days from the first day of year `y` to the first day of its month `m`.
pub open spec fn days_to_month(y: int, m: int) -> int
    decreases m,
{
    if m <= 1 {
        0
    } else {
        days_to_month(y, m - 1) + days_in_month(y, m - 1)
    }
}

pub open spec fn valid_date(y: int, m: int, d: int) -> bool {
    1 <= m <= 12 && 1 <= d <= days_in_month(y, m)
}

/// The number of days from 1970-01-01 to the civil date `y`-`m`-`d`.
pub open spec fn days_from_civil(y: int, m: int, d: int) -> int {
    days_to_year(y) + days_to_month(y, m) + d - 1
}

pub proof fn lemma_days_to_year_succ(y: int)
    ensures
        days_to_year(y + 1) == days_to_year(y) + days_in_year(y),
{
}

/// Between two year boundaries there lie at least 365 and at most 366 days
/// per year; in particular `days_to_year` is strictly increasing.
pub proof fn lemma_days_to_year_range(y1: int, y2: int)
    requires
        y1 <= y2,
    ensures
        365 * (y2 - y1) <= days_to_year(y2) - days_to_year(y1) <= 366 * (y2 - y1),
    decreases y2 - y1,
{
    if y1 < y2 {
        lemma_days_to_year_range(y1, y2 - 1);
        lemma_days_to_year_succ(y2 - 1);
    }
}

/// Between two month boundaries of one year there lie at least 28 and at
/// most 31 days per month; in particular `days_to_month` is increasing.
pub proof fn lemma_days_to_month_range(y: int, m1: int, m2: int)
    requires
        1 <= m1 <= m2,
    ensures
        28 * (m2 - m1) <= days_to_month(y, m2) - days_to_month(y, m1) <= 31 * (m2 - m1),
    decreases m2 - m1,
{
    if m1 < m2 {
        lemma_days_to_month_range(y, m1, m2 - 1);
    }
}

/// The twelve months of year `y` together cover exactly the days of `y`.
pub proof fn lemma_months_fill_year(y: int)
    ensures
        days_to_month(y, 13) == days_in_year(y),
{
    reveal_with_fuel(days_to_month, 13);
}

/// Largest day count (in absolute value) from the epoch that the calendar
/// conversion accepts; it comfortably covers every instant the clock
/// wrappers can produce.
pub const MAX_EPOCH_DAYS_ABS: i64 = 100_000_000;

/// Largest year (in absolute value) that a day count within
/// `MAX_EPOCH_DAYS_ABS` can fall in.
pub const MAX_YEAR_ABS: i64 = 300_000;

fn is_leap_year_exec(y: i64) -> (r: bool)
    requires
        -1_000_000 <= y <= 1_000_000,
    ensures
        r == is_leap_year(y as int),
{
    let shifted: u64 = (y + 2_000_000) as u64;
    proof {
        lemma_mod_multiples_vanish(500_000, y as int, 4);
        lemma_mod_multiples_vanish(20_000, y as int, 100);
        lemma_mod_multiples_vanish(5_000, y as int, 400);
    }
    shifted % 4 == 0 && (shifted % 100 != 0 || shifted % 400 == 0)
}

fn days_in_year_exec(y: i64) -> (r: u16)
    requires
        -1_000_000 <= y <= 1_000_000,
    ensures
        r as int == days_in_year(y as int),
{
    if is_leap_year_exec(y) {
        366
    } else {
        365
    }
}

fn days_in_month_exec(y: i64, m: u8) -> (r: u8)
    requires
        -1_000_000 <= y <= 1_000_000,
        1 <= m <= 12,
    ensures
        r as int == days_in_month(y as int, m as int),
{
    if m == 2 {
        if is_leap_year_exec(y) {
            29
        } else {
            28
        }
    } else if m == 4 || m == 6 || m == 9 || m == 11 {
        30
    } else {
        31
    }
}

/// Converts a day count since 1970-01-01 to the unique civil date with that
/// day count.
pub fn civil_from_days(days: i64) -> (r: (i64, u8, u8))
    requires
        -MAX_EPOCH_DAYS_ABS <= days <= MAX_EPOCH_DAYS_ABS,
    ensures
        valid_date(r.0 as int, r.1 as int, r.2 as int),
        days_from_civil(r.0 as int, r.1 as int, r.2 as int) == days as int,
        -MAX_YEAR_ABS <= r.0 <= MAX_YEAR_ABS,
{
    let mut y: i64 = 1970;
    let mut rem: i64 = days;
    while rem < 0
        invariant
            -MAX_EPOCH_DAYS_ABS <= days <= MAX_EPOCH_DAYS_ABS,
            days_to_year(y as int) + rem as int == days as int,
            -272_003 <= y <= 1970,
            y < 1970 ==> rem < 366,
            rem >= -MAX_EPOCH_DAYS_ABS,
        decreases y + 272_003,
    {
        proof {
            lemma_days_to_year_range(y as int, 1970);
            // days_to_year(y) == days - rem > days >= -MAX_EPOCH_DAYS_ABS, so
            // 365 * (1970 - y) <= -days_to_year(y) < MAX_EPOCH_DAYS_ABS.
            assert(y >= -272_002);
            lemma_days_to_year_succ(y as int - 1);
        }
        y = y - 1;
        rem = rem + days_in_year_exec(y) as i64;
    }
    let mut diy: u16 = days_in_year_exec(y);
    while rem >= diy as i64
        invariant
            -MAX_EPOCH_DAYS_ABS <= days <= MAX_EPOCH_DAYS_ABS,
            days_to_year(y as int) + rem as int == days as int,
            diy as int == days_in_year(y as int),
            rem >= 0,
            -MAX_YEAR_ABS < y <= MAX_YEAR_ABS,
        decreases rem,
    {
        proof {
            lemma_days_to_year_succ(y as int);
        }
        rem = rem - diy as i64;
        y = y + 1;
        diy = days_in_year_exec(y);
        proof {
            if y > 1970 {
                lemma_days_to_year_range(1970, y as int);
                assert(y <= MAX_YEAR_ABS);
            }
        }
    }
    let mut m: u8 = 1;
    let mut dim: u8 = days_in_month_exec(y, m);
    while rem >= dim as i64
        invariant
            1 <= m <= 12,
            dim as int == days_in_month(y as int, m as int),
            days_to_year(y as int) + days_to_month(y as int, m as int) + rem as int == days as int,
            rem >= 0,
            days_to_month(y as int, m as int) + rem < days_in_year(y as int),
            -MAX_YEAR_ABS < y <= MAX_YEAR_ABS,
        decreases rem,
    {
        proof {
            if m == 12 {
                lemma_months_fill_year(y as int);
                assert(days_to_month(y as int, 13int) == days_to_month(y as int, 12int)
                    + days_in_month(y as int, 12int));
                assert(false);
            }
        }
        rem = rem - dim as i64;
        m = m + 1;
        dim = days_in_month_exec(y, m);
    }
    let d: u8 = (rem + 1) as u8;
    (y, m, d)
}

/// Largest instant (in seconds from the epoch, in absolute value) that the
/// calendar conversion accepts.
pub const MAX_LOCAL_SECONDS_ABS: i64 = 8_100_000_000_000;

/// A civil (wall-clock) date and time: the fields a resident of some
/// timezone reads off a calendar and a 24-hour clock.
#[derive(Clone, Copy, PartialEq, Eq, Structural, Debug)]
pub struct CivilTime {
    pub year: i64,
    pub month: u8,
    pub day: u8,
    pub hour: u8,
    pub minute: u8,
    pub second: u8,
}

impl CivilTime {
    /// The fields form a real calendar date and clock time in the supported
    /// year range.
    pub open spec fn wf(self) -> bool {
        &&& valid_date(self.year as int, self.month as int, self.day as int)
        &&& -MAX_YEAR_ABS <= self.year <= MAX_YEAR_ABS
        &&& 0 <= self.hour < 24
        &&& 0 <= self.minute < 60
        &&& 0 <= self.second < 60
    }

    /// The instant (seconds from the epoch) at which a clock in some zone
    /// shows this civil time, minus that zone's offset.
    pub open spec fn instant(self) -> int {
        days_from_civil(self.year as int, self.month as int, self.day as int) * 86400
            + self.hour as int * 3600 + self.minute as int * 60 + self.second as int
    }
}

/// The civil time that a local second count from the epoch denotes.
pub open spec fn civil_at(local: int) -> CivilTime {
    choose|c: CivilTime| c.wf() && c.instant() == local
}

/// For a valid date, the day-of-year offset lies within the year.
proof fn lemma_day_of_year_bounds(y: int, m: int, d: int)
    requires
        valid_date(y, m, d),
    ensures
        0 <= days_to_month(y, m) + d - 1 < days_in_year(y),
{
    lemma_days_to_month_range(y, 1, m);
    assert(days_to_month(y, m + 1) == days_to_month(y, m) + days_in_month(y, m));
    lemma_days_to_month_range(y, m + 1, 13);
    lemma_months_fill_year(y);
}

/// Law: a well-formed civil time is determined by its instant — two civil
/// times that denote the same second are equal.
pub proof fn lemma_civil_unique(a: CivilTime, b: CivilTime)
    requires
        a.wf(),
        b.wf(),
        a.instant() == b.instant(),
    ensures
        a == b,
{
    let da = days_from_civil(a.year as int, a.month as int, a.day as int);
    let db = days_from_civil(b.year as int, b.month as int, b.day as int);
    let sa = a.hour as int * 3600 + a.minute as int * 60 + a.second as int;
    let sb = b.hour as int * 3600 + b.minute as int * 60 + b.second as int;
    lemma_fundamental_div_mod_converse(a.instant(), 86400, da, sa);
    lemma_fundamental_div_mod_converse(b.instant(), 86400, db, sb);
    assert(da == db && sa == sb);
    lemma_fundamental_div_mod_converse(sa, 3600, a.hour as int, a.minute as int * 60 + a.second as int);
    lemma_fundamental_div_mod_converse(sb, 3600, b.hour as int, b.minute as int * 60 + b.second as int);
    lemma_fundamental_div_mod_converse(a.minute as int * 60 + a.second as int, 60, a.minute as int, a.second as int);
    lemma_fundamental_div_mod_converse(b.minute as int * 60 + b.second as int, 60, b.minute as int, b.second as int);
    assert(a.hour == b.hour && a.minute == b.minute && a.second == b.second);
    lemma_day_of_year_bounds(a.year as int, a.month as int, a.day as int);
    lemma_day_of_year_bounds(b.year as int, b.month as int, b.day as int);
    lemma_days_to_year_succ(a.year as int);
    lemma_days_to_year_succ(b.year as int);
    if a.year < b.year {
        lemma_days_to_year_range(a.year as int + 1, b.year as int);
        assert(false);
    }
    if b.year < a.year {
        lemma_days_to_year_range(b.year as int + 1, a.year as int);
        assert(false);
    }
    let doy = da - days_to_year(a.year as int);
    assert(days_to_month(a.year as int, a.month as int + 1)
        == days_to_month(a.year as int, a.month as int)
        + days_in_month(a.year as int, a.month as int));
    assert(days_to_month(b.year as int, b.month as int + 1)
        == days_to_month(b.year as int, b.month as int)
        + days_in_month(b.year as int, b.month as int));
    if a.month < b.month {
        lemma_days_to_month_range(a.year as int, a.month as int + 1, b.month as int);
        assert(false);
    }
    if b.month < a.month {
        lemma_days_to_month_range(a.year as int, b.month as int + 1, a.month as int);
        assert(false);
    }
    assert(a.day == b.day);
}

/// Finds, walking forward from year `y`, the year whose days contain day
/// count `days`.
proof fn lemma_find_year_up(y: int, days: int) -> (r: int)
    requires
        days_to_year(y) <= days <= MAX_EPOCH_DAYS_ABS as int,
        -MAX_YEAR_ABS < y <= MAX_YEAR_ABS,
    ensures
        days_to_year(r) <= days < days_to_year(r + 1),
        -MAX_YEAR_ABS < r <= MAX_YEAR_ABS,
    decreases days - days_to_year(y),
{
    lemma_days_to_year_succ(y);
    if days < days_to_year(y + 1) {
        y
    } else {
        if y + 1 >= 1970 {
            lemma_days_to_year_range(1970, y + 1);
        }
        assert(y + 1 <= MAX_YEAR_ABS as int);
        lemma_find_year_up(y + 1, days)
    }
}

/// Finds, walking backward from 1970, the year whose days contain a
/// negative day count `days`.
proof fn lemma_find_year_down(y: int, days: int) -> (r: int)
    requires
        -MAX_EPOCH_DAYS_ABS as int <= days < days_to_year(y + 1),
        y <= 1970,
        -MAX_YEAR_ABS < y,
    ensures
        days_to_year(r) <= days < days_to_year(r + 1),
        -MAX_YEAR_ABS < r <= 1970,
    decreases y + MAX_YEAR_ABS as int,
{
    lemma_days_to_year_succ(y);
    if days_to_year(y) <= days {
        y
    } else {
        lemma_days_to_year_range(y, 1970);
        lemma_find_year_down(y - 1, days)
    }
}

/// Finds the month of year `y` whose days contain day-of-year `doy`.
proof fn lemma_find_month(y: int, m: int, doy: int) -> (r: int)
    requires
        1 <= m <= 12,
        days_to_month(y, m) <= doy < days_in_year(y),
    ensures
        1 <= r <= 12,
        days_to_month(y, r) <= doy < days_to_month(y, r + 1),
    decreases 13 - m,
{
    assert(days_to_month(y, m + 1) == days_to_month(y, m) + days_in_month(y, m));
    if doy < days_to_month(y, m + 1) {
        m
    } else {
        lemma_months_fill_year(y);
        assert(days_to_month(y, 13) == days_to_month(y, 12) + days_in_month(y, 12));
        assert(m < 12);
        lemma_find_month(y, m + 1, doy)
    }
}

/// Law: every in-range second count denotes a well-formed civil time, so
/// together with `lemma_civil_unique` the civil time of an instant is
/// well-defined and `civil_at` yields it.
pub proof fn lemma_civil_total(local: int)
    requires
        -MAX_LOCAL_SECONDS_ABS as int <= local <= MAX_LOCAL_SECONDS_ABS as int,
    ensures
        civil_at(local).wf(),
        civil_at(local).instant() == local,
{
    lemma_fundamental_div_mod(local, 86400);
    let days = local / 86400;
    let sod = local % 86400;
    assert(0 <= sod < 86400);
    assert(-MAX_EPOCH_DAYS_ABS as int <= days <= MAX_EPOCH_DAYS_ABS as int);
    let y = if days >= 0 {
        lemma_find_year_up(1970, days)
    } else {
        lemma_days_to_year_succ(1970);
        lemma_find_year_down(1970, days)
    };
    lemma_days_to_year_succ(y);
    let doy = days - days_to_year(y);
    assert(0 <= doy < days_in_year(y));
    let m = lemma_find_month(y, 1, doy);
    assert(days_to_month(y, m + 1) == days_to_month(y, m) + days_in_month(y, m));
    let d = doy - days_to_month(y, m) + 1;
    lemma_fundamental_div_mod(sod, 3600);
    let rest = sod % 3600;
    lemma_fundamental_div_mod(rest, 60);
    let c = CivilTime {
        year: y as i64,
        month: m as u8,
        day: d as u8,
        hour: (sod / 3600) as u8,
        minute: (rest / 60) as u8,
        second: (rest % 60) as u8,
    };
    assert(c.wf() && c.instant() == local);
    lemma_civil_unique(c, civil_at(local));
}

/// Splits a local second count into the civil time it denotes.
pub fn civil_of_instant(local: i64) -> (c: CivilTime)
    requires
        -MAX_LOCAL_SECONDS_ABS <= local <= MAX_LOCAL_SECONDS_ABS,
    ensures
        c.wf(),
        c.instant() == local as int,
        c == civil_at(local as int),
{
    // Shift by a whole number of days so that division and remainder act on
    // nonnegative values; 8_640_000_000_000 is 100_000_000 days.
    let shifted: u64 = (local + 8_640_000_000_000) as u64;
    let day0: u64 = shifted / 86400;
    let sod: u64 = shifted % 86400;
    proof {
        lemma_fundamental_div_mod(shifted as int, 86400);
    }
    let days: i64 = (day0 as i64) - 100_000_000;
    assert(days as int * 86400 + sod as int == local as int);
    let (y, m, d) = civil_from_days(days);
    let hour: u8 = (sod / 3600) as u8;
    let rest: u64 = sod % 3600;
    let minute: u8 = (rest / 60) as u8;
    let second: u8 = (rest % 60) as u8;
    proof {
        lemma_fundamental_div_mod(sod as int, 3600);
        lemma_fundamental_div_mod(rest as int, 60);
    }
    let c = CivilTime { year: y, month: m, day: d, hour, minute, second };
    proof {
        assert(c.wf() && c.instant() == local as int);
        lemma_civil_unique(c, civil_at(local as int));
    }
    c
}

} // verus!
