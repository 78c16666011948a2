//! The proleptic Gregorian calendar and Unix time.
use vstd::arithmetic::div_mod;
use vstd::prelude::*;

verus! {

/// Whether year `y` has a 29 February.
pub open spec fn leap(y: int) -> bool {
    y % 4 == 0 && (y % 100 != 0 || y % 400 == 0)
}

/// The number of days of month `m` in year `y`.
pub open spec fn days_in_month(y: int, m: int) -> int {
    if m == 2 {
        if leap(y) {
            29
        } else {
            28
        }
    } else if m == 4 || m == 6 || m == 9 || m == 11 {
        30
    } else {
        31
    }
}

/// Whether there is such a day.
pub open spec fn valid_date(y: int, m: int, d: int) -> bool {
    1 <= m <= 12 && 1 <= d <= days_in_month(y, m)
}

/// The number of leap years from year 0 up to the end of year `y - 1`
/// (counted negatively where `y` is negative).
pub open spec fn leaps_before(y: int) -> int {
    (y + 3) / 4 - (y + 99) / 100 + (y + 399) / 400
}

/// The days of year `y` before month `m`.
pub open spec fn days_before_month(y: int, m: int) -> int
    decreases m,
{
    if m <= 1 {
        0
    } else {
        days_before_month(y, m - 1) + days_in_month(y, m - 1)
    }
}

/// The days from 1 January 1970 to the given day.
pub open spec fn epoch_days(y: int, m: int, d: int) -> int {
    365 * y + leaps_before(y) + days_before_month(y, m) + d - 1 - 719_528
}

/// The day after the given one.
pub open spec fn next_day(y: int, m: int, d: int) -> (int, int, int) {
    if d < days_in_month(y, m) {
        (y, m, d + 1)
    } else if m < 12 {
        (y, m + 1, 1)
    } else {
        (y + 1, 1, 1)
    }
}

/// The year that begins in March and holds month `mo` of year `y`. The month
/// 0 counts as the December before.
pub open spec fn march_year(y: int, mo: int) -> int {
    if mo <= 2 {
        y - 1
    } else {
        y
    }
}

/// The months from March to month `mo`.
pub open spec fn march_month(mo: int) -> int {
    if mo > 2 {
        mo - 3
    } else {
        mo + 9
    }
}

/// The days from 1 March to the first day of the month that is `mp` months
/// later, in the pattern 31, 30, 31, 30, 31 that repeats every five months.
pub open spec fn march_days(mp: int) -> int {
    (153 * mp + 2) / 5
}

/// The days from 1 January 1970 to day `d` of month `mo` of year `y`. Days
/// past the end of a month run on into the next, and months past December go
/// on in the five-month pattern.
pub open spec fn civil_days(y: int, mo: int, d: int) -> int {
    let my = march_year(y, mo);
    365 * my + my / 4 - my / 100 + my / 400 + march_days(march_month(mo)) + d - 1 - 719_468
}

/// The seconds from the start of 1970 to the given moment.
pub open spec fn civil_secs(y: int, mo: int, d: int, h: int, mi: int, s: int) -> int {
    civil_days(y, mo, d) * 86_400 + h * 3600 + mi * 60 + s
}

/// Whether the day count of the given day stays within 32-bit numbers: the
/// year as a signed one, the month and day offsets as unsigned ones.
pub open spec fn civil_fits(y: int, mo: int, d: int) -> bool {
    let my = march_year(y, mo);
    let mp = march_month(mo);
    let day_of_year = march_days(mp) + d - 1;
    let yoe = my % 400;
    &&& my >= i32::MIN
    &&& my < 0 ==> my - 399 >= i32::MIN
    &&& 153 * mp + 2 <= u32::MAX
    &&& march_days(mp) + d <= u32::MAX
    &&& day_of_year >= 0
    &&& 365 * yoe + yoe / 4 - yoe / 100 + day_of_year <= u32::MAX
}

// ── Laws ────────────────────────────────────────────────────────────────────

/// The cumulated month lengths.
proof fn lemma_month_table(y: int)
    ensures
        days_before_month(y, 1) == 0,
        days_before_month(y, 2) == 31,
        forall|m: int|
            3 <= m <= 12 ==> #[trigger] days_before_month(y, m) == 59 + march_days(m - 3) + (if leap(
                y,
            ) {
                1int
            } else {
                0
            }),
{
    reveal_with_fuel(days_before_month, 13);
    assert forall|m: int| 3 <= m <= 12 implies #[trigger] days_before_month(y, m) == 59
        + march_days(m - 3) + (if leap(y) {
        1int
    } else {
        0
    }) by {
        if m == 3 {
        } else if m == 4 {
        } else if m == 5 {
        } else if m == 6 {
        } else if m == 7 {
        } else if m == 8 {
        } else if m == 9 {
        } else if m == 10 {
        } else if m == 11 {
        } else {
        }
    }
}

/// Leap years up to the end of a year, and up to its start.
proof fn lemma_leaps_step(y: int)
    ensures
        leaps_before(y + 1) == y / 4 - y / 100 + y / 400 + 1,
        leaps_before(y + 1) == leaps_before(y) + (if leap(y) {
            1int
        } else {
            0
        }),
{
    assert((y + 4) / 4 == y / 4 + 1);
    assert((y + 100) / 100 == y / 100 + 1);
    assert((y + 400) / 400 == y / 400 + 1);
    assert((y + 3) / 4 == y / 4 + (if y % 4 == 0 {
        0int
    } else {
        1
    }));
    assert((y + 99) / 100 == y / 100 + (if y % 100 == 0 {
        0int
    } else {
        1
    }));
    assert((y + 399) / 400 == y / 400 + (if y % 400 == 0 {
        0int
    } else {
        1
    }));
    assert(y % 400 == 0 ==> y % 100 == 0);
    assert(y % 100 == 0 ==> y % 4 == 0);
}

/// The count of days from March agrees with the calendar on every day that
/// there is.
pub proof fn law_civil_days(y: int, m: int, d: int)
    requires
        valid_date(y, m, d),
    ensures
        civil_days(y, m, d) == epoch_days(y, m, d),
{
    lemma_month_table(y);
    lemma_leaps_step(y);
    lemma_leaps_step(y - 1);
}

/// The first of January 1970 is day 0.
pub proof fn law_epoch()
    ensures
        epoch_days(1970, 1, 1) == 0,
{
}

/// Each day is one further from the epoch than the day before.
pub proof fn law_next_day(y: int, m: int, d: int)
    requires
        valid_date(y, m, d),
    ensures
        ({
            let n = next_day(y, m, d);
            valid_date(n.0, n.1, n.2) && epoch_days(n.0, n.1, n.2) == epoch_days(y, m, d) + 1
        }),
{
    reveal_with_fuel(days_before_month, 2);
    if !(d < days_in_month(y, m)) && m == 12 {
        lemma_month_table(y);
        lemma_leaps_step(y);
        assert(days_before_month(y + 1, 1) == 0);
    }
}

/// Whether one day comes before another.
pub open spec fn earlier(y1: int, m1: int, d1: int, y2: int, m2: int, d2: int) -> bool {
    y1 < y2 || (y1 == y2 && (m1 < m2 || (m1 == m2 && d1 < d2)))
}

proof fn lemma_year_bounds(y: int, m: int, d: int)
    requires
        valid_date(y, m, d),
    ensures
        epoch_days(y, 1, 1) <= epoch_days(y, m, d) < epoch_days(y + 1, 1, 1),
{
    lemma_month_table(y);
    lemma_leaps_step(y);
    assert(days_before_month(y, 1) == 0);
    assert(days_before_month(y + 1, 1) == 0);
    if m >= 3 {
        assert(days_before_month(y, m) == 59 + march_days(m - 3) + (if leap(y) {
            1int
        } else {
            0
        }));
    }
}

proof fn lemma_years_grow(y1: int, y2: int)
    requires
        y1 <= y2,
    ensures
        epoch_days(y1, 1, 1) <= epoch_days(y2, 1, 1),
    decreases y2 - y1,
{
    if y1 < y2 {
        lemma_years_grow(y1, y2 - 1);
        lemma_year_bounds(y2 - 1, 1, 1);
    }
}

/// Later days have the greater day count.
pub proof fn law_days_grow(y1: int, m1: int, d1: int, y2: int, m2: int, d2: int)
    requires
        valid_date(y1, m1, d1),
        valid_date(y2, m2, d2),
        earlier(y1, m1, d1, y2, m2, d2),
    ensures
        epoch_days(y1, m1, d1) < epoch_days(y2, m2, d2),
{
    if y1 < y2 {
        lemma_year_bounds(y1, m1, d1);
        lemma_year_bounds(y2, m2, d2);
        lemma_years_grow(y1 + 1, y2);
    } else if m1 < m2 {
        lemma_months_grow(y1, m1, m2);
    }
}

proof fn lemma_months_grow(y: int, m1: int, m2: int)
    requires
        1 <= m1 < m2 <= 12,
    ensures
        days_before_month(y, m1) + days_in_month(y, m1) <= days_before_month(y, m2),
    decreases m2,
{
    if m1 < m2 - 1 {
        lemma_months_grow(y, m1, m2 - 1);
    }
}

/// No two days have the same day count.
pub proof fn law_date_unique(y1: int, m1: int, d1: int, y2: int, m2: int, d2: int)
    requires
        valid_date(y1, m1, d1),
        valid_date(y2, m2, d2),
        epoch_days(y1, m1, d1) == epoch_days(y2, m2, d2),
    ensures
        y1 == y2,
        m1 == m2,
        d1 == d2,
{
    if earlier(y1, m1, d1, y2, m2, d2) {
        law_days_grow(y1, m1, d1, y2, m2, d2);
    } else if earlier(y2, m2, d2, y1, m1, d1) {
        law_days_grow(y2, m2, d2, y1, m1, d1);
    }
}

// ── Conversions ─────────────────────────────────────────────────────────────

/// The year within a 400-year era that holds its day `doe`, where years
/// begin in March.
proof fn lemma_year_of_era(doe: int, yoe: int)
    requires
        0 <= doe <= 146_096,
        yoe == (doe - doe / 1460 + doe / 36524 - doe / 146_096) / 365,
    ensures
        0 <= yoe <= 399,
        0 <= doe - (365 * yoe + yoe / 4 - yoe / 100) <= 365,
        doe - (365 * yoe + yoe / 4 - yoe / 100) == 365 ==> leap(yoe + 1),
{
}

/// The March-based year `yoe` of era `era`.
proof fn lemma_era_year(era: int, yoe: int)
    requires
        0 <= yoe <= 399,
    ensures
        ({
            let my = yoe + era * 400;
            &&& my / 400 == era
            &&& my / 100 == 4 * era + yoe / 100
            &&& my / 4 == 100 * era + yoe / 4
            &&& leap(my + 1) == leap(yoe + 1)
        }),
{
    div_mod::lemma_hoist_over_denominator(yoe, era, 400);
    div_mod::lemma_hoist_over_denominator(yoe, 4 * era, 100);
    div_mod::lemma_hoist_over_denominator(yoe, 100 * era, 4);
    div_mod::lemma_mod_multiples_vanish(era, yoe + 1, 400);
    div_mod::lemma_mod_multiples_vanish(4 * era, yoe + 1, 100);
    div_mod::lemma_mod_multiples_vanish(100 * era, yoe + 1, 4);
}

/// The month and day of day `doy` of a March-based year.
proof fn lemma_month_of_year(doy: int, mp: int, d: int, m: int, y: int)
    requires
        0 <= doy <= 365,
        doy == 365 ==> leap(y),
        mp == (5 * doy + 2) / 153,
        d == doy - (153 * mp + 2) / 5 + 1,
        m == (if mp < 10 {
            mp + 3
        } else {
            mp - 9
        }),
    ensures
        0 <= mp <= 11,
        valid_date(y, m, d),
        march_month(m) == mp,
        march_days(mp) + d - 1 == doy,
{
    if mp == 0 {
    } else if mp == 1 {
    } else if mp == 2 {
    } else if mp == 3 {
    } else if mp == 4 {
    } else if mp == 5 {
    } else if mp == 6 {
    } else if mp == 7 {
    } else if mp == 8 {
    } else if mp == 9 {
    } else if mp == 10 {
    } else {
    }
}

/// Splits the days since the epoch into year, month and day.
proof fn lemma_split_days(days: int, era: int, doe: int, yoe: int, doy: int, mp: int, d: int, m: int, y: int)
    requires
        days >= 0,
        era == (days + 719_468) / 146_097,
        doe == (days + 719_468) % 146_097,
        yoe == (doe - doe / 1460 + doe / 36524 - doe / 146_096) / 365,
        doy == doe - (365 * yoe + yoe / 4 - yoe / 100),
        mp == (5 * doy + 2) / 153,
        d == doy - (153 * mp + 2) / 5 + 1,
        m == (if mp < 10 {
            mp + 3
        } else {
            mp - 9
        }),
        y == yoe + era * 400 + (if m <= 2 {
            1int
        } else {
            0
        }),
    ensures
        valid_date(y, m, d),
        epoch_days(y, m, d) == days,
{
    lemma_year_of_era(doe, yoe);
    lemma_era_year(era, yoe);
    let my = yoe + era * 400;
    if doy == 365 {
        lemma_month_of_year(doy, mp, d, m, my + 1);
    } else {
        lemma_month_of_year(doy, mp, d, m, y);
    }
    assert(march_year(y, m) == my);
    assert(civil_days(y, m, d) == days);
    law_civil_days(y, m, d);
}

/// The time of day depends on the seconds of the day alone.
proof fn lemma_time_of_day(t: int)
    ensures
        t % 86_400 % 3600 == t % 3600,
        t % 86_400 % 60 == t % 60,
{
    let q = t / 86_400;
    let r = t % 86_400;
    div_mod::lemma_mod_multiples_vanish(24 * q, r, 3600);
    div_mod::lemma_mod_multiples_vanish(1440 * q, r, 60);
}

/// Year, month, day, hour, minute and second of the given second, in UTC.
///
/// A negative number of seconds counts as zero. The year is given in its low
/// 32 bits, which is the year itself for some two thousand million years.
pub fn unix_secs_to_utc_parts(secs: i64) -> (r: (i32, u32, u32, u32, u32, u32))
    ensures
        ({
            let t: int = if secs < 0 {
                0
            } else {
                secs as int
            };
            &&& exists|y: i64|
                r.0 == #[trigger] (y as i32) && valid_date(y as int, r.1 as int, r.2 as int)
                    && epoch_days(y as int, r.1 as int, r.2 as int) == t / 86_400
            &&& r.3 == t % 86_400 / 3600
            &&& r.4 == t % 3600 / 60
            &&& r.5 == t % 60
        }),
{
    let t: u64 = if secs < 0 { 0 } else { secs as u64 };
    let days: u64 = t / 86_400;
    let day_secs: u64 = t % 86_400;
    let hour: u32 = (day_secs / 3600) as u32;
    let min: u32 = ((day_secs % 3600) / 60) as u32;
    let sec: u32 = (day_secs % 60) as u32;

    proof {
        lemma_time_of_day(t as int);
    }

    let z: u64 = days + 719_468;
    let era: u64 = z / 146_097;
    let doe: u64 = z % 146_097;
    proof {
        lemma_year_of_era(
            doe as int,
            (doe as int - doe as int / 1460 + doe as int / 36524 - doe as int / 146_096) / 365,
        );
    }
    let yoe: u64 = (doe - doe / 1460 + doe / 36524 - doe / 146_096) / 365;
    let doy: u64 = doe - (365 * yoe + yoe / 4 - yoe / 100);
    let mp: u64 = (5 * doy + 2) / 153;
    let d: u64 = doy - (153 * mp + 2) / 5 + 1;
    let m: u64 = if mp < 10 { mp + 3 } else { mp - 9 };
    let base: u64 = yoe + era * 400;
    let y: i64 = if m <= 2 { (base + 1) as i64 } else { base as i64 };
    proof {
        lemma_split_days(
            days as int,
            era as int,
            doe as int,
            yoe as int,
            doy as int,
            mp as int,
            d as int,
            m as int,
            y as int,
        );
    }
    let year: i32 = #[verifier::truncate]
    (y as i32);
    assert(year == y as i32 && valid_date(y as int, m as int, d as int));
    (year, m as u32, d as u32, hour, min, sec)
}

/// Whether the day count of the given day stays within 32-bit numbers.
pub fn civil_in_range(y: i32, mo: u32, d: u32) -> (r: bool)
    ensures
        r == civil_fits(y as int, mo as int, d as int),
{
    let my: i64 = if mo <= 2 { y as i64 - 1 } else { y as i64 };
    let mp: u64 = if mo > 2 { mo as u64 - 3 } else { mo as u64 + 9 };
    if my < i32::MIN as i64 || (my < 0 && my - 399 < i32::MIN as i64) {
        return false;
    }
    if 153 * mp + 2 > u32::MAX as u64 {
        return false;
    }
    let to_month: u64 = (153 * mp + 2) / 5;
    if to_month + d as u64 > u32::MAX as u64 || to_month + (d as u64) < 1 {
        return false;
    }
    let yoe: u64 = (my + 2_147_484_000) as u64 % 400;
    assert(yoe == my % 400);
    365 * yoe + yoe / 4 - yoe / 100 + (to_month + d as u64 - 1) <= u32::MAX as u64
}

/// The Unix time of a moment given in calendar terms.
pub fn civil_to_unix_secs(y: i32, mo: u32, d: u32, h: u32, mi: u32, s: u32) -> (r: i64)
    requires
        civil_fits(y as int, mo as int, d as int),
    ensures
        r == civil_secs(y as int, mo as int, d as int, h as int, mi as int, s as int),
        valid_date(y as int, mo as int, d as int) ==> r == epoch_days(
            y as int,
            mo as int,
            d as int,
        ) * 86_400 + h * 3600 + mi * 60 + s,
{
    let my: i32 = if mo <= 2 { y - 1 } else { y };
    let era: i64 = if my >= 0 {
        (my as u64 / 400) as i64
    } else {
        -(((399 - my as i64) as u64 / 400) as i64)
    };
    assert(era == my as int / 400);
    let yoe: u32 = (my as i64 - era * 400) as u32;
    assert(yoe == my as int % 400);
    let mp: u32 = if mo > 2 { mo - 3 } else { mo + 9 };
    let doy: u32 = (153 * mp + 2) / 5 + d - 1;
    let doe: u32 = yoe * 365 + yoe / 4 - yoe / 100 + doy;
    let days: i64 = era * 146_097 + doe as i64 - 719_468;
    proof {
        let yy = my as int;
        assert(yy / 100 == 4 * era + yoe as int / 100);
        assert(yy / 4 == 100 * era + yoe as int / 4);
        assert(days == civil_days(y as int, mo as int, d as int));
        if valid_date(y as int, mo as int, d as int) {
            law_civil_days(y as int, mo as int, d as int);
        }
    }
    days * 86_400 + h as i64 * 3600 + mi as i64 * 60 + s as i64
}

// ── The calendar in numbers ─────────────────────────────────────────────────

/// A day after another in the same month is one day further, the months have
/// 31 days, or 30, or February 28 and in a leap year 29, and a new year follows
/// December.
pub proof fn law_month_lengths(y: int, m: int, d: int)
    requires
        1 <= m <= 12,
    ensures
        epoch_days(y, m, d + 1) == epoch_days(y, m, d) + 1,
        m == 1 || m == 3 || m == 5 || m == 7 || m == 8 || m == 10 ==> epoch_days(y, m + 1, d)
            == epoch_days(y, m, d) + 31,
        m == 4 || m == 6 || m == 9 || m == 11 ==> epoch_days(y, m + 1, d) == epoch_days(y, m, d)
            + 30,
        m == 2 && y % 4 == 0 && (y % 100 != 0 || y % 400 == 0) ==> epoch_days(y, 3, d)
            == epoch_days(y, 2, d) + 29,
        m == 2 && (y % 4 != 0 || (y % 100 == 0 && y % 400 != 0)) ==> epoch_days(y, 3, d)
            == epoch_days(y, 2, d) + 28,
        m == 12 ==> epoch_days(y + 1, 1, d) == epoch_days(y, 12, d) + 31,
{
    reveal_with_fuel(days_before_month, 2);
    if m == 12 {
        lemma_month_table(y);
        lemma_leaps_step(y);
        assert(days_before_month(y + 1, 1) == 0);
    }
}

/// A day is one of its month's days, from the first on.
pub proof fn law_days_of_month(y: int, m: int, d: int)
    requires
        1 <= m <= 12,
    ensures
        m < 12 ==> (valid_date(y, m, d) <==> epoch_days(y, m, 1) <= epoch_days(y, m, d)
            < epoch_days(y, m + 1, 1)),
        m == 12 ==> (valid_date(y, m, d) <==> epoch_days(y, 12, 1) <= epoch_days(y, 12, d)
            < epoch_days(y + 1, 1, 1)),
{
    law_month_lengths(y, m, 1);
    reveal_with_fuel(days_before_month, 2);
}

/// A second, a minute, an hour and a day more are 1, 60, 3600 and 86400
/// seconds more, and the count begins with 1970.
pub proof fn law_civil_secs(y: int, mo: int, d: int, h: int, mi: int, s: int)
    ensures
        civil_secs(y, mo, d, h, mi, s + 1) == civil_secs(y, mo, d, h, mi, s) + 1,
        civil_secs(y, mo, d, h, mi + 1, s) == civil_secs(y, mo, d, h, mi, s) + 60,
        civil_secs(y, mo, d, h + 1, mi, s) == civil_secs(y, mo, d, h, mi, s) + 3600,
        civil_secs(y, mo, d + 1, h, mi, s) == civil_secs(y, mo, d, h, mi, s) + 86_400,
        civil_secs(1970, 1, 1, 0, 0, 0) == 0,
        valid_date(y, mo, d) ==> civil_secs(y, mo, d, 0, 0, 0) == epoch_days(y, mo, d) * 86_400,
{
    if valid_date(y, mo, d) {
        law_civil_days(y, mo, d);
    }
}

} // verus!
