//! The proleptic Gregorian calendar, counted in days since 1970-01-01.

use vstd::prelude::*;
use vstd::string::*;

use crate::text;

verus! {

/// Whether a year has a 29th of February.
pub open spec fn leap(y: int) -> bool {
    (y % 4 == 0 && y % 100 != 0) || y % 400 == 0
}

/// The number of days of a year.
pub open spec fn year_len(y: int) -> int {
    if leap(y) {
        366
    } else {
        365
    }
}

/// The number of days of a month (1 to 12).
pub open spec fn month_len(y: int, m: int) -> int {
    if m == 2 {
        if leap(y) {
            29
        } else {
            28
        }
    } else if m == 4 || m == 6 || m == 9 || m == 11 {
        30
    } else {
        31
    }
}

/// The number of days from 1970-01-01 to the first day of a later year.
pub open spec fn days_before(y: int) -> int
    decreases y - 1970,
{
    if y <= 1970 {
        0
    } else {
        days_before(y - 1) + year_len(y - 1)
    }
}

/// The number of days of a year before the first day of a month.
pub open spec fn days_before_month(y: int, m: int) -> int
    decreases m,
{
    if m <= 1 {
        0
    } else {
        days_before_month(y, m - 1) + month_len(y, m - 1)
    }
}

/// Whether `y`-`m`-`d` is the date that lies `days` days after 1970-01-01.
pub open spec fn is_date(days: int, y: int, m: int, d: int) -> bool {
    &&& y >= 1970
    &&& 1 <= m <= 12
    &&& 1 <= d <= month_len(y, m)
    &&& days == days_before(y) + days_before_month(y, m) + d - 1
}

/// How often the rule for leap years has applied up to and including a year.
pub open spec fn leaps_through(y: int) -> int {
    y / 4 - y / 100 + y / 400
}

pub proof fn lemma_days_before(y: int)
    requires
        y >= 1970,
    ensures
        days_before(y) == 365 * (y - 1970) + leaps_through(y - 1) - 477,
        days_before(y) >= 365 * (y - 1970),
    decreases y - 1970,
{
    if y > 1970 {
        lemma_days_before(y - 1);
        lemma_leap_step(y - 1);
    }
}

/// The twelve months make up the year.
pub proof fn lemma_months(y: int)
    ensures
        days_before_month(y, 13) == year_len(y),
{
    reveal_with_fuel(days_before_month, 14);
}

/// A day number has one date only.
pub proof fn lemma_date_unique(days: int, y1: int, m1: int, d1: int, y2: int, m2: int, d2: int)
    requires
        is_date(days, y1, m1, d1),
        is_date(days, y2, m2, d2),
    ensures
        y1 == y2,
        m1 == m2,
        d1 == d2,
{
    lemma_within_year(y1, m1, d1);
    lemma_within_year(y2, m2, d2);
    if y1 < y2 {
        lemma_days_before_mono(y1 + 1, y2);
    }
    if y2 < y1 {
        lemma_days_before_mono(y2 + 1, y1);
    }
    if m1 < m2 {
        lemma_days_before_month_mono(y1, m1 + 1, m2);
    }
    if m2 < m1 {
        lemma_days_before_month_mono(y1, m2 + 1, m1);
    }
}

proof fn lemma_days_before_mono(a: int, b: int)
    requires
        1970 <= a <= b,
    ensures
        days_before(a) <= days_before(b),
    decreases b - a,
{
    if a < b {
        lemma_days_before_mono(a, b - 1);
    }
}

proof fn lemma_days_before_month_mono(y: int, a: int, b: int)
    requires
        1 <= a <= b,
    ensures
        days_before_month(y, a) <= days_before_month(y, b),
    decreases b - a,
{
    if a < b {
        lemma_days_before_month_mono(y, a, b - 1);
    }
}

proof fn lemma_within_year(y: int, m: int, d: int)
    requires
        1 <= m <= 12,
        1 <= d <= month_len(y, m),
    ensures
        0 <= days_before_month(y, m) + d - 1 < year_len(y),
{
    lemma_days_before_month_mono(y, 1, m);
    lemma_days_before_month_mono(y, m + 1, 13);
    lemma_months(y);
}

/// Whether a year is a leap year.
pub fn is_leap(y: u64) -> (r: bool)
    ensures
        r == leap(y as int),
{
    (y % 4 == 0 && y % 100 != 0) || y % 400 == 0
}

/// The number of days of a month.
fn days_in_month(leap_year: bool, m: u64) -> (r: u64)
    requires
        1 <= m <= 12,
    ensures
        forall|y: int| #![trigger leap(y)] leap(y) == leap_year ==> r == month_len(y, m as int),
{
    if m == 2 {
        if leap_year {
            29
        } else {
            28
        }
    } else if m == 4 || m == 6 || m == 9 || m == 11 {
        30
    } else {
        31
    }
}

/// The date that lies a number of days after 1970-01-01.
pub fn days_to_ymd(days: u64) -> (r: (u64, u64, u64))
    ensures
        is_date(days as int, r.0 as int, r.1 as int, r.2 as int),
        r.0 <= 1970 + days / 365,
{
    let mut y: u64 = 1970;
    let mut remaining: u64 = days;
    let mut days_in_year: u64 = 365;
    while remaining >= days_in_year
        invariant
            y >= 1970,
            days_in_year == year_len(y as int),
            days == days_before(y as int) + remaining,
            y <= 1970 + days / 365,
        decreases remaining,
    {
        remaining = remaining - days_in_year;
        y = y + 1;
        days_in_year = if is_leap(y) {
            366
        } else {
            365
        };
        proof {
            lemma_days_before(y as int);
        }
    }
    let leap_year: bool = is_leap(y);
    let mut mo: u64 = 1;
    proof {
        lemma_months(y as int);
    }
    while mo < 12 && remaining >= days_in_month(leap_year, mo)
        invariant
            leap_year == leap(y as int),
            1 <= mo <= 12,
            y >= 1970,
            y <= 1970 + days / 365,
            days_before_month(y as int, 13) == year_len(y as int),
            remaining + days_before_month(y as int, mo as int) < year_len(y as int),
            days == days_before(y as int) + days_before_month(y as int, mo as int) + remaining,
        decreases 12 - mo,
    {
        remaining = remaining - days_in_month(leap_year, mo);
        mo = mo + 1;
    }
    (y, mo, remaining + 1)
}

/// The date that lies a number of days after 1970-01-01, as year, month and day.
pub open spec fn date_of(days: int) -> (int, int, int) {
    choose|t: (int, int, int)| #[trigger] is_date_triple(days, t)
}

/// Whether a triple is the date that lies `days` days after 1970-01-01.
pub open spec fn is_date_triple(days: int, t: (int, int, int)) -> bool {
    is_date(days, t.0, t.1, t.2)
}

/// The date of a day is the only one there is.
pub proof fn lemma_date_of(days: int, y: int, m: int, d: int)
    requires
        is_date(days, y, m, d),
    ensures
        date_of(days) == (y, m, d),
{
    assert(is_date_triple(days, (y, m, d)));
    let t = date_of(days);
    lemma_date_unique(days, t.0, t.1, t.2, y, m, d);
}

/// Every day from 1970-01-01 on has a date.
pub proof fn lemma_date_exists(days: int)
    requires
        days >= 0,
    ensures
        is_date_triple(days, date_of(days)),
    decreases days,
{
    if days == 0 {
        assert(is_date_triple(0, (1970, 1, 1)));
    } else {
        lemma_date_exists(days - 1);
        let t = date_of(days - 1);
        lemma_months(t.0);
        if t.2 < month_len(t.0, t.1) {
            assert(is_date_triple(days, (t.0, t.1, t.2 + 1)));
        } else if t.1 < 12 {
            assert(is_date_triple(days, (t.0, t.1 + 1, 1)));
        } else {
            assert(is_date_triple(days, (t.0 + 1, 1, 1)));
        }
    }
}

/// Days up to the end of 9999 have a year of four digits.
pub proof fn lemma_year_bound(days: int, y: int, m: int, d: int)
    requires
        is_date(days, y, m, d),
        days < 2_932_897,
    ensures
        1970 <= y <= 9999,
        1 <= m <= 12,
        1 <= d <= 31,
{
    lemma_within_year(y, m, d);
    if y > 9999 {
        lemma_days_before_mono(10000, y);
        lemma_days_before(10000);
    }
}

/// A date as `YYYY-MM-DD`.
pub open spec fn date_text(y: nat, m: nat, d: nat) -> Seq<char> {
    text::padded(y, 4) + seq!['-'] + text::padded(m, 2) + seq!['-'] + text::padded(d, 2)
}

/// The number of days before year `k` of a 400-year cycle that starts on the first of March.
spec fn cycle_days(k: int) -> int {
    365 * k + k / 4 - k / 100
}

/// In a cycle of 400 years that start in March, the year of a day.
proof fn lemma_cycle_year(doe: int, yoe: int)
    requires
        0 <= doe <= 146096,
        yoe == (doe - doe / 1460 + doe / 36524 - doe / 146096) / 365,
    ensures
        0 <= yoe <= 399,
        cycle_days(yoe) <= doe,
        doe < cycle_days(yoe + 1) || (yoe == 399 && doe == 146096),
{
}

/// The date that lies a number of days after 1970-01-01, without a loop.
pub fn civil_from_days(days: u64) -> (r: (u64, u64, u64))
    requires
        days <= i64::MAX - 719_468,
    ensures
        is_date(days as int, r.0 as int, r.1 as int, r.2 as int),
{
    let z: u64 = days + 719_468;
    let era: u64 = z / 146_097;
    let doe: u64 = z - era * 146_097;
    let yoe: u64 = (doe - doe / 1460 + doe / 36524 - doe / 146_096) / 365;
    proof {
        lemma_cycle_year(doe as int, yoe as int);
    }
    let y0: u64 = yoe + era * 400;
    let doy: u64 = doe - (365 * yoe + yoe / 4 - yoe / 100);
    assert(doy <= 365);
    let mp: u64 = (5 * doy + 2) / 153;
    let d: u64 = doy - (153 * mp + 2) / 5 + 1;
    let m: u64 = if mp < 10 {
        mp + 3
    } else {
        mp - 9
    };
    let y: u64 = if m <= 2 {
        y0 + 1
    } else {
        y0
    };
    proof {
        lemma_civil(days as int, era as int, doe as int, yoe as int);
    }
    (y, m, d)
}

/// The arithmetic of [`civil_from_days`] finds the date of a day.
proof fn lemma_civil(days: int, era: int, doe: int, yoe: int)
    requires
        0 <= days,
        days + 719_468 == era * 146_097 + doe,
        0 <= doe <= 146_096,
        yoe == (doe - doe / 1460 + doe / 36524 - doe / 146_096) / 365,
    ensures
        ({
            let y0 = yoe + era * 400;
            let doy = doe - (365 * yoe + yoe / 4 - yoe / 100);
            let mp = (5 * doy + 2) / 153;
            let d = doy - (153 * mp + 2) / 5 + 1;
            let m = if mp < 10 {
                mp + 3
            } else {
                mp - 9
            };
            let y = if m <= 2 {
                y0 + 1
            } else {
                y0
            };
            is_date(days, y, m, d)
        }),
{
    lemma_cycle_year(doe, yoe);
    let y0 = yoe + era * 400;
    let doy = doe - (365 * yoe + yoe / 4 - yoe / 100);
    assert(0 <= doy <= 365);
    assert(y0 / 4 == yoe / 4 + era * 100);
    assert(y0 / 100 == yoe / 100 + era * 4);
    assert(y0 / 400 == era);
    assert(days + 719_468 == 365 * y0 + leaps_through(y0) + doy);
    assert(y0 >= 1969);
    lemma_leap_step(y0);
    lemma_leap_step(y0 + 1);
    assert(doy == 365 ==> leap(y0 + 1)) by {
        assert(yoe == 399 && doe == 146_096 ==> y0 + 1 == (era + 1) * 400);
    }
    lemma_march_month(y0, doy);
    lemma_march_month(y0 + 1, doy);
    if doy >= 306 {
        lemma_days_before(y0 + 1);
    } else {
        assert(y0 >= 1970);
        lemma_days_before(y0);
    }
}

proof fn lemma_leap_step(y: int)
    ensures
        leaps_through(y) - leaps_through(y - 1) == if leap(y) {
            1int
        } else {
            0
        },
{
    lemma_step_4(y);
    lemma_step_100(y);
    lemma_step_400(y);
}

proof fn lemma_step_4(y: int)
    ensures
        y / 4 - (y - 1) / 4 == if y % 4 == 0 {
            1int
        } else {
            0
        },
{
}

proof fn lemma_step_100(y: int)
    ensures
        y / 100 - (y - 1) / 100 == if y % 100 == 0 {
            1int
        } else {
            0
        },
        y % 100 == 0 ==> y % 4 == 0,
{
}

proof fn lemma_step_400(y: int)
    ensures
        y / 400 - (y - 1) / 400 == if y % 400 == 0 {
            1int
        } else {
            0
        },
        y % 400 == 0 ==> y % 100 == 0,
{
}

/// Day `doy` of a year that starts in March lies in month `m` on day `d`.
proof fn lemma_march_month(y: int, doy: int)
    requires
        0 <= doy <= 365,
    ensures
        ({
            let mp = (5 * doy + 2) / 153;
            let d = doy - (153 * mp + 2) / 5 + 1;
            let m = if mp < 10 {
                mp + 3
            } else {
                mp - 9
            };
            &&& 0 <= mp <= 11
            &&& d >= 1
            &&& (m <= 2) == (doy >= 306)
            &&& doy == 365 ==> (m == 2 && d == 29)
            &&& doy < 365 ==> d <= month_len(y, m)
            &&& m > 2 ==> days_before_month(y, m) + d - 1 == doy + 59 + if leap(y) {
                1int
            } else {
                0
            }
            &&& m <= 2 ==> days_before_month(y, m) + d - 1 == doy - 306
        }),
{
    let mp = (5 * doy + 2) / 153;
    assert(mp == 0 || mp == 1 || mp == 2 || mp == 3 || mp == 4 || mp == 5 || mp == 6 || mp == 7
        || mp == 8 || mp == 9 || mp == 10 || mp == 11);
    reveal_with_fuel(days_before_month, 13);
}

} // verus!
