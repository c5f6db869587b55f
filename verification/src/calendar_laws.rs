//! That the calendar is the Gregorian one.

use vstd::prelude::*;
use crate::clock::{civil_of, month_and_day};

verus! {

/// Whether a year has a leap day.
pub open spec fn is_leap(y: int) -> bool {
    y % 4 == 0 && (y % 100 != 0 || y % 400 == 0)
}

/// How many days a month of a year has.
pub open spec fn month_days(y: int, m: int) -> int {
    if m == 2 {
        if is_leap(y) {
            29
        } else {
            28
        }
    } else if m == 4 || m == 6 || m == 9 || m == 11 {
        30
    } else {
        31
    }
}

/// How many days of a year are over when one of its months begins.
pub open spec fn days_before_month(y: int, m: int) -> int
    decreases m,
{
    if m <= 1 {
        0
    } else {
        days_before_month(y, m - 1) + month_days(y, m - 1)
    }
}

/// How many years before a year have a leap day.
pub open spec fn leaps_before(y: int) -> int {
    (y - 1) / 4 - (y - 1) / 100 + (y - 1) / 400
}

/// How many days lie between the epoch and a date.
pub open spec fn days_to(y: int, m: int, d: int) -> int {
    365 * (y - 1970) + leaps_before(y) - leaps_before(1970) + days_before_month(y, m) + d - 1
}

/// How many days lie between the first of March and the first of a month, in a year that
/// begins with March.
spec fn march_days(m: int) -> int {
    if m == 3 {
        0
    } else if m == 4 {
        31
    } else if m == 5 {
        61
    } else if m == 6 {
        92
    } else if m == 7 {
        122
    } else if m == 8 {
        153
    } else if m == 9 {
        184
    } else if m == 10 {
        214
    } else if m == 11 {
        245
    } else if m == 12 {
        275
    } else if m == 1 {
        306
    } else {
        337
    }
}

proof fn lemma_leap_counts(y: int)
    ensures
        leaps_before(y + 1) == leaps_before(y) + if is_leap(y) {
            1int
        } else {
            0
        },
{
    lemma_step_of(y, 4);
    lemma_step_of(y, 100);
    lemma_step_of(y, 400);
    lemma_nested(y);
}

proof fn lemma_nested(y: int)
    ensures
        y % 400 == 0 ==> y % 100 == 0,
        y % 100 == 0 ==> y % 4 == 0,
{
}

proof fn lemma_step_of(y: int, n: int)
    requires
        n == 4 || n == 100 || n == 400,
    ensures
        y / n == (y - 1) / n + if y % n == 0 {
            1int
        } else {
            0
        },
{
    if n == 4 {
        assert(y / 4 == (y - 1) / 4 + if y % 4 == 0 { 1int } else { 0 });
    } else if n == 100 {
        assert(y / 100 == (y - 1) / 100 + if y % 100 == 0 { 1int } else { 0 });
    } else {
        assert(y / 400 == (y - 1) / 400 + if y % 400 == 0 { 1int } else { 0 });
    }
}

proof fn lemma_months(y: int, m: int)
    requires
        1 <= m <= 12,
    ensures
        days_before_month(y, m) == (if m > 2 {
            march_days(m) + 59 + if is_leap(y) {
                1int
            } else {
                0
            }
        } else {
            march_days(m) - 306
        }),
{
    reveal_with_fuel(days_before_month, 13);
}

/// The days up to a date, counted in years that begin with March.
proof fn lemma_march_years(y: int, m: int, d: int)
    requires
        1 <= m <= 12,
    ensures
        ({
            let z = if m > 2 {
                y
            } else {
                y - 1
            };
            days_to(y, m, d) + 719468 == 365 * z + z / 4 - z / 100 + z / 400 + march_days(m) + d - 1
        }),
{
    lemma_months(y, m);
    lemma_leap_counts(y);
    assert(leaps_before(1970) == 477);
}

proof fn lemma_cycles(z: int) -> (q: int)
    ensures
        q == z % 400,
        z / 4 == 100 * (z / 400) + q / 4,
        z / 100 == 4 * (z / 400) + q / 100,
        z == 400 * (z / 400) + q,
{
    let q = z % 400;
    let e = z / 400;
    assert(z == 400 * e + q);
    assert(z / 4 == 100 * e + q / 4);
    assert(z / 100 == 4 * e + q / 100);
    q
}

/// The year of a cycle is found by the number of its day.
proof fn lemma_year_of_cycle(q: int, doy: int)
    requires
        0 <= q < 400,
        0 <= doy <= 365,
        doy == 365 ==> (q + 1) % 4 == 0 && ((q + 1) % 100 != 0 || q + 1 == 400),
    ensures
        ({
            let oc = 365 * q + q / 4 - q / 100 + doy;
            &&& 0 <= oc < 146097
            &&& (oc - oc / 1460 + oc / 36524 - oc / 146096) / 365 == q
        }),
{
    let c = q / 100;
    let a = q % 100;
    let b = a / 4;
    let r = a % 4;
    assert(q == 100 * c + 4 * b + r);
    assert(0 <= c < 4 && 0 <= b < 25 && 0 <= r < 4);
    assert(q / 4 == 25 * c + b);
    let oc = 365 * q + q / 4 - q / 100 + doy;
    assert(oc == 36524 * c + 1461 * b + 365 * r + doy);
    if doy == 365 {
        assert(r == 3);
        assert(b < 24 || c == 3);
    }
    let k = 24 * c + b + 365 * r + doy;
    assert(oc == 1460 * (25 * c + b) + k);
    let over: int = if k >= 1460 {
        1
    } else {
        0
    };
    assert(oc / 1460 == 25 * c + b + over);
    let end = oc == 146096;
    assert(oc / 36524 == c + if end { 1int } else { 0 });
    assert(oc / 146096 == if end { 1int } else { 0 });
    let n = oc - oc / 1460 + oc / 36524 - oc / 146096;
    assert(n == 365 * q + doy - over);
    assert(0 <= doy - over < 365);
    assert(n / 365 == q);
}

/// The month and the day of a year that begins with March are found by the number of its
/// day.
proof fn lemma_month_of_year(m: int, d: int)
    requires
        1 <= m <= 12,
        1 <= d <= 31,
        m == 4 || m == 6 || m == 9 || m == 11 ==> d <= 30,
        m == 2 ==> d <= 29,
    ensures
        ({
            let doy = march_days(m) + d - 1;
            let mp = (5 * doy + 2) / 153;
            &&& doy - (153 * mp + 2) / 5 + 1 == d
            &&& m == if mp < 10 {
                mp + 3
            } else {
                mp - 9
            }
        }),
{
    let doy = march_days(m) + d - 1;
    let mp: int = if m > 2 {
        m - 3
    } else {
        m + 9
    };
    assert((5 * doy + 2) / 153 == mp);
}

/// The calendar shows, so many days after the epoch, the date that lies so many days behind
/// it, when years have twelve months of their lengths, and every fourth of them a leap day,
/// but for those of full centuries that four hundred does not divide.
pub proof fn law_calendar_is_gregorian(y: int, m: int, d: int, s: int)
    requires
        1 <= m <= 12,
        1 <= d <= month_days(y, m),
        0 <= s < 86400,
    ensures
        month_and_day(days_to(y, m, d)) == (m, d),
        civil_of(86400 * days_to(y, m, d) + s).month == m,
        civil_of(86400 * days_to(y, m, d) + s).day == d,
{
    let z = if m > 2 {
        y
    } else {
        y - 1
    };
    let doy = march_days(m) + d - 1;
    let e = z / 400;
    lemma_march_years(y, m, d);
    let q = lemma_cycles(z);
    let oc = 365 * q + q / 4 - q / 100 + doy;
    assert(days_to(y, m, d) + 719468 == 146097 * e + oc);
    if doy == 365 {
        assert(m == 2 && d == 29);
        assert(is_leap(y));
        lemma_leap_in_cycle(y, q);
    }
    lemma_year_of_cycle(q, doy);
    assert((146097 * e + oc) % 146097 == oc) by {
        vstd::arithmetic::div_mod::lemma_mod_multiples_vanish(e, oc, 146097);
        vstd::arithmetic::div_mod::lemma_small_mod(oc as nat, 146097);
    }
    lemma_month_of_year(m, d);
    let days = days_to(y, m, d);
    assert((86400 * days + s) / 86400 == days);
}

proof fn lemma_leap_in_cycle(y: int, q: int)
    requires
        is_leap(y),
        q == (y - 1) % 400,
    ensures
        (q + 1) % 4 == 0,
        (q + 1) % 100 != 0 || q + 1 == 400,
{
    assert(0 <= q < 400);
    let e = (y - 1) / 400;
    assert(y == 400 * e + q + 1);
    if q + 1 == 400 {
    } else {
        assert(y % 400 == q + 1);
        assert(y % 4 == (q + 1) % 4);
        assert(y % 100 == (q + 1) % 100);
    }
}

} // verus!
