use vstd::prelude::*;

verus! {

/// Whether `y` is a leap year of the Gregorian calendar.
pub open spec fn is_leap(y: int) -> bool {
    y % 4 == 0 && (y % 100 != 0 || y % 400 == 0)
}

/// The days of year `y`.
pub open spec fn year_len(y: int) -> int {
    if is_leap(y) {
        366
    } else {
        365
    }
}

/// The days of month `m` of year `y`, January being month 0.
pub open spec fn month_len(y: int, m: int) -> int {
    if m == 1 {
        if is_leap(y) {
            29
        } else {
            28
        }
    } else if m == 3 || m == 5 || m == 8 || m == 10 {
        30
    } else {
        31
    }
}

/// The days of year `y` before month `m` begins.
pub open spec fn days_before_month(y: int, m: int) -> int
    decreases m,
{
    if m <= 0 {
        0
    } else {
        days_before_month(y, m - 1) + month_len(y, m - 1)
    }
}

/// The days from 1 January 1970 to 1 January of year `y`.
pub open spec fn days_before_year(y: int) -> int
    decreases y - 1970,
{
    if y <= 1970 {
        0
    } else {
        days_before_year(y - 1) + year_len(y - 1)
    }
}

/// Month `m` (from 0) and day `d` (from 0) of year `y`, from 1970 on, is a
/// date of the calendar.
pub open spec fn is_date(y: int, m: int, d: int) -> bool {
    &&& y >= 1970
    &&& 0 <= m < 12
    &&& 0 <= d < month_len(y, m)
}

/// How many days after 1 January 1970 a date falls.
pub open spec fn day_number(y: int, m: int, d: int) -> int {
    days_before_year(y) + days_before_month(y, m) + d
}

/// The days from 1 March of year 0 to 1 March of year `y`.
spec fn march_first(y: int) -> int {
    365 * y + y / 4 - y / 100 + y / 400
}

/// The days from the start of March to the start of each month, counting
/// the year from March.
spec fn march_offset(mp: int) -> int {
    if mp == 0 {
        0
    } else if mp == 1 {
        31
    } else if mp == 2 {
        61
    } else if mp == 3 {
        92
    } else if mp == 4 {
        122
    } else if mp == 5 {
        153
    } else if mp == 6 {
        184
    } else if mp == 7 {
        214
    } else if mp == 8 {
        245
    } else if mp == 9 {
        275
    } else if mp == 10 {
        306
    } else {
        337
    }
}

proof fn lemma_era(doe: u32)
    requires
        doe < 146097,
    ensures
        ({
            let yoe = (doe - doe / 1460 + doe / 36524 - doe / 146096) / 365;
            let doy = doe - (365 * yoe + yoe / 4 - yoe / 100);
            let y1 = yoe + 1;
            let leap = y1 % 4 == 0 && (y1 % 100 != 0 || y1 == 400);
            &&& yoe <= 399
            &&& 365 * yoe + yoe / 4 - yoe / 100 <= doe
            &&& doy < (if leap {
                366u32
            } else {
                365u32
            })
        }),
{
    assert({
        let yoe = (doe - doe / 1460 + doe / 36524 - doe / 146096) / 365;
        let doy = doe - (365 * yoe + yoe / 4 - yoe / 100);
        let y1 = yoe + 1;
        let leap = y1 % 4 == 0 && (y1 % 100 != 0 || y1 == 400);
        &&& yoe <= 399
        &&& 365 * yoe + yoe / 4 - yoe / 100 <= doe
        &&& doy < (if leap {
            366u32
        } else {
            365u32
        })
    }) by (bit_vector)
        requires
            doe < 146097,
    ;
}

proof fn lemma_month_of_doy(doy: u32)
    requires
        doy < 366,
    ensures
        ({
            let mp = (5 * doy + 2) / 153;
            let start = (153 * mp + 2) / 5;
            &&& mp <= 11
            &&& start <= doy
            &&& start == march_offset(mp as int)
            &&& (mp < 11 ==> doy - start < (if mp == 1 || mp == 3 || mp == 6 || mp == 8 {
                30u32
            } else {
                31u32
            }))
        }),
{
    assert({
        let mp = (5 * doy + 2) / 153;
        let start = (153 * mp + 2) / 5;
        &&& mp <= 11
        &&& start <= doy
        &&& (mp == 0 ==> start == 0)
        &&& (mp == 1 ==> start == 31)
        &&& (mp == 2 ==> start == 61)
        &&& (mp == 3 ==> start == 92)
        &&& (mp == 4 ==> start == 122)
        &&& (mp == 5 ==> start == 153)
        &&& (mp == 6 ==> start == 184)
        &&& (mp == 7 ==> start == 214)
        &&& (mp == 8 ==> start == 245)
        &&& (mp == 9 ==> start == 275)
        &&& (mp == 10 ==> start == 306)
        &&& (mp == 11 ==> start == 337)
        &&& (mp < 11 ==> doy - start < (if mp == 1 || mp == 3 || mp == 6 || mp == 8 {
            30u32
        } else {
            31u32
        }))
    }) by (bit_vector)
        requires
            doy < 366,
    ;
}

proof fn lemma_leap_step(y: int)
    requires
        y >= 1,
    ensures
        march_first(y) - march_first(y - 1) == 365 + if is_leap(y) { 1int } else { 0int },
{
}

proof fn lemma_days_before_year(y: int)
    requires
        y >= 1970,
    ensures
        days_before_year(y) == march_first(y - 1) + 306 - 719468,
    decreases y - 1970,
{
    if y > 1970 {
        lemma_days_before_year(y - 1);
        lemma_leap_step(y - 1);
    }
}

proof fn lemma_days_before_month(y: int)
    ensures
        days_before_month(y, 0) == 0,
        days_before_month(y, 1) == 31,
        days_before_month(y, 2) == 59 + if is_leap(y) { 1int } else { 0int },
        forall|m: int|
            2 <= m < 12 ==> #[trigger] days_before_month(y, m) == days_before_month(y, 2)
                + march_offset(m - 2),
{
    reveal_with_fuel(days_before_month, 13);
}

proof fn lemma_leap_shift(e: int, a: int)
    requires
        e >= 0,
        1 <= a <= 400,
    ensures
        is_leap(400 * e + a) == (a % 4 == 0 && (a % 100 != 0 || a == 400)),
{
    assert((400 * e + a) % 4 == a % 4) by (nonlinear_arith)
        requires
            e >= 0,
            a >= 0,
    ;
    assert((400 * e + a) % 100 == a % 100) by (nonlinear_arith)
        requires
            e >= 0,
            a >= 0,
    ;
    assert((400 * e + a) % 400 == a % 400) by (nonlinear_arith)
        requires
            e >= 0,
            a >= 0,
    ;
}

proof fn lemma_march_first_era(e: int, yoe: int)
    requires
        e >= 0,
        0 <= yoe <= 399,
    ensures
        march_first(400 * e + yoe) == 146097 * e + 365 * yoe + yoe / 4 - yoe / 100,
{
    assert((400 * e + yoe) / 4 == 100 * e + yoe / 4) by (nonlinear_arith)
        requires
            e >= 0,
            0 <= yoe,
    ;
    assert((400 * e + yoe) / 100 == 4 * e + yoe / 100) by (nonlinear_arith)
        requires
            e >= 0,
            0 <= yoe,
    ;
    assert((400 * e + yoe) / 400 == e) by (nonlinear_arith)
        requires
            e >= 0,
            0 <= yoe <= 399,
    ;
}

/// The month (January being 0) of the date `days` days after 1 January
/// 1970, with the year and day that go with it.
fn civil_month(days: u64) -> (m: usize)
    requires
        days <= 0x1_0000_0000_0000,
    ensures
        m < 12,
        exists|y: int, d: int| is_date(y, m as int, d) && day_number(y, m as int, d) == days,
{
    let z = days + 719468;
    let era = z / 146097;
    let doe = z % 146097;
    let yoe = (doe - doe / 1460 + doe / 36524 - doe / 146096) / 365;
    proof {
        lemma_era(doe as u32);
    }
    let doy = doe - (365 * yoe + yoe / 4 - yoe / 100);
    proof {
        lemma_month_of_doy(doy as u32);
    }
    let mp = (5 * doy + 2) / 153;
    let start = (153 * mp + 2) / 5;
    let m = if mp < 10 { mp + 2 } else { mp - 10 };
    proof {
        let e = era as int;
        let big_y = 400 * e + yoe as int;
        let dd = (doy - start) as int;
        let y = if mp < 10 { big_y } else { big_y + 1 };
        assert(z == 146097 * e + doe) by {
            vstd::arithmetic::div_mod::lemma_fundamental_div_mod(z as int, 146097);
        }
        lemma_march_first_era(e, yoe as int);
        assert(march_first(big_y) + doy == z);
        lemma_leap_shift(e, yoe + 1);
        assert(big_y >= 1969);
        lemma_days_before_month(y);
        if mp < 10 {
            assert(big_y >= 1970) by {
                if big_y == 1969 {
                    assert(march_first(1969) == 719162);
                }
            }
            lemma_days_before_year(y);
            lemma_leap_step(y);
            assert(days_before_month(y, m as int) == days_before_month(y, 2) + march_offset(mp as int));
            assert(day_number(y, m as int, dd) == days);
            assert(is_date(y, m as int, dd));
        } else {
            lemma_days_before_year(y);
            assert(day_number(y, m as int, dd) == days);
            assert(is_date(y, m as int, dd));
        }
    }
    m as usize
}

/// The month, January being 0, in which the moment `secs` seconds after
/// the start of 1970 falls: the month of the date `secs / 86400` days
/// after 1 January 1970.
pub fn month_of_unix_secs(secs: u64) -> (m: usize)
    ensures
        m < 12,
        exists|y: int, d: int| is_date(y, m as int, d) && day_number(y, m as int, d) == secs / 86400,
{
    civil_month(secs / 86400)
}

/// The seconds since the start of 1970 by the system clock:
/// `web_time::SystemTime::now` measured from `web_time::UNIX_EPOCH` with
/// `duration_since`, in whole seconds; `None` where the clock stands
/// before that start. Nothing is promised of the value: it is the time.
#[verifier::external_body]
fn now_unix_secs() -> Option<u64> {
    match web_time::SystemTime::now().duration_since(web_time::UNIX_EPOCH) {
        Ok(d) => Some(d.as_secs()),
        Err(_) => None,
    }
}

/// The current month by the system clock, January being 0; January 1970
/// where the clock stands before 1970.
pub fn this_month() -> (m: usize)
    ensures
        m < 12,
{
    let secs = match now_unix_secs() {
        Some(s) => s,
        None => 0,
    };
    month_of_unix_secs(secs)
}

proof fn lemma_month_steps(y: int, m: int)
    requires
        0 <= m < 12,
    ensures
        days_before_month(y, m + 1) == days_before_month(y, m) + month_len(y, m),
        days_before_month(y, 12) == year_len(y),
        0 <= days_before_month(y, m),
{
    reveal_with_fuel(days_before_month, 13);
}

proof fn lemma_months_increase(y: int, a: int, b: int)
    requires
        0 <= a < b <= 12,
    ensures
        days_before_month(y, a) + month_len(y, a) <= days_before_month(y, b),
    decreases b - a,
{
    lemma_month_steps(y, a);
    if a + 1 < b {
        lemma_months_increase(y, a + 1, b);
        lemma_month_steps(y, a + 1);
    }
}

proof fn lemma_years_increase(a: int, b: int)
    requires
        1970 <= a < b,
    ensures
        days_before_year(a) + year_len(a) <= days_before_year(b),
    decreases b - a,
{
    if a + 1 < b {
        lemma_years_increase(a + 1, b);
    }
}

proof fn lemma_within_year(y: int, m: int, d: int)
    requires
        is_date(y, m, d),
    ensures
        days_before_year(y) <= day_number(y, m, d) < days_before_year(y) + year_len(y),
{
    lemma_month_steps(y, m);
    if m + 1 < 12 {
        lemma_months_increase(y, m + 1, 12);
        lemma_month_steps(y, m + 1);
    }
}

/// A day number belongs to one date only, so the month that
/// `month_of_unix_secs` gives is the only one it can give.
pub proof fn dates_are_unique(y1: int, m1: int, d1: int, y2: int, m2: int, d2: int)
    requires
        is_date(y1, m1, d1),
        is_date(y2, m2, d2),
        day_number(y1, m1, d1) == day_number(y2, m2, d2),
    ensures
        y1 == y2,
        m1 == m2,
        d1 == d2,
{
    lemma_within_year(y1, m1, d1);
    lemma_within_year(y2, m2, d2);
    if y1 < y2 {
        lemma_years_increase(y1, y2);
    } else if y2 < y1 {
        lemma_years_increase(y2, y1);
    } else {
        lemma_month_steps(y1, m1);
        lemma_month_steps(y1, m2);
        if m1 < m2 {
            lemma_months_increase(y1, m1, m2);
        } else if m2 < m1 {
            lemma_months_increase(y1, m2, m1);
        }
    }
}

} // verus!
