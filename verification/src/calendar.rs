//! The proleptic Gregorian calendar over day numbers.
//!
//! A *day number* counts whole days from 1970-01-01, which is day 0; negative
//! numbers are days before it. The calendar is extended backwards without a
//! gap, and the year before year 1 is year 0.
//!
//! The calendar is defined from three notions only: which years are leap
//! years, how long each month is, and on which day number each year starts.
//! Every field of a date is then stated against these, and the executable
//! functions are proved to compute exactly those fields for every `i64`.

use vstd::prelude::*;

verus! {

/// Days in a full cycle of 400 years.
pub const DAYS_PER_400_YEARS: i64 = 146_097;

/// Days in a century that does not end in a leap year.
pub const DAYS_PER_100_YEARS: i64 = 36_524;

/// Days in four years of which one is a leap year.
pub const DAYS_PER_4_YEARS: i64 = 1_461;

/// Day number of 2001-01-01, the first day of a 400-year cycle.
pub const CYCLE_START_DAY: i64 = 11_323;

/// The year that starts on `CYCLE_START_DAY`.
pub const CYCLE_START_YEAR: i64 = 2_001;

/// Whether `y` is a leap year: divisible by 4, and not by 100 unless by 400.
pub open spec fn is_leap_year(y: int) -> bool {
    y % 4 == 0 && (y % 100 != 0 || y % 400 == 0)
}

/// Number of days in year `y`.
pub open spec fn days_in_year(y: int) -> int {
    if is_leap_year(y) {
        366
    } else {
        365
    }
}

/// Day number of January 1st of year `y`.
///
/// `lemma_year_start_epoch` and `lemma_year_start_step` show that this is the
/// one function that is 0 at 1970 and grows by the length of each year.
pub open spec fn year_start(y: int) -> int {
    365 * (y - 1970) + ((y - 1) / 4 - (y - 1) / 100 + (y - 1) / 400) - 477
}

/// Number of days in month `m` (1 to 12) of a year that is or is not leap.
pub open spec fn days_in_month(leap: bool, m: int) -> int {
    if m == 2 {
        if leap {
            29
        } else {
            28
        }
    } else if m == 4 || m == 6 || m == 9 || m == 11 {
        30
    } else {
        31
    }
}

/// Number of days of the year that lie before month `m`, for `m` from 1 to
/// 13; month 13 stands for the start of the next year.
pub open spec fn days_before_month(leap: bool, m: int) -> int {
    let shift: int = if leap && m > 2 {
        1
    } else {
        0
    };
    shift + if m <= 1 {
        0int
    } else if m == 2 {
        31
    } else if m == 3 {
        59
    } else if m == 4 {
        90
    } else if m == 5 {
        120
    } else if m == 6 {
        151
    } else if m == 7 {
        181
    } else if m == 8 {
        212
    } else if m == 9 {
        243
    } else if m == 10 {
        273
    } else if m == 11 {
        304
    } else if m == 12 {
        334
    } else {
        365
    }
}

/// Whether `(y, m, d)` names a day of the calendar.
pub open spec fn is_valid_date(y: int, m: int, d: int) -> bool {
    1 <= m <= 12 && 1 <= d <= days_in_month(is_leap_year(y), m)
}

/// Day number of the date `(y, m, d)`.
pub open spec fn day_number(y: int, m: int, d: int) -> int {
    year_start(y) + days_before_month(is_leap_year(y), m) + d - 1
}

/// Whether day `n` lies in year `y`.
pub open spec fn in_year(n: int, y: int) -> bool {
    year_start(y) <= n < year_start(y + 1)
}

/// The year in which day `n` lies.
pub open spec fn year_of_day(n: int) -> int {
    choose|y: int| in_year(n, y)
}

/// Position of day `n` within its year, from 1 for January 1st.
pub open spec fn ordinal_of_day(n: int) -> int {
    n - year_start(year_of_day(n)) + 1
}

/// The month in which the `ordinal`-th day of a year lies: the last month
/// that starts before that day.
pub open spec fn month_of_ordinal(leap: bool, ordinal: int) -> int {
    if ordinal > days_before_month(leap, 12) {
        12
    } else if ordinal > days_before_month(leap, 11) {
        11
    } else if ordinal > days_before_month(leap, 10) {
        10
    } else if ordinal > days_before_month(leap, 9) {
        9
    } else if ordinal > days_before_month(leap, 8) {
        8
    } else if ordinal > days_before_month(leap, 7) {
        7
    } else if ordinal > days_before_month(leap, 6) {
        6
    } else if ordinal > days_before_month(leap, 5) {
        5
    } else if ordinal > days_before_month(leap, 4) {
        4
    } else if ordinal > days_before_month(leap, 3) {
        3
    } else if ordinal > days_before_month(leap, 2) {
        2
    } else {
        1
    }
}

/// The month, 1 to 12, in which day `n` lies.
pub open spec fn month_of_day(n: int) -> int {
    month_of_ordinal(is_leap_year(year_of_day(n)), ordinal_of_day(n))
}

/// Position of day `n` within its month, from 1.
pub open spec fn day_of_month(n: int) -> int {
    ordinal_of_day(n) - days_before_month(is_leap_year(year_of_day(n)), month_of_day(n))
}

/// The quarter, 1 to 4, in which day `n` lies.
pub open spec fn quarter_of_day(n: int) -> int {
    (month_of_day(n) - 1) / 3 + 1
}

/// Day of the week of day `n`, from 1 for Monday to 7 for Sunday.
/// Day 0 is a Thursday.
pub open spec fn weekday_of_day(n: int) -> int {
    (n + 3) % 7 + 1
}

/// The Thursday of the week, Monday to Sunday, in which day `n` lies.
pub open spec fn thursday_of_week(n: int) -> int {
    n - weekday_of_day(n) + 4
}

/// The week-numbering year of day `n`: the year in which the Thursday of its
/// week lies.
pub open spec fn iso_year_of_day(n: int) -> int {
    year_of_day(thursday_of_week(n))
}

/// The week number of day `n` within its week-numbering year, from 1: the
/// week with the year's first Thursday is week 1.
pub open spec fn iso_week_of_day(n: int) -> int {
    (ordinal_of_day(thursday_of_week(n)) - 1) / 7 + 1
}

/// Day 0 is January 1st of 1970.
pub proof fn lemma_year_start_epoch()
    ensures
        year_start(1970) == 0,
{
}

/// Each year starts as many days after the one before as that one is long.
pub proof fn lemma_year_start_step(y: int)
    ensures
        year_start(y + 1) == year_start(y) + days_in_year(y),
{
}

/// Later years start on later days.
pub proof fn lemma_year_start_increasing(a: int, b: int)
    requires
        a < b,
    ensures
        year_start(a) < year_start(b),
    decreases b - a,
{
    lemma_year_start_step(b - 1);
    if a < b - 1 {
        lemma_year_start_increasing(a, b - 1);
    }
}

/// A day lies in at most one year, so a year that holds it is its year.
pub proof fn lemma_year_of_day(n: int, y: int)
    requires
        in_year(n, y),
    ensures
        year_of_day(n) == y,
        ordinal_of_day(n) == n - year_start(y) + 1,
        1 <= ordinal_of_day(n) <= days_in_year(y),
{
    let z = year_of_day(n);
    assert(in_year(n, z));
    if z < y {
        if z + 1 < y {
            lemma_year_start_increasing(z + 1, y);
        }
    } else if y < z {
        if y + 1 < z {
            lemma_year_start_increasing(y + 1, z);
        }
    }
    lemma_year_start_step(y);
}

/// Each month starts as many days after the one before as that one is long,
/// and the twelve months fill the year.
pub proof fn lemma_days_before_month_step(y: int, m: int)
    requires
        1 <= m <= 12,
    ensures
        days_before_month(is_leap_year(y), 1) == 0,
        days_before_month(is_leap_year(y), m + 1) == days_before_month(is_leap_year(y), m)
            + days_in_month(is_leap_year(y), m),
        days_before_month(is_leap_year(y), 13) == days_in_year(y),
{
}

/// The month of a day of the year is the one month in whose span it lies.
pub proof fn lemma_month_of_ordinal(leap: bool, ordinal: int, m: int)
    requires
        1 <= m <= 12,
        days_before_month(leap, m) < ordinal <= days_before_month(leap, m + 1),
    ensures
        month_of_ordinal(leap, ordinal) == m,
{
}

/// Reading the fields of a date's day number gives the date back.
pub proof fn lemma_fields_of_date(y: int, m: int, d: int)
    requires
        is_valid_date(y, m, d),
    ensures
        year_of_day(day_number(y, m, d)) == y,
        month_of_day(day_number(y, m, d)) == m,
        day_of_month(day_number(y, m, d)) == d,
        ordinal_of_day(day_number(y, m, d)) == days_before_month(is_leap_year(y), m) + d,
{
    let n = day_number(y, m, d);
    let leap = is_leap_year(y);
    lemma_year_start_step(y);
    lemma_days_before_month_step(y, m);
    assert(days_before_month(leap, m + 1) <= days_in_year(y));
    assert(in_year(n, y));
    lemma_year_of_day(n, y);
    lemma_month_of_ordinal(leap, ordinal_of_day(n), m);
}

/// Every day lies in a year. The year is returned; for a day number of at
/// most 19 digits it has at most 17, and is less than 3 in the first.
pub proof fn lemma_year_exists(n: int) -> (y: int)
    ensures
        in_year(n, y),
        -10_000_000_000_000_000_000 <= n <= 10_000_000_000_000_000_000 ==> -30_000_000_000_000_000
            < y < 30_000_000_000_000_000,
{
    let cycle = (n - 11_323) / 146_097;
    let in_cycle = (n - 11_323) % 146_097;
    assert(n == 11_323 + 146_097 * cycle + in_cycle && 0 <= in_cycle < 146_097);
    let c = if in_cycle / 36_524 > 3 {
        3
    } else {
        in_cycle / 36_524
    };
    let in_century = in_cycle - c * 36_524;
    assert(0 <= c <= 3 && 0 <= in_century <= 36_524);
    assert(c < 3 ==> in_century < 36_524);
    let q = in_century / 1_461;
    let in_span = in_century - q * 1_461;
    assert(0 <= q <= 24 && 0 <= in_span < 1_461);
    let a = if in_span / 365 > 3 {
        3
    } else {
        in_span / 365
    };
    assert(0 <= a <= 3 && 0 <= in_span - a * 365 <= 365);
    assert(a < 3 ==> in_span - a * 365 < 365);
    let y = 2001 + 400 * cycle + 100 * c + 4 * q + a;
    lemma_year_start_in_cycle(cycle, c, q, a);
    lemma_year_start_step(y);
    y
}

/// The year and the week-numbering year of a day number that fits in 64
/// bits fit in 64 bits.
pub proof fn lemma_years_fit(n: int)
    requires
        i64::MIN <= n <= i64::MAX,
    ensures
        i64::MIN <= year_of_day(n) <= i64::MAX,
        i64::MIN <= iso_year_of_day(n) <= i64::MAX,
{
    let y = lemma_year_exists(n);
    lemma_year_of_day(n, y);
    let t = thursday_of_week(n);
    let ty = lemma_year_exists(t);
    lemma_year_of_day(t, ty);
}

/// Each field of a day but the years lies in its range.
pub proof fn lemma_field_ranges(n: int)
    ensures
        1 <= quarter_of_day(n) <= 4,
        1 <= month_of_day(n) <= 12,
        1 <= iso_week_of_day(n) <= 53,
        1 <= weekday_of_day(n) <= 7,
        1 <= day_of_month(n) <= 31,
        1 <= ordinal_of_day(n) <= 366,
{
    let y = lemma_year_exists(n);
    lemma_year_of_day(n, y);
    let t = thursday_of_week(n);
    let ty = lemma_year_exists(t);
    lemma_year_of_day(t, ty);
}

/// The fields of a day form a date of the calendar, and that date's day
/// number is the day.
pub proof fn lemma_date_of_fields(n: int)
    ensures
        is_valid_date(year_of_day(n), month_of_day(n), day_of_month(n)),
        day_number(year_of_day(n), month_of_day(n), day_of_month(n)) == n,
{
    let y = lemma_year_exists(n);
    lemma_year_of_day(n, y);
}

/// Where a day stands in the 400-year cycle that holds it: the year that
/// comes `c` centuries, `q` four-year spans and `a` years after the start
/// of cycle number `cycle` starts that many spans of days after it, and is a
/// leap year exactly when it is the last of its four years and does not close
/// a century, or closes the cycle.
proof fn lemma_year_start_in_cycle(cycle: int, c: int, q: int, a: int)
    requires
        0 <= c <= 3,
        0 <= q <= 24,
        0 <= a <= 3,
    ensures
        year_start(2001 + 400 * cycle + 100 * c + 4 * q + a) == 11_323 + 146_097 * cycle + 36_524
            * c + 1_461 * q + 365 * a,
        is_leap_year(2001 + 400 * cycle + 100 * c + 4 * q + a) <==> a == 3 && (q != 24 || c == 3),
{
    let y = 2001 + 400 * cycle + 100 * c + 4 * q + a;
    assert((y - 1) / 4 == 500 + 100 * cycle + 25 * c + q);
    assert((y - 1) / 100 == 20 + 4 * cycle + c);
    assert((y - 1) / 400 == 5 + cycle);
    assert(y % 4 == (1 + a) % 4);
    assert(y % 100 == (1 + 4 * q + a) % 100);
    assert(y % 400 == (1 + 100 * c + 4 * q + a) % 400);
}

/// Whether `year` is a leap year.
pub fn is_leap(year: i64) -> (leap: bool)
    ensures
        leap == is_leap_year(year as int),
{
    let r4 = year.checked_rem_euclid(4).unwrap();
    let r100 = year.checked_rem_euclid(100).unwrap();
    let r400 = year.checked_rem_euclid(400).unwrap();
    r4 == 0 && (r100 != 0 || r400 == 0)
}

/// Number of days in `year`.
pub fn year_length(year: i64) -> (len: i64)
    ensures
        len == days_in_year(year as int),
{
    if is_leap(year) {
        366
    } else {
        365
    }
}

/// The year in which day `n` lies, and the position of the day within that
/// year, from 1.
pub fn year_and_ordinal(n: i64) -> (r: (i64, i64))
    ensures
        in_year(n as int, r.0 as int),
        r.0 == year_of_day(n as int),
        r.1 == ordinal_of_day(n as int),
        1 <= r.1 <= days_in_year(r.0 as int),
        -30_000_000_000_000_000 < r.0 < 30_000_000_000_000_000,
{
    let whole = n.checked_div_euclid(DAYS_PER_400_YEARS).unwrap();
    let rest = n.checked_rem_euclid(DAYS_PER_400_YEARS).unwrap();
    // Count cycles from 2001-01-01, so that each ends with its leap day.
    let (cycle, in_cycle) = if rest >= CYCLE_START_DAY {
        (whole, rest - CYCLE_START_DAY)
    } else {
        (whole - 1, rest + (DAYS_PER_400_YEARS - CYCLE_START_DAY))
    };
    let centuries = if in_cycle / DAYS_PER_100_YEARS > 3 {
        3
    } else {
        in_cycle / DAYS_PER_100_YEARS
    };
    let in_century = in_cycle - centuries * DAYS_PER_100_YEARS;
    let spans = in_century / DAYS_PER_4_YEARS;
    let in_span = in_century - spans * DAYS_PER_4_YEARS;
    let years = if in_span / 365 > 3 {
        3
    } else {
        in_span / 365
    };
    let in_year_days = in_span - years * 365;
    let year = CYCLE_START_YEAR + 400 * cycle + 100 * centuries + 4 * spans + years;
    proof {
        lemma_year_start_in_cycle(cycle as int, centuries as int, spans as int, years as int);
        lemma_year_start_step(year as int);
        lemma_year_of_day(n as int, year as int);
    }
    (year, in_year_days + 1)
}

/// Number of days of a year that lie before month `m`.
fn month_offset(leap: bool, m: i64) -> (r: i64)
    requires
        1 <= m <= 13,
    ensures
        r == days_before_month(leap, m as int),
{
    let shift: i64 = if leap && m > 2 {
        1
    } else {
        0
    };
    let base: i64 = match m {
        1 => 0,
        2 => 31,
        3 => 59,
        4 => 90,
        5 => 120,
        6 => 151,
        7 => 181,
        8 => 212,
        9 => 243,
        10 => 273,
        11 => 304,
        12 => 334,
        _ => 365,
    };
    base + shift
}

/// The month, 1 to 12, and the day of the month, from 1, of the `ordinal`-th
/// day of a year.
pub fn month_and_day(leap: bool, ordinal: i64) -> (r: (i64, i64))
    requires
        1 <= ordinal <= days_before_month(leap, 13),
    ensures
        r.0 == month_of_ordinal(leap, ordinal as int),
        r.1 == ordinal - days_before_month(leap, r.0 as int),
        1 <= r.0 <= 12,
        1 <= r.1 <= days_in_month(leap, r.0 as int),
{
    let mut m: i64 = 1;
    while m < 12 && month_offset(leap, m + 1) < ordinal
        invariant
            1 <= m <= 12,
            days_before_month(leap, m as int) < ordinal <= days_before_month(leap, 13),
        decreases 12 - m,
    {
        m = m + 1;
    }
    let before = month_offset(leap, m);
    proof {
        lemma_month_of_ordinal(leap, ordinal as int, m as int);
    }
    (m, ordinal - before)
}

/// The year in which day `n` lies.
pub fn year_of(n: i64) -> (r: i64)
    ensures
        r == year_of_day(n as int),
{
    year_and_ordinal(n).0
}

/// Position of day `n` within its year, from 1 to 366.
pub fn ordinal_of(n: i64) -> (r: i64)
    ensures
        r == ordinal_of_day(n as int),
        1 <= r <= 366,
{
    year_and_ordinal(n).1
}

/// The month, 1 to 12, in which day `n` lies.
pub fn month_of(n: i64) -> (r: i64)
    ensures
        r == month_of_day(n as int),
        1 <= r <= 12,
{
    let (y, ordinal) = year_and_ordinal(n);
    month_and_day(is_leap(y), ordinal).0
}

/// Position of day `n` within its month, from 1 to 31.
pub fn day_of(n: i64) -> (r: i64)
    ensures
        r == day_of_month(n as int),
        1 <= r <= 31,
{
    let (y, ordinal) = year_and_ordinal(n);
    month_and_day(is_leap(y), ordinal).1
}

/// The quarter, 1 to 4, in which day `n` lies.
pub fn quarter_of(n: i64) -> (r: i64)
    ensures
        r == quarter_of_day(n as int),
        1 <= r <= 4,
{
    (month_of(n) - 1) / 3 + 1
}

/// Day of the week of day `n`, from 1 for Monday to 7 for Sunday.
pub fn weekday_of(n: i64) -> (r: i64)
    ensures
        r == weekday_of_day(n as int),
        1 <= r <= 7,
{
    let r = n.checked_rem_euclid(7).unwrap();
    (r + 3) % 7 + 1
}

/// The week-numbering year of day `n`, and its week number in that year,
/// from 1 to 53.
pub fn iso_year_and_week(n: i64) -> (r: (i64, i64))
    ensures
        r.0 == iso_year_of_day(n as int),
        r.1 == iso_week_of_day(n as int),
        1 <= r.1 <= 53,
{
    let (y, ordinal) = year_and_ordinal(n);
    // Position in year `y` of the Thursday of this week; it may fall outside.
    let thursday = ordinal - weekday_of(n) + 4;
    let ghost t = thursday_of_week(n as int);
    proof {
        lemma_year_start_step(y as int);
        lemma_year_start_step(y - 1);
        lemma_year_start_step(y + 1);
    }
    if thursday < 1 {
        let before = year_length(y - 1);
        proof {
            lemma_year_of_day(t, y - 1);
        }
        (y - 1, (thursday + before - 1) / 7 + 1)
    } else {
        let len = year_length(y);
        if thursday > len {
            proof {
                lemma_year_of_day(t, y + 1);
            }
            (y + 1, (thursday - len - 1) / 7 + 1)
        } else {
            proof {
                lemma_year_of_day(t, y as int);
            }
            (y, (thursday - 1) / 7 + 1)
        }
    }
}

/// The week-numbering year of day `n`.
pub fn iso_year_of(n: i64) -> (r: i64)
    ensures
        r == iso_year_of_day(n as int),
{
    iso_year_and_week(n).0
}

/// The week number of day `n` within its week-numbering year, from 1 to 53.
pub fn iso_week_of(n: i64) -> (r: i64)
    ensures
        r == iso_week_of_day(n as int),
        1 <= r <= 53,
{
    iso_year_and_week(n).1
}

} // verus!
