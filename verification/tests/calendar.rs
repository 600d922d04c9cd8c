use temporal_functions::calendar::{
    day_of, is_leap, iso_week_of, iso_year_and_week, iso_year_of, month_and_day, month_of,
    ordinal_of, quarter_of, weekday_of, year_and_ordinal, year_length, year_of,
};
use temporal_functions::clock::{hour_of, minute_of, nanosecond_of, second_of};

// The date of a day number, counted in years of twelve months that start
// with March, so that the leap day comes last.
fn date_by_march_years(n: i128) -> (i128, i128, i128) {
    let z = n + 719_468;
    let era = z.div_euclid(146_097);
    let day_of_era = z.rem_euclid(146_097);
    let year_of_era =
        (day_of_era - day_of_era / 1_460 + day_of_era / 36_524 - day_of_era / 146_096) / 365;
    let day_of_year = day_of_era - (365 * year_of_era + year_of_era / 4 - year_of_era / 100);
    let shifted_month = (5 * day_of_year + 2) / 153;
    let day = day_of_year - (153 * shifted_month + 2) / 5 + 1;
    let month = if shifted_month < 10 { shifted_month + 3 } else { shifted_month - 9 };
    let year = year_of_era + era * 400 + if month <= 2 { 1 } else { 0 };
    (year, month, day)
}

fn leap(year: i128) -> bool {
    year % 4 == 0 && (year % 100 != 0 || year % 400 == 0)
}

#[test]
fn the_epoch_is_the_first_day_of_1970() {
    assert_eq!(year_and_ordinal(0), (1970, 1));
    assert_eq!(month_of(0), 1);
    assert_eq!(day_of(0), 1);
    assert_eq!(quarter_of(0), 1);
    assert_eq!(weekday_of(0), 4);
    assert_eq!(iso_year_and_week(0), (1970, 1));
}

#[test]
fn the_day_before_the_epoch() {
    assert_eq!(year_of(-1), 1969);
    assert_eq!(ordinal_of(-1), 365);
    assert_eq!(month_of(-1), 12);
    assert_eq!(day_of(-1), 31);
    assert_eq!(quarter_of(-1), 4);
    assert_eq!(weekday_of(-1), 3);
    assert_eq!(iso_year_of(-1), 1970);
    assert_eq!(iso_week_of(-1), 1);
}

#[test]
fn leap_years() {
    for year in [2000, 2004, 2020, 2400, 1600, 0, -4, -400, 1972] {
        assert!(is_leap(year));
        assert_eq!(year_length(year), 366);
    }
    for year in [1900, 2100, 2200, 2300, 2021, 1, -1, -100, 1970] {
        assert!(!is_leap(year));
        assert_eq!(year_length(year), 365);
    }
}

#[test]
fn leap_days_and_the_days_around_them() {
    // 2000-02-29 and 2000-03-01
    assert_eq!((year_of(11_016), month_of(11_016), day_of(11_016)), (2000, 2, 29));
    assert_eq!((year_of(11_017), month_of(11_017), day_of(11_017)), (2000, 3, 1));
    assert_eq!(ordinal_of(11_016), 60);
    // 1900 had no leap day: 1900-02-28 is followed by 1900-03-01
    assert_eq!((year_of(-25_509), month_of(-25_509), day_of(-25_509)), (1900, 2, 28));
    assert_eq!((year_of(-25_508), month_of(-25_508), day_of(-25_508)), (1900, 3, 1));
    assert_eq!(ordinal_of(-25_508), 60);
    // 1600-02-29
    assert_eq!((year_of(-135_081), month_of(-135_081), day_of(-135_081)), (1600, 2, 29));
    // 2100-03-01 is the 60th day of its year
    assert_eq!((year_of(47_541), month_of(47_541), ordinal_of(47_541)), (2100, 3, 60));
}

#[test]
fn the_ends_of_a_cycle_of_400_years() {
    // 2000-12-31 is the 366th day of 2000, 2001-01-01 starts a cycle
    assert_eq!(year_and_ordinal(11_322), (2000, 366));
    assert_eq!(year_and_ordinal(11_323), (2001, 1));
    // 2400-12-31 and 2401-01-01
    assert_eq!(year_and_ordinal(11_323 + 146_096), (2400, 366));
    assert_eq!(year_and_ordinal(11_323 + 146_097), (2401, 1));
    // 2100-12-31 closes a century without a leap day
    assert_eq!(year_and_ordinal(11_323 + 36_523), (2100, 365));
    assert_eq!(year_and_ordinal(11_323 + 36_524), (2101, 1));
}

#[test]
fn years_around_year_zero() {
    assert_eq!(year_and_ordinal(-719_162), (1, 1));
    assert_eq!(year_and_ordinal(-719_163), (0, 366));
    assert_eq!(year_and_ordinal(-719_528), (0, 1));
    assert_eq!(year_and_ordinal(-719_529), (-1, 365));
    assert_eq!(weekday_of(-719_162), 1);
    assert_eq!(weekday_of(-719_528), 6);
}

#[test]
fn month_and_day_of_each_month() {
    let starts = [0, 31, 59, 90, 120, 151, 181, 212, 243, 273, 304, 334, 365];
    for month in 1..13 {
        let first = starts[month - 1] + 1;
        let last = starts[month];
        let length = last - first + 1;
        assert_eq!(month_and_day(false, first), (month as i64, 1));
        assert_eq!(month_and_day(false, last), (month as i64, length));
        let shift = if month > 2 { 1 } else { 0 };
        let leap_last = if month >= 2 { last + 1 } else { last };
        assert_eq!(month_and_day(true, first + shift), (month as i64, 1));
        assert_eq!(month_and_day(true, leap_last), (month as i64, leap_last - first - shift + 1));
    }
    assert_eq!(month_and_day(true, 60), (2, 29));
    assert_eq!(month_and_day(false, 60), (3, 1));
    assert_eq!(month_and_day(true, 366), (12, 31));
}

#[test]
fn quarters() {
    // the first day of each month of 2021
    let firsts = [
        18_628, 18_659, 18_687, 18_718, 18_748, 18_779, 18_809, 18_840, 18_871, 18_901, 18_932,
        18_962,
    ];
    let quarters = [1, 1, 1, 2, 2, 2, 3, 3, 3, 4, 4, 4];
    for (n, q) in firsts.iter().zip(quarters.iter()) {
        assert_eq!(quarter_of(*n), *q);
        assert_eq!(day_of(*n), 1);
    }
}

#[test]
fn weeks_at_the_turn_of_the_year() {
    // 2021-01-01 was a Friday of week 53 of 2020
    assert_eq!(iso_year_and_week(18_628), (2020, 53));
    // 2018-12-31 was a Monday of week 1 of 2019
    assert_eq!(iso_year_and_week(17_896), (2019, 1));
    // 2020-12-31 was a Thursday of week 53 of 2020
    assert_eq!(iso_year_and_week(18_627), (2020, 53));
    // 2016-01-03 was a Sunday of week 53 of 2015
    assert_eq!(iso_year_and_week(16_803), (2015, 53));
    // 2010-01-03 was a Sunday of week 53 of 2009
    assert_eq!(iso_year_and_week(14_612), (2009, 53));
    // 2024-12-31 was a Tuesday of week 1 of 2025
    assert_eq!(iso_year_and_week(20_088), (2025, 1));
    // 9999-12-31 was a Friday of week 52
    assert_eq!(iso_year_and_week(2_932_896), (9999, 52));
    // 2023-10-16 was a Monday of week 42
    assert_eq!(iso_year_and_week(19_646), (2023, 42));
}

#[test]
fn dates_agree_with_counting_from_march() {
    let mut n: i64 = -800_000;
    while n <= 800_000 {
        let (year, month, day) = date_by_march_years(n as i128);
        let (y, ordinal) = year_and_ordinal(n);
        assert_eq!(y as i128, year);
        assert_eq!(month_and_day(leap(year), ordinal), (month as i64, day as i64));
        assert_eq!(month_of(n) as i128, month);
        assert_eq!(day_of(n) as i128, day);
        n += 1;
    }
}

#[test]
fn dates_far_from_the_epoch_agree_with_counting_from_march() {
    let starts = [
        i64::MIN,
        i64::MAX - 1_000,
        -9_000_000_000_000_000,
        4_611_686_018_427_387_904,
        -106_751_991_168,
        106_751_991_167 - 1_000,
    ];
    for start in starts {
        for k in 0..1_001 {
            let n = start + k;
            let (year, month, day) = date_by_march_years(n as i128);
            assert_eq!(year_of(n) as i128, year);
            assert_eq!(month_of(n) as i128, month);
            assert_eq!(day_of(n) as i128, day);
            assert_eq!(is_leap(year_of(n)), leap(year));
        }
    }
}

#[test]
fn days_follow_one_another() {
    let mut n: i64 = -200_000;
    let (mut year, mut ordinal) = year_and_ordinal(n);
    let mut weekday = weekday_of(n);
    let (mut iso_year, mut iso_week) = iso_year_and_week(n);
    while n < 200_000 {
        n += 1;
        let (next_year, next_ordinal) = year_and_ordinal(n);
        if next_year == year {
            assert_eq!(next_ordinal, ordinal + 1);
        } else {
            assert_eq!(next_year, year + 1);
            assert_eq!(next_ordinal, 1);
            assert_eq!(ordinal, year_length(year));
        }
        let next_weekday = weekday_of(n);
        assert_eq!(next_weekday, weekday % 7 + 1);
        let (next_iso_year, next_iso_week) = iso_year_and_week(n);
        if next_weekday == 1 {
            if next_iso_year == iso_year {
                assert_eq!(next_iso_week, iso_week + 1);
            } else {
                assert_eq!(next_iso_year, iso_year + 1);
                assert_eq!(next_iso_week, 1);
                assert!(iso_week == 52 || iso_week == 53);
            }
        } else {
            assert_eq!((next_iso_year, next_iso_week), (iso_year, iso_week));
        }
        assert_eq!(iso_year_of(n), next_iso_year);
        assert_eq!(iso_week_of(n), next_iso_week);
        assert_eq!(year_of(n), next_year);
        assert_eq!(ordinal_of(n), next_ordinal);
        year = next_year;
        ordinal = next_ordinal;
        weekday = next_weekday;
        iso_year = next_iso_year;
        iso_week = next_iso_week;
    }
}

#[test]
fn the_first_week_holds_the_fourth_of_january() {
    let mut n: i64 = -150_000;
    while n < 150_000 {
        if month_of(n) == 1 && day_of(n) == 4 {
            assert_eq!(iso_year_and_week(n), (year_of(n), 1));
        }
        if month_of(n) == 12 && day_of(n) == 28 {
            assert_eq!(iso_year_of(n), year_of(n));
            assert!(iso_week_of(n) == 52 || iso_week_of(n) == 53);
        }
        n += 1;
    }
}

#[test]
fn clock_fields() {
    // 13:26:40.123456789
    let t = 48_400_123_456_789;
    assert_eq!(hour_of(t), 13);
    assert_eq!(minute_of(t), 26);
    assert_eq!(second_of(t), 40);
    assert_eq!(nanosecond_of(t), 123_456_789);
    assert_eq!((hour_of(0), minute_of(0), second_of(0), nanosecond_of(0)), (0, 0, 0, 0));
    let last = 86_399_999_999_999;
    assert_eq!(
        (hour_of(last), minute_of(last), second_of(last), nanosecond_of(last)),
        (23, 59, 59, 999_999_999)
    );
}

#[test]
fn clock_fields_wrap_around_the_day() {
    assert_eq!(hour_of(86_400_000_000_000), 0);
    assert_eq!(hour_of(86_400_000_000_000 + 3_600_000_000_000), 1);
    assert_eq!(hour_of(-1), 23);
    assert_eq!(minute_of(-1), 59);
    assert_eq!(second_of(-1), 59);
    assert_eq!(nanosecond_of(-1), 999_999_999);
    assert_eq!(hour_of(i64::MIN), 0);
    assert_eq!(minute_of(i64::MIN), 12);
    assert_eq!(second_of(i64::MIN), 43);
    assert_eq!(nanosecond_of(i64::MIN), 145_224_192);
    assert_eq!(hour_of(i64::MAX), 23);
    assert_eq!(minute_of(i64::MAX), 47);
    assert_eq!(second_of(i64::MAX), 16);
    assert_eq!(nanosecond_of(i64::MAX), 854_775_807);
}
