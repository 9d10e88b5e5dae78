use stoicdreams_timestamp::calendar::{
    day_in_month, leap_year_wide, month_in_year, month_length, year_and_day_of_days,
};

#[test]
fn years_are_scanned_from_year_zero() {
    assert_eq!(year_and_day_of_days(0), (0, 1));
    assert_eq!(year_and_day_of_days(364), (0, 365));
    assert_eq!(year_and_day_of_days(365), (1, 1));
    assert_eq!(year_and_day_of_days(366), (1, 2));
    assert_eq!(year_and_day_of_days(729), (1, 365));
    assert_eq!(year_and_day_of_days(730), (2, 1));
    assert_eq!(year_and_day_of_days(1_459), (3, 365));
    assert_eq!(year_and_day_of_days(1_460), (4, 1));
    assert_eq!(year_and_day_of_days(1_825), (4, 366));
    assert_eq!(year_and_day_of_days(1_826), (5, 1));
    assert_eq!(year_and_day_of_days(719_526), (1969, 365));
    assert_eq!(year_and_day_of_days(719_527), (1970, 1));
    assert_eq!(year_and_day_of_days(739_032), (2023, 148));
    assert_eq!(year_and_day_of_days(23_936_530), (65_535, 365));
    assert_eq!(year_and_day_of_days(23_936_531), (65_536, 1));
}

#[test]
fn the_day_of_the_year_is_one_of_the_days_of_its_year() {
    let mut expected: (u128, u16) = (0, 1);
    for days in 0..6_000u128 {
        assert_eq!(year_and_day_of_days(days), expected);
        let length: u16 = if expected.0 > 0 && leap_year_wide(expected.0) { 366 } else { 365 };
        expected = if expected.1 == length {
            (expected.0 + 1, 1)
        } else {
            (expected.0, expected.1 + 1)
        };
    }
}

#[test]
fn months_end_at_their_breakpoints() {
    let ends: [u16; 12] = [31, 59, 90, 120, 151, 181, 212, 243, 273, 304, 334, 365];
    let mut first: u16 = 1;
    for month in 1..=12u8 {
        let end = ends[month as usize - 1];
        assert_eq!(month_in_year(false, first), month);
        assert_eq!(month_in_year(false, end), month);
        assert_eq!(day_in_month(false, first), 1);
        assert_eq!(day_in_month(false, end), end - first + 1);
        assert_eq!(month_length(false, month), end - first + 1);
        first = end + 1;
    }
    let mut first: u16 = 1;
    for month in 1..=12u8 {
        let end = if month == 1 { 31 } else { ends[month as usize - 1] + 1 };
        assert_eq!(month_in_year(true, first), month);
        assert_eq!(month_in_year(true, end), month);
        assert_eq!(day_in_month(true, first), 1);
        assert_eq!(day_in_month(true, end), end - first + 1);
        assert_eq!(month_length(true, month), end - first + 1);
        first = end + 1;
    }
}

#[test]
fn every_day_of_a_year_is_a_day_of_its_month() {
    for leap in [false, true] {
        let length: u16 = if leap { 366 } else { 365 };
        let mut month: u8 = 1;
        let mut day: u16 = 1;
        for day_of_year in 1..=length {
            assert_eq!(month_in_year(leap, day_of_year), month);
            assert_eq!(day_in_month(leap, day_of_year), day);
            assert!(day <= month_length(leap, month));
            if day == month_length(leap, month) {
                month += 1;
                day = 1;
            } else {
                day += 1;
            }
        }
        assert_eq!(month, 13);
        assert_eq!(day, 1);
    }
}

#[test]
fn month_and_day_of_single_days() {
    assert_eq!(month_in_year(false, 148), 5);
    assert_eq!(day_in_month(false, 148), 28);
    assert_eq!(month_in_year(true, 60), 2);
    assert_eq!(day_in_month(true, 60), 29);
    assert_eq!(month_in_year(false, 60), 3);
    assert_eq!(day_in_month(false, 60), 1);
    assert_eq!(month_in_year(false, 359), 12);
    assert_eq!(day_in_month(false, 359), 25);
    assert_eq!(month_in_year(false, 365), 12);
    assert_eq!(day_in_month(false, 365), 31);
    assert_eq!(month_in_year(true, 366), 12);
    assert_eq!(day_in_month(true, 366), 31);
    assert_eq!(month_length(false, 2), 28);
    assert_eq!(month_length(true, 2), 29);
}

#[test]
fn leap_years_of_any_size() {
    assert!(leap_year_wide(0));
    assert!(leap_year_wide(2024));
    assert!(!leap_year_wide(1900));
    assert!(leap_year_wide(160_000));
    assert!(!leap_year_wide(160_100));
    assert!(leap_year_wide(u128::MAX - 3 - (u128::MAX - 3) % 400));
}

#[test]
fn year_zero_counts_365_days_and_has_a_29_february() {
    assert!(leap_year_wide(0));
    assert_eq!(year_and_day_of_days(59), (0, 60));
    assert_eq!(month_in_year(leap_year_wide(0), 60), 2);
    assert_eq!(day_in_month(leap_year_wide(0), 60), 29);
    assert_eq!(year_and_day_of_days(364), (0, 365));
    assert_eq!(month_in_year(leap_year_wide(0), 365), 12);
    assert_eq!(day_in_month(leap_year_wide(0), 365), 30);
    assert_eq!(year_and_day_of_days(365), (1, 1));
}
