use stoicdreams_timestamp::precisetime::PreciseTime;
use stoicdreams_timestamp::time::Time;

#[test]
fn precisetime_test_time_formatting_from_zero() {
    let time = Time::from_milliseconds(0);
    let utc_formatted = "00:00:00.000";
    assert_eq!(utc_formatted, time.format());
    assert_eq!(0, time.get_hour_of_day());
    assert_eq!(0, time.get_minutes_of_hour());
    assert_eq!(0, time.get_seconds_of_minute());
}

#[test]
fn precisetime_test_time_formatting() {
    let time = Time::from_milliseconds(5_504_294_967_295);
    let utc_formatted = "63707 02:49:27.295";
    assert_eq!(utc_formatted, time.format());
    assert_eq!(2, time.get_hour_of_day());
    assert_eq!(49, time.get_minutes_of_hour());
    assert_eq!(27, time.get_seconds_of_minute());
}

fn check_units(time: &PreciseTime, expected: [u128; 7], formatted: &str) {
    assert_eq!(time.to_nanoseconds(), expected[0]);
    assert_eq!(time.to_microseconds(), expected[1]);
    assert_eq!(time.to_milliseconds(), expected[2]);
    assert_eq!(time.to_seconds(), expected[3]);
    assert_eq!(time.to_minutes(), expected[4]);
    assert_eq!(time.to_hours(), expected[5]);
    assert_eq!(time.to_days(), expected[6]);
    assert_eq!(time.format(), formatted);
}

#[test]
fn precise_time_from_one_nanosecond() {
    let time = PreciseTime::from_nanoseconds(1);
    check_units(&time, [1, 0, 0, 0, 0, 0, 0], "00:00:00.000000001");
}

#[test]
fn precise_time_of_nothing() {
    let time = PreciseTime::new(0, 0, 0, 0, 0, 0, 0);
    check_units(&time, [0, 0, 0, 0, 0, 0, 0], "00:00:00.000000000");
}

#[test]
fn precise_time_of_one_of_each_unit() {
    let time = PreciseTime::new(0, 0, 0, 0, 0, 0, 1);
    check_units(&time, [1, 0, 0, 0, 0, 0, 0], "00:00:00.000000001");
    let time = PreciseTime::new(0, 0, 0, 0, 0, 1, 0);
    check_units(&time, [1_000, 1, 0, 0, 0, 0, 0], "00:00:00.000001000");
    let time = PreciseTime::new(0, 0, 0, 0, 1, 0, 0);
    check_units(&time, [1_000_000, 1_000, 1, 0, 0, 0, 0], "00:00:00.001000000");
    let time = PreciseTime::new(0, 0, 0, 1, 0, 0, 0);
    check_units(
        &time,
        [1_000_000_000, 1_000_000, 1_000, 1, 0, 0, 0],
        "00:00:01.000000000",
    );
    let time = PreciseTime::new(0, 0, 1, 0, 0, 0, 0);
    check_units(
        &time,
        [60_000_000_000, 60_000_000, 60_000, 60, 1, 0, 0],
        "00:01:00.000000000",
    );
    let time = PreciseTime::new(1, 0, 0, 0, 0, 0, 0);
    check_units(
        &time,
        [86_400_000_000_000, 86_400_000_000, 86_400_000, 86_400, 1_440, 24, 1],
        "1 00:00:00.000000000",
    );
}

#[test]
fn precise_time_of_one_hour() {
    let time = PreciseTime::from_nanoseconds(3_600_000_000_000);
    assert_eq!(time.to_hours(), 1);
    assert_eq!(time.to_minutes(), 60);
    assert_eq!(time.to_seconds(), 3600);
    assert_eq!(time.format(), "01:00:00.000000000");
    let time = PreciseTime::new(0, 1, 0, 0, 0, 0, 0);
    check_units(
        &time,
        [3_600_000_000_000, 3_600_000_000, 3_600_000, 3_600, 60, 1, 0],
        "01:00:00.000000000",
    );
}

#[test]
fn precise_time_adds_the_units_up() {
    let time = PreciseTime::new(2, 3, 4, 5, 6, 7, 8);
    check_units(
        &time,
        [183_845_006_007_008, 183_845_006_007, 183_845_006, 183_845, 3_064, 51, 2],
        "2 03:04:05.006007008",
    );
    let most = PreciseTime::new(65_535, 255, 255, 255, 65_535, 65_535, 65_535);
    assert_eq!(most.to_nanoseconds(), 5_663_157_620_600_600_535);
    assert_eq!(most.format(), "65545 19:20:20.600600535");
}

#[test]
fn every_count_of_nanoseconds_is_a_duration() {
    let time = PreciseTime::from_nanoseconds(u128::MAX);
    assert_eq!(time.to_nanoseconds(), u128::MAX);
    assert_eq!(time.to_days(), 3_938_453_320_844_195_178_974_243);
    assert_eq!(time.format(), "3938453320844195178974243 03:23:51.768211455");
    let copy = time.clone();
    assert_eq!(copy.to_nanoseconds(), u128::MAX);
    assert_eq!(
        format!("{:?}", PreciseTime::from_nanoseconds(7)),
        "PreciseTime { nanoseconds: 7 }"
    );
}
