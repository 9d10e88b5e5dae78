use stoicdreams_timestamp::datetime::DateTime;
use stoicdreams_timestamp::time_helpers::{
    is_leap_year, precise_time_format, render, time_format, time_format_from_unix_epoch,
    EPOCH_START,
};

#[test]
fn leap_year_table() {
    assert!(is_leap_year(0));
    assert!(is_leap_year(4));
    assert!(!is_leap_year(1900));
    assert!(is_leap_year(2000));
    assert!(!is_leap_year(2023));
    assert!(is_leap_year(2024));
    assert!(!is_leap_year(1));
    assert!(!is_leap_year(100));
    assert!(is_leap_year(400));
    assert!(!is_leap_year(2100));
    assert!(is_leap_year(2400));
    assert!(!is_leap_year(65535));
    assert!(is_leap_year(65532));
}

#[test]
fn leap_years_follow_the_rule() {
    for year in 0..=u16::MAX {
        let expected = year % 4 == 0 && (year % 100 != 0 || year % 400 == 0);
        assert_eq!(is_leap_year(year), expected);
    }
}

#[test]
fn unix_epoch_boundary() {
    assert_eq!(
        time_format_from_unix_epoch(1_685_284_606_076, "%Y-%m-%d %H:%M:%S.%f"),
        "2023-05-28 14:36:46.076"
    );
    assert_eq!(
        time_format(EPOCH_START + 1_685_284_606_076, "%Y-%m-%d %H:%M:%S.%f"),
        "2023-05-28 14:36:46.076"
    );
    assert_eq!(
        time_format_from_unix_epoch(-EPOCH_START, "%Y-%m-%d %H:%M:%S.%f"),
        "0-01-01 00:00:00.000"
    );
    assert_eq!(
        time_format_from_unix_epoch(-1, "%Y-%m-%d %H:%M:%S.%f"),
        "1969-12-31 23:59:59.999"
    );
    assert_eq!(
        time_format_from_unix_epoch(i64::MAX - EPOCH_START, "%H:%M:%S.%f"),
        "07:12:55.807"
    );
}

#[test]
fn each_token_stands_for_its_field() {
    let instant = DateTime::new(2023, 5, 8, 4, 6, 9).to_milliseconds() + 7;
    assert_eq!(time_format(instant, "%Y"), "2023");
    assert_eq!(time_format(instant, "%m"), "05");
    assert_eq!(time_format(instant, "%D"), "739012");
    assert_eq!(time_format(instant, "%d"), "08");
    assert_eq!(time_format(instant, "%H"), "04");
    assert_eq!(time_format(instant, "%M"), "06");
    assert_eq!(time_format(instant, "%S"), "09");
    assert_eq!(time_format(instant, "%f"), "007");
    let late = DateTime::new(987, 12, 31, 23, 59, 58).to_milliseconds() + 999;
    assert_eq!(
        time_format(late, "%f|%S|%M|%H|%d|%D|%m|%Y"),
        "999|58|59|23|31|360858|12|987"
    );
}

#[test]
fn every_place_of_a_token_is_filled() {
    let instant = DateTime::new(2023, 5, 28, 14, 36, 46).to_milliseconds() + 76;
    assert_eq!(time_format(instant, "%Y%Y %Y"), "20232023 2023");
    assert_eq!(time_format(instant, "%H%H:%M%M:%S%S"), "1414:3636:4646");
    assert_eq!(time_format(instant, "%d/%m/%Y %d/%m/%Y"), "28/05/2023 28/05/2023");
    assert_eq!(time_format(instant, "%f%f"), "076076");
    assert_eq!(time_format(instant, "%D-%D"), "739032-739032");
}

#[test]
fn what_is_no_token_is_kept() {
    let instant = DateTime::new(2023, 5, 28, 14, 36, 46).to_milliseconds() + 76;
    assert_eq!(time_format(instant, ""), "");
    assert_eq!(time_format(instant, "no tokens here"), "no tokens here");
    assert_eq!(time_format(instant, "  kept as it is  "), "  kept as it is  ");
    assert_eq!(time_format(instant, "%y %h %s %F %x %"), "%y %h %s %F %x %");
    assert_eq!(time_format(instant, "100%"), "100%");
    assert_eq!(time_format(instant, "%%Y"), "%2023");
    assert_eq!(time_format(instant, "% Y"), "% Y");
    assert_eq!(time_format(instant, "Y%m"), "Y05");
    assert_eq!(time_format(instant, "%Ym"), "2023m");
    assert_eq!(time_format(instant, "\u{65e5}\u{4ed8} %Y\u{5e74}"), "\u{65e5}\u{4ed8} 2023\u{5e74}");
}

#[test]
fn a_template_of_the_time_of_day_does_not_depend_on_the_date() {
    let time_of_day: i64 = ((14 * 60 + 36) * 60 + 46) * 1_000 + 76;
    for days in [0i64, 1, 365, 366, 739_032, 23_936_531, 106_751_991_166] {
        let instant = days * 86_400_000 + time_of_day;
        assert_eq!(time_format(instant, "%H:%M:%S"), "14:36:46");
        assert_eq!(time_format(instant, "at %H h %M min %S.%f s"), "at 14 h 36 min 46.076 s");
    }
}

#[test]
fn the_days_token_alone() {
    assert_eq!(time_format(0, "%D"), "");
    assert_eq!(time_format(86_399_999, "%D"), "");
    assert_eq!(time_format(86_400_000, "%D"), "1");
    assert_eq!(time_format(5 * 86_400_000 + 1, "%D"), "5");
    assert_eq!(time_format(i64::MAX, "%D"), "106751991167");
    assert_eq!(precise_time_format(0, "%D"), "");
    assert_eq!(precise_time_format(86_399_999_999_999, "%D"), "");
    assert_eq!(precise_time_format(86_400_000_000_000, "%D"), "1");
}

#[test]
fn without_days_the_ends_are_trimmed() {
    assert_eq!(time_format(0, "%D %H:%M:%S.%f"), "00:00:00.000");
    assert_eq!(time_format(0, "  %D %H  "), "00");
    assert_eq!(time_format(0, "\t%H %D\n"), "00");
    assert_eq!(time_format(0, " a %D b "), "a  b");
    assert_eq!(time_format(0, "\u{a0}\u{3000}%D\u{2003}x\u{2028}"), "x");
    assert_eq!(time_format(0, "%D%D %D"), "");
    assert_eq!(time_format(0, "days: %D"), "days:");
    assert_eq!(time_format(0, "\u{200b}%D\u{200b}"), "\u{200b}\u{200b}");
}

#[test]
fn with_days_nothing_is_trimmed() {
    assert_eq!(time_format(86_400_000, "%D %H:%M:%S.%f"), "1 00:00:00.000");
    assert_eq!(time_format(2 * 86_400_000, "  %D %H  "), "  2 00  ");
    assert_eq!(time_format(2 * 86_400_000, " a %D b "), " a 2 b ");
    assert_eq!(time_format(0, "  %H  "), "  00  ");
}

#[test]
fn tokens_are_filled_in_one_after_the_other() {
    assert_eq!(time_format(0, "%%Dd"), "01");
    assert_eq!(time_format(0, "%%DH"), "00");
    assert_eq!(time_format(86_400_000, "%%Dd"), "%1d");
    assert_eq!(time_format(0, "%%DY"), "%Y");
    assert_eq!(time_format(0, "%%Dm"), "%m");
    assert_eq!(time_format(0, "%%DD"), "%D");
}

#[test]
fn precise_format_counts_nanoseconds() {
    assert_eq!(precise_time_format(0, "%D %H:%M:%S.%f"), "00:00:00.000000000");
    assert_eq!(precise_time_format(1, "%f"), "000000001");
    assert_eq!(precise_time_format(999_999_999, "%S.%f"), "00.999999999");
    assert_eq!(precise_time_format(1_000_000_000, "%S.%f"), "01.000000000");
    assert_eq!(
        precise_time_format(3_600_000_000_000, "%D %H:%M:%S.%f"),
        "01:00:00.000000000"
    );
    assert_eq!(
        precise_time_format(90_061_001_002_003, "%D %H:%M:%S.%f"),
        "1 01:01:01.001002003"
    );
    let instant = (DateTime::new(2023, 5, 28, 14, 36, 46).to_milliseconds() as u128) * 1_000_000
        + 123_456_789;
    assert_eq!(
        precise_time_format(instant, "%Y-%m-%d %H:%M:%S.%f"),
        "2023-05-28 14:36:46.123456789"
    );
}

#[test]
fn render_takes_fields_as_they_are() {
    assert_eq!(render("%Y-%m-%d", 739_032, 0, 0, 0, 0, 3), "2023-05-28");
    assert_eq!(render("%D %H:%M:%S.%f", 3, 7, 8, 9, 12, 3), "3 07:08:09.012");
    assert_eq!(render("%D %H:%M:%S.%f", 0, 7, 8, 9, 12, 9), "07:08:09.000000012");
    assert_eq!(render("%H:%M:%S.%f", 0, 123, 200, 255, 12_345, 3), "123:200:255.12345");
    assert_eq!(render("%f", 0, 0, 0, 0, 5, 0), "5");
    assert_eq!(render("%f", 0, 0, 0, 0, 0, 1), "0");
    assert_eq!(render("%f", 0, 0, 0, 0, 42, 12), "000000000042");
    assert_eq!(render("%Y", 400 * 146_097, 0, 0, 0, 0, 3), "160000");
}
