//! The arithmetic between a count of days since the start of year 0 and the
//! fields of a date in the proleptic Gregorian calendar.
//!
//! The days before a year are `year * 365` and one more for each leap year from
//! year 1 to the year before, so year 0 counts 365 days. It is a leap year all the
//! same, and its February has 29 days: its months hold 366 dates, and the last of
//! them, 31 December, is the day on which year 1 begins. That day is counted to
//! year 1.

use vstd::prelude::*;

verus! {

/// Whether `year` is a leap year: divisible by 4, and not by 100 unless also by 400.
pub open spec fn spec_is_leap_year(year: int) -> bool {
    year % 4 == 0 && (year % 100 != 0 || year % 400 == 0)
}

/// The days that `year` counts: 366 for a leap year after year 0, 365 for every
/// other year, year 0 among them.
pub open spec fn year_length(year: int) -> int {
    if year > 0 && spec_is_leap_year(year) {
        366
    } else {
        365
    }
}

/// The days from the start of year 0 to the start of `year`.
pub open spec fn days_before_year(year: int) -> int {
    if year <= 0 {
        0
    } else {
        year * 365 + (year - 1) / 4 - (year - 1) / 100 + (year - 1) / 400
    }
}

/// The length of `month` (1 to 12) in a year whose February has 29 days if `leap`.
pub open spec fn days_in_month(leap: bool, month: int) -> int {
    if month == 2 {
        if leap {
            29
        } else {
            28
        }
    } else if month == 4 || month == 6 || month == 9 || month == 11 {
        30
    } else {
        31
    }
}

/// The days of the months before `month`, added up.
pub open spec fn days_before_month(leap: bool, month: int) -> int
    decreases month,
{
    if month <= 1 {
        0
    } else {
        days_before_month(leap, month - 1) + days_in_month(leap, month - 1)
    }
}

/// The days from the start of year 0 to the given date.
pub open spec fn days_from_date(year: int, month: int, day: int) -> int {
    days_before_year(year) + days_before_month(spec_is_leap_year(year), month) + day - 1
}

/// The milliseconds from the start of year 0 to the given date and time of day.
pub open spec fn milliseconds_from_fields(
    year: int,
    month: int,
    day: int,
    hour: int,
    minute: int,
    second: int,
) -> int {
    days_from_date(year, month, day) * 86_400_000 + hour * 3_600_000 + minute * 60_000 + second
        * 1_000
}

/// The year at which the scan stops: starting at `year` with `days` left, it takes
/// one year's days off at a time for as long as a whole year is left.
pub open spec fn scan_year(days: int, year: int) -> int
    decreases days,
{
    if days >= year_length(year) {
        scan_year(days - year_length(year), year + 1)
    } else {
        year
    }
}

/// The days that are left when that scan stops.
pub open spec fn scan_days(days: int, year: int) -> int
    decreases days,
{
    if days >= year_length(year) {
        scan_days(days - year_length(year), year + 1)
    } else {
        days
    }
}

/// The year of the day that lies `days` days after the start of year 0.
pub open spec fn year_of_days(days: int) -> int {
    scan_year(days, 0)
}

/// The day of the year, from 1, of the day that lies `days` days after the start
/// of year 0.
pub open spec fn day_of_year_of_days(days: int) -> int {
    scan_days(days, 0) + 1
}

/// The month that holds the day `day_of_year` (from 1) of a year: the first month
/// up to whose end the year has that many days. A day that the year does not have
/// lies in no month, for which 0 stands.
pub open spec fn month_of_day_of_year(leap: bool, day_of_year: int) -> int {
    let extra: int = if leap {
        1
    } else {
        0
    };
    if day_of_year < 1 {
        0
    } else if day_of_year <= 31 {
        1
    } else if day_of_year <= 59 + extra {
        2
    } else if day_of_year <= 90 + extra {
        3
    } else if day_of_year <= 120 + extra {
        4
    } else if day_of_year <= 151 + extra {
        5
    } else if day_of_year <= 181 + extra {
        6
    } else if day_of_year <= 212 + extra {
        7
    } else if day_of_year <= 243 + extra {
        8
    } else if day_of_year <= 273 + extra {
        9
    } else if day_of_year <= 304 + extra {
        10
    } else if day_of_year <= 334 + extra {
        11
    } else if day_of_year <= 365 + extra {
        12
    } else {
        0
    }
}

/// The day of the month, from 1, of the day `day_of_year` of a year: what is left
/// of it when the months before its month are taken off.
pub open spec fn day_of_month_of_day_of_year(leap: bool, day_of_year: int) -> int {
    day_of_year - days_before_month(leap, month_of_day_of_year(leap, day_of_year))
}

/// The whole days in `milliseconds`.
pub open spec fn days_of(milliseconds: int) -> int {
    milliseconds / 86_400_000
}

/// The year of the instant `milliseconds` after the start of year 0.
pub open spec fn year_of(milliseconds: int) -> int {
    year_of_days(days_of(milliseconds))
}

/// The day of the year, from 1, of that instant.
pub open spec fn day_of_year_of(milliseconds: int) -> int {
    day_of_year_of_days(days_of(milliseconds))
}

/// The month, 1 to 12, of that instant.
pub open spec fn month_of(milliseconds: int) -> int {
    month_of_day_of_year(spec_is_leap_year(year_of(milliseconds)), day_of_year_of(milliseconds))
}

/// The day of the month, from 1, of that instant.
pub open spec fn day_of_month_of(milliseconds: int) -> int {
    day_of_month_of_day_of_year(
        spec_is_leap_year(year_of(milliseconds)),
        day_of_year_of(milliseconds),
    )
}

/// The day of the week of that instant, 0 for Sunday to 6 for Saturday. The start
/// of year 0 is set three days off, so that the count agrees with known dates.
pub open spec fn day_of_week_of(milliseconds: int) -> int {
    (days_of(milliseconds) + 3 + 4) % 7
}

/// The hour of the day, 0 to 23.
pub open spec fn hour_of(milliseconds: int) -> int {
    (milliseconds / 3_600_000) % 24
}

/// The minute of the hour, 0 to 59.
pub open spec fn minute_of(milliseconds: int) -> int {
    (milliseconds / 60_000) % 60
}

/// The second of the minute, 0 to 59.
pub open spec fn second_of(milliseconds: int) -> int {
    (milliseconds / 1_000) % 60
}

/// The millisecond of the second, 0 to 999.
pub open spec fn millisecond_of(milliseconds: int) -> int {
    milliseconds % 1_000
}

/// A number that is `quotient` times `divisor` and a rest below `divisor` has that
/// quotient and that rest.
pub proof fn lemma_quotient_and_rest(value: int, divisor: int, quotient: int, rest: int)
    requires
        0 < divisor,
        0 <= rest < divisor,
        value == quotient * divisor + rest,
    ensures
        value / divisor == quotient,
        value % divisor == rest,
{
    vstd::arithmetic::div_mod::lemma_fundamental_div_mod_converse(value, divisor, quotient, rest);
}

/// From one number to the next, the quotients by 4, 100 and 400 go up by one where
/// the next number is a multiple, and stay otherwise.
proof fn lemma_quotient_step(value: int)
    requires
        0 <= value,
    ensures
        (value + 1) / 4 == value / 4 + if (value + 1) % 4 == 0 { 1int } else { 0 },
        (value + 1) / 100 == value / 100 + if (value + 1) % 100 == 0 { 1int } else { 0 },
        (value + 1) / 400 == value / 400 + if (value + 1) % 400 == 0 { 1int } else { 0 },
        (value + 1) % 400 == 0 ==> (value + 1) % 100 == 0,
        (value + 1) % 100 == 0 ==> (value + 1) % 4 == 0,
{
}

/// Each year starts as many days after the one before as that year has.
pub proof fn lemma_days_before_next_year(year: int)
    requires
        0 <= year,
    ensures
        days_before_year(year + 1) == days_before_year(year) + year_length(year),
{
    if year > 0 {
        lemma_quotient_step(year - 1);
    }
}

/// The fields of the time of day are those that the milliseconds were made of.
pub proof fn lemma_time_of_day(days: int, hour: int, minute: int, second: int, millisecond: int)
    requires
        0 <= days,
        0 <= hour < 24,
        0 <= minute < 60,
        0 <= second < 60,
        0 <= millisecond < 1_000,
    ensures
        ({
            let milliseconds = days * 86_400_000 + hour * 3_600_000 + minute * 60_000 + second
                * 1_000 + millisecond;
            &&& days_of(milliseconds) == days
            &&& hour_of(milliseconds) == hour
            &&& minute_of(milliseconds) == minute
            &&& second_of(milliseconds) == second
            &&& millisecond_of(milliseconds) == millisecond
        }),
{
    let minutes = (days * 24 + hour) * 60 + minute;
    let milliseconds = days * 86_400_000 + hour * 3_600_000 + minute * 60_000 + second * 1_000
        + millisecond;
    lemma_quotient_and_rest(
        milliseconds,
        86_400_000,
        days,
        hour * 3_600_000 + minute * 60_000 + second * 1_000 + millisecond,
    );
    lemma_quotient_and_rest(
        milliseconds,
        3_600_000,
        days * 24 + hour,
        minute * 60_000 + second * 1_000 + millisecond,
    );
    lemma_quotient_and_rest(days * 24 + hour, 24, days, hour);
    lemma_quotient_and_rest(milliseconds, 60_000, minutes, second * 1_000 + millisecond);
    lemma_quotient_and_rest(minutes, 60, days * 24 + hour, minute);
    lemma_quotient_and_rest(milliseconds, 1_000, minutes * 60 + second, millisecond);
    lemma_quotient_and_rest(minutes * 60 + second, 60, minutes, second);
}

/// Later years start later.
pub proof fn lemma_days_before_year_grows(earlier: int, later: int)
    requires
        0 <= earlier <= later,
    ensures
        days_before_year(earlier) + 365 * (later - earlier) <= days_before_year(later),
    decreases later - earlier,
{
    if earlier < later {
        lemma_days_before_year_grows(earlier, later - 1);
        lemma_days_before_next_year(later - 1);
    }
}

/// The days before each month, written out.
pub proof fn lemma_days_before_month_table(leap: bool)
    ensures
        days_before_month(leap, 1) == 0,
        days_before_month(leap, 2) == 31,
        days_before_month(leap, 3) == 59 + if leap { 1int } else { 0 },
        days_before_month(leap, 4) == 90 + if leap { 1int } else { 0 },
        days_before_month(leap, 5) == 120 + if leap { 1int } else { 0 },
        days_before_month(leap, 6) == 151 + if leap { 1int } else { 0 },
        days_before_month(leap, 7) == 181 + if leap { 1int } else { 0 },
        days_before_month(leap, 8) == 212 + if leap { 1int } else { 0 },
        days_before_month(leap, 9) == 243 + if leap { 1int } else { 0 },
        days_before_month(leap, 10) == 273 + if leap { 1int } else { 0 },
        days_before_month(leap, 11) == 304 + if leap { 1int } else { 0 },
        days_before_month(leap, 12) == 334 + if leap { 1int } else { 0 },
        days_before_month(leap, 13) == 365 + if leap { 1int } else { 0 },
{
    reveal_with_fuel(days_before_month, 14);
}

/// What the scan arrives at, without the scan: it accounts for every day and
/// leaves less than the year has at which it stops.
pub proof fn lemma_scan(days: int, year: int)
    requires
        0 <= days,
        0 <= year,
    ensures
        year <= scan_year(days, year),
        0 <= scan_days(days, year) < year_length(scan_year(days, year)),
        days_before_year(scan_year(days, year)) + scan_days(days, year) == days_before_year(year)
            + days,
    decreases days,
{
    if days >= year_length(year) {
        lemma_scan(days - year_length(year), year + 1);
        lemma_days_before_next_year(year);
    }
}

/// The year of a day is the year in which the day lies: the day is one of the
/// year's days, counted from the year's start.
pub proof fn lemma_year_of_days(days: int)
    requires
        0 <= days,
    ensures
        0 <= year_of_days(days),
        1 <= day_of_year_of_days(days) <= year_length(year_of_days(days)),
        days_before_year(year_of_days(days)) + day_of_year_of_days(days) - 1 == days,
        days_before_year(year_of_days(days)) <= days < days_before_year(year_of_days(days) + 1),
{
    lemma_scan(days, 0);
    lemma_days_before_next_year(year_of_days(days));
}

/// A day that lies between the start of `year` and the start of the next is a day
/// of `year`.
pub proof fn lemma_year_of_days_is(days: int, year: int)
    requires
        0 <= year,
        days_before_year(year) <= days < days_before_year(year + 1),
    ensures
        year_of_days(days) == year,
        day_of_year_of_days(days) == days - days_before_year(year) + 1,
{
    lemma_days_before_year_grows(0, year);
    lemma_year_of_days(days);
    let found = year_of_days(days);
    if found < year {
        lemma_days_before_year_grows(found + 1, year);
    } else if found > year {
        lemma_days_before_year_grows(year + 1, found);
    }
}

/// The year fits in 16 bits up to the last day of year 65535, and no further.
pub proof fn lemma_year_fits_u16(days: int)
    requires
        0 <= days,
    ensures
        year_of_days(days) <= 65_535 <==> days < days_before_year(65_536),
        days_before_year(65_536) == 23_936_531,
{
    lemma_year_of_days(days);
    let found = year_of_days(days);
    if found <= 65_535 {
        lemma_days_before_year_grows(found + 1, 65_536);
    } else {
        lemma_days_before_year_grows(65_536, found);
    }
}

/// A day of the year lies in one of the twelve months, as one of that month's
/// days, and the months before it and the day of the month account for it.
pub proof fn lemma_month_and_day(leap: bool, day_of_year: int)
    requires
        1 <= day_of_year <= 365 + if leap { 1int } else { 0 },
    ensures
        1 <= month_of_day_of_year(leap, day_of_year) <= 12,
        1 <= day_of_month_of_day_of_year(leap, day_of_year) <= days_in_month(
            leap,
            month_of_day_of_year(leap, day_of_year),
        ),
        day_of_month_of_day_of_year(leap, day_of_year) <= 31,
        days_before_month(leap, month_of_day_of_year(leap, day_of_year))
            + day_of_month_of_day_of_year(leap, day_of_year) == day_of_year,
{
    lemma_days_before_month_table(leap);
}

/// A day of a month is found again from its day of the year.
pub proof fn lemma_month_of_date(leap: bool, month: int, day: int)
    requires
        1 <= month <= 12,
        1 <= day <= days_in_month(leap, month),
    ensures
        month_of_day_of_year(leap, days_before_month(leap, month) + day) == month,
        day_of_month_of_day_of_year(leap, days_before_month(leap, month) + day) == day,
        1 <= days_before_month(leap, month) + day <= 365 + if leap { 1int } else { 0 },
{
    lemma_days_before_month_table(leap);
}

/// The fields of every instant lie in their ranges: the month is one of the
/// twelve, the day one of the days of its month, and the day of the year one of the
/// days of its year.
pub proof fn lemma_fields_in_range(milliseconds: int)
    requires
        0 <= milliseconds,
    ensures
        0 <= year_of(milliseconds),
        1 <= month_of(milliseconds) <= 12,
        1 <= day_of_month_of(milliseconds) <= days_in_month(
            spec_is_leap_year(year_of(milliseconds)),
            month_of(milliseconds),
        ),
        day_of_month_of(milliseconds) <= 31,
        1 <= day_of_year_of(milliseconds) <= year_length(year_of(milliseconds)),
{
    let days = days_of(milliseconds);
    lemma_year_of_days(days);
    lemma_month_and_day(spec_is_leap_year(year_of_days(days)), day_of_year_of_days(days));
}

/// Round trip. A date of the calendar with a time of day, turned into milliseconds
/// and taken apart again, gives the fields it was made of, and its day of the year
/// is the days of the months before and the day. The one date left out is
/// 31 December of year 0, which is the day on which year 1 begins (see
/// `lemma_last_day_of_year_zero`).
pub proof fn lemma_fields_round_trip(
    year: int,
    month: int,
    day: int,
    hour: int,
    minute: int,
    second: int,
)
    requires
        0 <= year,
        1 <= month <= 12,
        1 <= day <= days_in_month(spec_is_leap_year(year), month),
        0 <= hour < 24,
        0 <= minute < 60,
        0 <= second < 60,
        !(year == 0 && month == 12 && day == 31),
    ensures
        milliseconds_from_fields(year, month, day, hour, minute, second) >= 0,
        year_of(milliseconds_from_fields(year, month, day, hour, minute, second)) == year,
        month_of(milliseconds_from_fields(year, month, day, hour, minute, second)) == month,
        day_of_month_of(milliseconds_from_fields(year, month, day, hour, minute, second)) == day,
        day_of_year_of(milliseconds_from_fields(year, month, day, hour, minute, second))
            == days_before_month(spec_is_leap_year(year), month) + day,
        hour_of(milliseconds_from_fields(year, month, day, hour, minute, second)) == hour,
        minute_of(milliseconds_from_fields(year, month, day, hour, minute, second)) == minute,
        second_of(milliseconds_from_fields(year, month, day, hour, minute, second)) == second,
        millisecond_of(milliseconds_from_fields(year, month, day, hour, minute, second)) == 0,
{
    let leap = spec_is_leap_year(year);
    let days = days_from_date(year, month, day);
    lemma_month_of_date(leap, month, day);
    lemma_days_before_month_table(leap);
    lemma_days_before_year_grows(0, year);
    lemma_days_before_next_year(year);
    lemma_time_of_day(days, hour, minute, second, 0);
    lemma_year_of_days_is(days, year);
}

/// The date that the round trip leaves out. 31 December of year 0 has no instant
/// of its own: what is built from it is the instant of 1 January of year 1, and is
/// taken apart as that day.
pub proof fn lemma_last_day_of_year_zero(hour: int, minute: int, second: int)
    requires
        0 <= hour < 24,
        0 <= minute < 60,
        0 <= second < 60,
    ensures
        milliseconds_from_fields(0, 12, 31, hour, minute, second) == milliseconds_from_fields(
            1,
            1,
            1,
            hour,
            minute,
            second,
        ),
        year_of(milliseconds_from_fields(0, 12, 31, hour, minute, second)) == 1,
        month_of(milliseconds_from_fields(0, 12, 31, hour, minute, second)) == 1,
        day_of_month_of(milliseconds_from_fields(0, 12, 31, hour, minute, second)) == 1,
{
    lemma_days_before_month_table(true);
    lemma_days_before_month_table(false);
    lemma_fields_round_trip(1, 1, 1, hour, minute, second);
}

/// The other way round. The fields of any instant, put together again, give the
/// instant.
pub proof fn lemma_fields_make_the_instant(milliseconds: int)
    requires
        0 <= milliseconds,
    ensures
        milliseconds_from_fields(
            year_of(milliseconds),
            month_of(milliseconds),
            day_of_month_of(milliseconds),
            hour_of(milliseconds),
            minute_of(milliseconds),
            second_of(milliseconds),
        ) + millisecond_of(milliseconds) == milliseconds,
{
    let days = days_of(milliseconds);
    lemma_year_of_days(days);
    lemma_month_and_day(spec_is_leap_year(year_of_days(days)), day_of_year_of_days(days));
    lemma_fields_of_time(milliseconds);
}

/// The days and the time of day account for every millisecond, and each field of
/// the time of day lies in its range.
pub proof fn lemma_fields_of_time(milliseconds: int)
    requires
        0 <= milliseconds,
    ensures
        0 <= days_of(milliseconds),
        0 <= hour_of(milliseconds) < 24,
        0 <= minute_of(milliseconds) < 60,
        0 <= second_of(milliseconds) < 60,
        0 <= millisecond_of(milliseconds) < 1_000,
        0 <= day_of_week_of(milliseconds) < 7,
        days_of(milliseconds) * 86_400_000 + hour_of(milliseconds) * 3_600_000 + minute_of(
            milliseconds,
        ) * 60_000 + second_of(milliseconds) * 1_000 + millisecond_of(milliseconds)
            == milliseconds,
{
    let seconds = milliseconds / 1_000;
    let minutes = milliseconds / 60_000;
    let hours = milliseconds / 3_600_000;
    assert(seconds / 60 == minutes);
    assert(minutes / 60 == hours);
    assert(hours / 24 == days_of(milliseconds));
}

/// Whether `year` is a leap year, for a year of any size.
pub fn leap_year_wide(year: u128) -> (leap: bool)
    ensures
        leap == spec_is_leap_year(year as int),
{
    year % 4 == 0 && (year % 100 != 0 || year % 400 == 0)
}

/// The year of the day that lies `days` days after the start of year 0, and the
/// day of that year, from 1. This walks through the years one by one.
pub fn year_and_day_of_days(days: u128) -> (found: (u128, u16))
    ensures
        found.0 == year_of_days(days as int),
        found.1 == day_of_year_of_days(days as int),
        1 <= found.1 <= year_length(found.0 as int),
{
    let mut year: u128 = 0;
    let mut left: u128 = days;
    let mut length: u128 = 365;
    while left >= length
        invariant
            scan_year(left as int, year as int) == scan_year(days as int, 0),
            scan_days(left as int, year as int) == scan_days(days as int, 0),
            year * 365 + left <= days,
            length == year_length(year as int),
        decreases left,
    {
        left = left - length;
        year = year + 1;
        length = if leap_year_wide(year) {
            366
        } else {
            365
        };
    }
    (year, (left + 1) as u16)
}

/// The month, 1 to 12, that holds the day `day_of_year` (from 1) of a year.
pub fn month_in_year(leap: bool, day_of_year: u16) -> (month: u8)
    requires
        1 <= day_of_year <= 365 + if leap { 1int } else { 0 },
    ensures
        month == month_of_day_of_year(leap, day_of_year as int),
        1 <= month <= 12,
{
    let extra: u16 = if leap {
        1
    } else {
        0
    };
    if day_of_year <= 31 {
        1
    } else if day_of_year <= 59 + extra {
        2
    } else if day_of_year <= 90 + extra {
        3
    } else if day_of_year <= 120 + extra {
        4
    } else if day_of_year <= 151 + extra {
        5
    } else if day_of_year <= 181 + extra {
        6
    } else if day_of_year <= 212 + extra {
        7
    } else if day_of_year <= 243 + extra {
        8
    } else if day_of_year <= 273 + extra {
        9
    } else if day_of_year <= 304 + extra {
        10
    } else if day_of_year <= 334 + extra {
        11
    } else {
        12
    }
}

/// The length of `month` (1 to 12) in a year whose February has 29 days if `leap`.
pub fn month_length(leap: bool, month: u8) -> (length: u16)
    ensures
        length == days_in_month(leap, month as int),
        28 <= length <= 31,
{
    if month == 2 {
        if leap {
            29
        } else {
            28
        }
    } else if month == 4 || month == 6 || month == 9 || month == 11 {
        30
    } else {
        31
    }
}

/// The day of the month, from 1, of the day `day_of_year` (from 1) of a year: the
/// months' lengths are taken off one after the other until what is left fits in
/// the month that has been reached.
pub fn day_in_month(leap: bool, day_of_year: u16) -> (day: u16)
    requires
        1 <= day_of_year <= 365 + if leap { 1int } else { 0 },
    ensures
        day == day_of_month_of_day_of_year(leap, day_of_year as int),
        1 <= day <= days_in_month(leap, month_of_day_of_year(leap, day_of_year as int)),
        day <= 31,
{
    let mut left: u16 = day_of_year;
    let mut month: u8 = 1;
    proof {
        lemma_days_before_month_table(leap);
        lemma_month_and_day(leap, day_of_year as int);
    }
    while left > month_length(leap, month)
        invariant
            1 <= month <= 12,
            1 <= left,
            left + days_before_month(leap, month as int) == day_of_year,
            day_of_year <= 365 + if leap { 1int } else { 0 },
        decreases 12 - month,
    {
        proof {
            lemma_days_before_month_table(leap);
            reveal_with_fuel(days_before_month, 2);
        }
        left = left - month_length(leap, month);
        month = month + 1;
    }
    left
}

} // verus!
