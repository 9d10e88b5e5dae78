//! `DateTime`: an instant, held as the milliseconds since the start of year 0.

use crate::calendar::{
    day_in_month, day_of_month_of, day_of_week_of, day_of_year_of, days_before_month,
    days_before_year, days_in_month, days_of, hour_of, leap_year_wide,
    lemma_days_before_month_table, lemma_year_fits_u16, lemma_year_of_days, millisecond_of,
    milliseconds_from_fields, minute_of, month_in_year, month_length, month_of, second_of,
    spec_is_leap_year, year_and_day_of_days, year_length, year_of,
};
use crate::time_helpers::{is_leap_year, time_format, time_format_text, EPOCH_START};
use crate::timestamp::now_milliseconds;
use vstd::prelude::*;

verus! {

/// The type of a count of milliseconds that stands for an instant.
pub type DateTimeUnit = i64;

/// An instant: the milliseconds that have passed since the start of year 0 of the
/// proleptic Gregorian calendar. An instant never lies before that start. Its
/// fields are worked out from the count whenever they are asked for.
#[derive(Debug)]
pub struct DateTime {
    milliseconds: DateTimeUnit,
}

impl View for DateTime {
    type V = int;

    /// The milliseconds since the start of year 0.
    closed spec fn view(&self) -> int {
        self.milliseconds as int
    }
}

/// The template of `DateTime::format`.
pub open spec fn date_time_template() -> Seq<char> {
    "%Y-%m-%d %H:%M:%S.%f"@
}

impl DateTime {
    #[verifier::type_invariant]
    spec fn not_before_year_zero(self) -> bool {
        self.milliseconds >= 0
    }

    /// The instant that the system clock shows, in UTC. The clock counts from the
    /// Unix epoch, so the instant does not lie before it; a clock that is set to an
    /// earlier time gives the epoch itself.
    pub fn now() -> (now: Self)
        ensures
            now@ >= EPOCH_START,
    {
        Self::from_unix_reading(now_milliseconds())
    }

    /// The instant of a reading of the clock: the instant that lies `since_epoch`
    /// milliseconds after the Unix epoch, and the last instant that can be held
    /// where that one lies beyond it.
    pub fn from_unix_reading(since_epoch: DateTimeUnit) -> (made: Self)
        requires
            since_epoch >= 0,
        ensures
            made@ == if since_epoch <= i64::MAX - EPOCH_START {
                since_epoch + EPOCH_START
            } else {
                i64::MAX as int
            },
    {
        if since_epoch <= i64::MAX - EPOCH_START {
            Self::from_unix_epoch_milliseconds(since_epoch)
        } else {
            Self::from_milliseconds(i64::MAX)
        }
    }

    /// The instant of the given date and time of day. The year's days are
    /// `year * 365` and one more for each leap year from year 1 to the year before;
    /// to these come the months before `month`, with a February of 29 days if
    /// `year` is a leap year, and the days before `day`.
    ///
    /// Nothing holds the fields to their ranges: a day past the end of its month
    /// counts on into the next, month 13 is the first month of the year after, and
    /// so on. Only a month below 1 or above 13, and fields that lead before the
    /// start of year 0, are not accepted.
    pub fn new(year: u16, month: u8, day: u8, hour: u8, minutes: u8, seconds: u8) -> (made: Self)
        requires
            1 <= month <= 13,
            milliseconds_from_fields(
                year as int,
                month as int,
                day as int,
                hour as int,
                minutes as int,
                seconds as int,
            ) >= 0,
        ensures
            made@ == milliseconds_from_fields(
                year as int,
                month as int,
                day as int,
                hour as int,
                minutes as int,
                seconds as int,
            ),
    {
        let leap = is_leap_year(year);
        let wide_year: i64 = year as i64;
        let mut days: i64 = wide_year * 365;
        if wide_year > 0 {
            days = days + (wide_year - 1) / 4 - (wide_year - 1) / 100 + (wide_year - 1) / 400;
        }
        let mut before: u8 = 1;
        proof {
            lemma_days_before_month_table(leap);
        }
        while before < month
            invariant
                1 <= before <= month <= 13,
                0 <= days_before_year(year as int) <= 24_000_000,
                days == days_before_year(year as int) + days_before_month(leap, before as int),
                days_before_month(leap, before as int) <= 31 * (before - 1),
            decreases month - before,
        {
            proof {
                reveal_with_fuel(days_before_month, 2);
            }
            days = days + month_length(leap, before) as i64;
            before = before + 1;
        }
        days = days + day as i64 - 1;
        let total_seconds: i64 = days * 86_400 + hour as i64 * 3_600 + minutes as i64 * 60
            + seconds as i64;
        Self { milliseconds: total_seconds * 1_000 }
    }

    /// The instant that lies `milliseconds` after the Unix epoch, or before it if
    /// the count is negative. An instant before the start of year 0 is not accepted.
    pub fn from_unix_epoch_milliseconds(milliseconds: DateTimeUnit) -> (made: Self)
        requires
            0 <= milliseconds + EPOCH_START <= i64::MAX,
        ensures
            made@ == milliseconds + EPOCH_START,
    {
        Self { milliseconds: milliseconds + EPOCH_START }
    }

    /// The instant that lies `milliseconds` after the start of year 0. A negative
    /// count is not accepted.
    pub fn from_milliseconds(milliseconds: DateTimeUnit) -> (made: Self)
        requires
            milliseconds >= 0,
        ensures
            made@ == milliseconds,
    {
        Self { milliseconds }
    }

    /// The millisecond of the second, 0 to 999.
    pub fn get_milliseconds_of_second(&self) -> (millisecond: u16)
        ensures
            millisecond == millisecond_of(self@),
            millisecond < 1_000,
    {
        proof {
            use_type_invariant(self);
        }
        (self.milliseconds % 1_000) as u16
    }

    /// The second of the minute, 0 to 59.
    pub fn get_seconds_of_minute(&self) -> (second: u8)
        ensures
            second == second_of(self@),
            second < 60,
    {
        proof {
            use_type_invariant(self);
        }
        ((self.milliseconds / 1_000) % 60) as u8
    }

    /// The minute of the hour, 0 to 59.
    pub fn get_minutes_of_hour(&self) -> (minute: u8)
        ensures
            minute == minute_of(self@),
            minute < 60,
    {
        proof {
            use_type_invariant(self);
        }
        ((self.milliseconds / 60_000) % 60) as u8
    }

    /// The hour of the day, 0 to 23.
    pub fn get_hour_of_day(&self) -> (hour: u8)
        ensures
            hour == hour_of(self@),
            hour < 24,
    {
        proof {
            use_type_invariant(self);
        }
        ((self.milliseconds / 3_600_000) % 24) as u8
    }

    /// The day of the month, from 1: one of the days of its month. It is what is
    /// left of the day of the year when the months before have been taken off.
    pub fn get_day_of_month(&self) -> (day: u16)
        ensures
            day == day_of_month_of(self@),
            1 <= day <= days_in_month(spec_is_leap_year(year_of(self@)), month_of(self@)),
            day <= 31,
    {
        proof {
            use_type_invariant(self);
        }
        let date = year_and_day_of_days((self.milliseconds / 86_400_000) as u128);
        day_in_month(leap_year_wide(date.0), date.1)
    }

    /// The month, 1 to 12. The day of the year is held against the days at which
    /// each month ends, in a leap year or in another.
    pub fn get_month(&self) -> (month: u8)
        ensures
            month == month_of(self@),
            1 <= month <= 12,
    {
        proof {
            use_type_invariant(self);
        }
        let date = year_and_day_of_days((self.milliseconds / 86_400_000) as u128);
        month_in_year(leap_year_wide(date.0), date.1)
    }

    /// The day of the year, from 1: one of the days of its year, and one more than
    /// the days that are left when the whole years have been taken off.
    pub fn get_day_of_year(&self) -> (day: u16)
        ensures
            day == day_of_year_of(self@),
            1 <= day <= year_length(year_of(self@)),
    {
        proof {
            use_type_invariant(self);
        }
        let date = year_and_day_of_days((self.milliseconds / 86_400_000) as u128);
        date.1
    }

    /// The day of the week, 0 for Sunday to 6 for Saturday.
    pub fn get_day_of_week(&self) -> (day: u8)
        ensures
            day == day_of_week_of(self@),
            day < 7,
    {
        proof {
            use_type_invariant(self);
        }
        let days: i64 = self.milliseconds / 86_400_000 + 3;
        ((days + 4) % 7) as u8
    }

    /// Whether the year fits in the 16 bits in which `get_year` gives it: whether
    /// the instant lies no later than the last day that is counted to year 65535.
    pub fn year_fits(&self) -> (fits: bool)
        ensures
            fits == (year_of(self@) <= u16::MAX),
            fits == (days_of(self@) < 23_936_531),
    {
        proof {
            use_type_invariant(self);
            lemma_year_fits_u16(days_of(self@));
        }
        self.milliseconds / 86_400_000 < 23_936_531
    }

    /// The year: the one between whose start and whose end the instant lies. Whole
    /// years are taken off the days, 366 for a leap year after year 0 and 365 for
    /// every other year, year 0 among them, until less than a year is left. The
    /// year has to fit in the 16 bits of the result (see `year_fits`).
    pub fn get_year(&self) -> (year: u16)
        requires
            year_of(self@) <= u16::MAX,
        ensures
            year == year_of(self@),
            days_before_year(year as int) * 86_400_000 <= self@,
            self@ < days_before_year(year + 1) * 86_400_000,
    {
        proof {
            use_type_invariant(self);
            lemma_year_of_days(days_of(self@));
        }
        let date = year_and_day_of_days((self.milliseconds / 86_400_000) as u128);
        date.0 as u16
    }

    /// The instant in the form `2023-05-28 14:36:46.076`.
    pub fn format(&self) -> (out: String)
        ensures
            out@ == time_format_text(self@, date_time_template()),
    {
        proof {
            use_type_invariant(self);
        }
        time_format(self.milliseconds, "%Y-%m-%d %H:%M:%S.%f")
    }

    /// The milliseconds from the Unix epoch to this instant; negative before it.
    pub fn to_unix_epoch_milliseconds(&self) -> (milliseconds: DateTimeUnit)
        ensures
            milliseconds == self@ - EPOCH_START,
    {
        proof {
            use_type_invariant(self);
        }
        self.milliseconds - EPOCH_START
    }

    /// The milliseconds since the start of year 0.
    pub fn to_milliseconds(&self) -> (milliseconds: DateTimeUnit)
        ensures
            milliseconds == self@,
            milliseconds >= 0,
    {
        proof {
            use_type_invariant(self);
        }
        self.milliseconds
    }

    /// The whole seconds since the start of year 0.
    pub fn to_seconds(&self) -> (seconds: DateTimeUnit)
        ensures
            seconds == self@ / 1_000,
    {
        proof {
            use_type_invariant(self);
        }
        self.milliseconds / 1_000
    }

    /// The whole minutes since the start of year 0.
    pub fn to_minutes(&self) -> (minutes: DateTimeUnit)
        ensures
            minutes == self@ / 60_000,
    {
        proof {
            use_type_invariant(self);
        }
        self.milliseconds / (60 * 1_000)
    }

    /// The whole hours since the start of year 0.
    pub fn to_hours(&self) -> (hours: DateTimeUnit)
        ensures
            hours == self@ / 3_600_000,
    {
        proof {
            use_type_invariant(self);
        }
        self.milliseconds / (60 * 60 * 1_000)
    }

    /// The whole days since the start of year 0; the first day is day 0.
    pub fn to_days(&self) -> (days: DateTimeUnit)
        ensures
            days == days_of(self@),
    {
        proof {
            use_type_invariant(self);
        }
        self.milliseconds / (24 * 60 * 60 * 1_000)
    }
}

impl Clone for DateTime {
    /// The same instant.
    fn clone(&self) -> (copy: Self)
        ensures
            copy@ == self@,
    {
        proof {
            use_type_invariant(self);
        }
        Self { milliseconds: self.milliseconds }
    }
}

impl Default for DateTime {
    /// The instant that the system clock shows.
    fn default() -> (now: Self)
        ensures
            now@ >= EPOCH_START,
    {
        Self::now()
    }
}

} // verus!
