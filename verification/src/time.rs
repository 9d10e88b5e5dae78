//! `Time`: a duration in milliseconds.

use crate::calendar::{days_of, hour_of, millisecond_of, minute_of, second_of};
use crate::time_helpers::{render, time_format_text};
use vstd::prelude::*;

verus! {

/// The type of a count of milliseconds that stands for a duration.
pub type TimeUnit = u64;

/// A duration: a count of milliseconds, tied to no date. Any count is a duration.
/// What is built from larger units is counted in 64 bits and wraps around where it
/// does not fit.
#[derive(Debug)]
pub struct Time {
    milliseconds: TimeUnit,
}

impl View for Time {
    type V = int;

    /// The milliseconds of the duration.
    closed spec fn view(&self) -> int {
        self.milliseconds as int
    }
}

/// The template of `Time::format` and of `PreciseTime::format`.
pub open spec fn duration_template() -> Seq<char> {
    "%D %H:%M:%S.%f"@
}

/// What 64 bits keep of a count.
pub open spec fn wrapped(count: int) -> int {
    count % 0x1_0000_0000_0000_0000
}

impl Time {
    /// The duration of so many days, hours, minutes and seconds together.
    pub fn new(days: u16, hours: u8, minutes: u8, seconds: u8) -> (made: Self)
        ensures
            made@ == days * 86_400_000 + hours * 3_600_000 + minutes * 60_000 + seconds * 1_000,
    {
        let total_seconds: u64 = days as u64 * 86_400 + hours as u64 * 3_600 + minutes as u64 * 60
            + seconds as u64;
        Self { milliseconds: total_seconds * 1_000 }
    }

    /// The duration of `days` days.
    pub fn from_days(days: u16) -> (made: Self)
        ensures
            made@ == days * 86_400_000,
    {
        Self { milliseconds: days as u64 * 86_400_000 }
    }

    /// The duration of `hours` hours, wrapped to 64 bits.
    pub fn from_hours(hours: TimeUnit) -> (made: Self)
        ensures
            made@ == wrapped(hours * 3_600_000),
            hours * 3_600_000 <= u64::MAX ==> made@ == hours * 3_600_000,
    {
        Self { milliseconds: hours.wrapping_mul(3_600_000) }
    }

    /// The duration of `minutes` minutes, wrapped to 64 bits.
    pub fn from_minutes(minutes: TimeUnit) -> (made: Self)
        ensures
            made@ == wrapped(minutes * 60_000),
            minutes * 60_000 <= u64::MAX ==> made@ == minutes * 60_000,
    {
        Self { milliseconds: minutes.wrapping_mul(60_000) }
    }

    /// The duration of `seconds` seconds, wrapped to 64 bits.
    pub fn from_seconds(seconds: TimeUnit) -> (made: Self)
        ensures
            made@ == wrapped(seconds * 1_000),
            seconds * 1_000 <= u64::MAX ==> made@ == seconds * 1_000,
    {
        Self { milliseconds: seconds.wrapping_mul(1_000) }
    }

    /// The duration of `milliseconds` milliseconds.
    pub fn from_milliseconds(milliseconds: TimeUnit) -> (made: Self)
        ensures
            made@ == milliseconds,
    {
        Self { milliseconds }
    }

    /// The millisecond of the second, 0 to 999.
    pub fn get_milliseconds_of_second(&self) -> (millisecond: u16)
        ensures
            millisecond == millisecond_of(self@),
            millisecond < 1_000,
    {
        (self.milliseconds % 1_000) as u16
    }

    /// The second of the minute, 0 to 59.
    pub fn get_seconds_of_minute(&self) -> (second: u8)
        ensures
            second == second_of(self@),
            second < 60,
    {
        ((self.milliseconds / 1_000) % 60) as u8
    }

    /// The minute of the hour, 0 to 59.
    pub fn get_minutes_of_hour(&self) -> (minute: u8)
        ensures
            minute == minute_of(self@),
            minute < 60,
    {
        ((self.milliseconds / 60_000) % 60) as u8
    }

    /// The hour of the day, 0 to 23.
    pub fn get_hour_of_day(&self) -> (hour: u8)
        ensures
            hour == hour_of(self@),
            hour < 24,
    {
        ((self.milliseconds / 3_600_000) % 24) as u8
    }

    /// The duration in the form `1 02:03:04.005`: the whole days, then the time
    /// within the day. A duration of less than a day has no days in front.
    pub fn format(&self) -> (out: String)
        ensures
            out@ == time_format_text(self@, duration_template()),
    {
        render(
            "%D %H:%M:%S.%f",
            (self.milliseconds / 86_400_000) as u128,
            ((self.milliseconds / 3_600_000) % 24) as u8,
            ((self.milliseconds / 60_000) % 60) as u8,
            ((self.milliseconds / 1_000) % 60) as u8,
            (self.milliseconds % 1_000) as u32,
            3,
        )
    }

    /// The milliseconds of the duration.
    pub fn to_milliseconds(&self) -> (milliseconds: TimeUnit)
        ensures
            milliseconds == self@,
    {
        self.milliseconds
    }

    /// The whole seconds of the duration.
    pub fn to_seconds(&self) -> (seconds: TimeUnit)
        ensures
            seconds == self@ / 1_000,
    {
        self.milliseconds / 1_000
    }

    /// The whole minutes of the duration.
    pub fn to_minutes(&self) -> (minutes: TimeUnit)
        ensures
            minutes == self@ / 60_000,
    {
        self.milliseconds / (60 * 1_000)
    }

    /// The whole hours of the duration.
    pub fn to_hours(&self) -> (hours: TimeUnit)
        ensures
            hours == self@ / 3_600_000,
    {
        self.milliseconds / (60 * 60 * 1_000)
    }

    /// The whole days of the duration.
    pub fn to_days(&self) -> (days: TimeUnit)
        ensures
            days == days_of(self@),
    {
        self.milliseconds / (24 * 60 * 60 * 1_000)
    }
}

impl Clone for Time {
    /// The same duration.
    fn clone(&self) -> (copy: Self)
        ensures
            copy@ == self@,
    {
        Self { milliseconds: self.milliseconds }
    }
}

} // verus!
