//! `PreciseTime`: a duration in nanoseconds.

use crate::time_helpers::{precise_time_format, precise_time_format_text};
use crate::time::duration_template;
use vstd::prelude::*;

verus! {

/// The type of a count of nanoseconds that stands for a duration.
pub type PreciseTimeUnit = u128;

/// A duration: a count of nanoseconds, tied to no date. Any count is a duration.
#[derive(Debug)]
pub struct PreciseTime {
    nanoseconds: PreciseTimeUnit,
}

impl View for PreciseTime {
    type V = int;

    /// The nanoseconds of the duration.
    closed spec fn view(&self) -> int {
        self.nanoseconds as int
    }
}

impl PreciseTime {
    /// The duration of so many days, hours, minutes, seconds, milliseconds,
    /// microseconds and nanoseconds together.
    pub fn new(
        days: u16,
        hours: u8,
        minutes: u8,
        seconds: u8,
        milliseconds: u16,
        microseconds: u16,
        nanoseconds: u16,
    ) -> (made: Self)
        ensures
            made@ == nanoseconds
                + microseconds * 1_000
                + milliseconds * 1_000_000
                + seconds * 1_000_000_000
                + minutes * 60_000_000_000
                + hours * 3_600_000_000_000
                + days * 86_400_000_000_000,
    {
        let nanoseconds: u128 = nanoseconds as u128
            + microseconds as u128 * 1_000
            + milliseconds as u128 * 1_000_000
            + seconds as u128 * 1_000_000_000
            + minutes as u128 * 60_000_000_000
            + hours as u128 * 3_600_000_000_000
            + days as u128 * 86_400_000_000_000;
        Self { nanoseconds }
    }

    /// The duration of `nanoseconds` nanoseconds.
    pub fn from_nanoseconds(nanoseconds: PreciseTimeUnit) -> (made: Self)
        ensures
            made@ == nanoseconds,
    {
        Self { nanoseconds }
    }

    /// The duration in the form `1 02:03:04.000000005`: the whole days, then the
    /// time within the day, down to the nanosecond. A duration of less than a day has
    /// no days in front.
    pub fn format(&self) -> (out: String)
        ensures
            out@ == precise_time_format_text(self@, duration_template()),
    {
        precise_time_format(self.nanoseconds, "%D %H:%M:%S.%f")
    }

    /// The nanoseconds of the duration.
    pub fn to_nanoseconds(&self) -> (nanoseconds: PreciseTimeUnit)
        ensures
            nanoseconds == self@,
    {
        self.nanoseconds
    }

    /// The whole microseconds of the duration.
    pub fn to_microseconds(&self) -> (microseconds: PreciseTimeUnit)
        ensures
            microseconds == self@ / 1_000,
    {
        self.nanoseconds / 1_000
    }

    /// The whole milliseconds of the duration.
    pub fn to_milliseconds(&self) -> (milliseconds: PreciseTimeUnit)
        ensures
            milliseconds == self@ / 1_000_000,
    {
        self.nanoseconds / 1_000_000
    }

    /// The whole seconds of the duration.
    pub fn to_seconds(&self) -> (seconds: PreciseTimeUnit)
        ensures
            seconds == self@ / 1_000_000_000,
    {
        self.nanoseconds / 1_000_000_000
    }

    /// The whole minutes of the duration.
    pub fn to_minutes(&self) -> (minutes: PreciseTimeUnit)
        ensures
            minutes == self@ / 60_000_000_000,
    {
        self.nanoseconds / (60 * 1_000_000_000)
    }

    /// The whole hours of the duration.
    pub fn to_hours(&self) -> (hours: PreciseTimeUnit)
        ensures
            hours == self@ / 3_600_000_000_000,
    {
        self.nanoseconds / (60 * 60 * 1_000_000_000)
    }

    /// The whole days of the duration.
    pub fn to_days(&self) -> (days: PreciseTimeUnit)
        ensures
            days == self@ / 86_400_000_000_000,
    {
        self.nanoseconds / (24 * 60 * 60 * 1_000_000_000)
    }
}

impl Clone for PreciseTime {
    /// The same duration.
    fn clone(&self) -> (copy: Self)
        ensures
            copy@ == self@,
    {
        Self { nanoseconds: self.nanoseconds }
    }
}

} // verus!
