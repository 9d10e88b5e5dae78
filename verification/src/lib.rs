//! Calendar and duration arithmetic: instants counted in milliseconds from the
//! start of year 0, durations counted in milliseconds or nanoseconds, the fields
//! of the proleptic Gregorian calendar, and a format engine shared by all of them.

pub mod calendar;
pub mod clock;
pub mod datetime;
pub mod precisetime;
pub mod prelude;
pub mod stopwatch;
pub mod text;
pub mod time;
pub mod time_helpers;
pub mod timestamp;
