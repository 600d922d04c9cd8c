//! Temporal field extraction over nullable columns of dates, datetimes and
//! times of day.
//!
//! A [`TemporalFunction`] names a field of a date or of a time of day, or a
//! conversion to timestamps. It has a text, given by
//! [`TemporalFunction::render`], and it is applied to a [`Series`] by
//! [`TemporalFunction::apply`] or by the routine that bears its name.

pub mod calendar;
pub mod clock;
pub mod series;
pub mod temporal;
pub mod time_unit;

pub use series::{DataType, Series};
pub use temporal::{
    day, hour, iso_year, minute, month, nanosecond, ordinal_day, quarter, second, timestamp, week,
    weekday, year, ExtractionError, TemporalFunction,
};
pub use time_unit::TimeUnit;
