//! The time of day, counted in nanoseconds since midnight.
//!
//! Every count is read modulo the length of a day, so each function is
//! defined for every integer: a count of a day or more, or a negative one,
//! denotes the time of day that it reaches.

use vstd::prelude::*;

verus! {

pub const NANOS_PER_SECOND: i64 = 1_000_000_000;

pub const NANOS_PER_MINUTE: i64 = 60_000_000_000;

pub const NANOS_PER_HOUR: i64 = 3_600_000_000_000;

pub const NANOS_PER_DAY: i64 = 86_400_000_000_000;

/// The time of day that a count of nanoseconds reaches, as nanoseconds
/// since midnight.
pub open spec fn nanos_since_midnight(t: int) -> int {
    t % (NANOS_PER_DAY as int)
}

/// Hour of the day, 0 to 23.
pub open spec fn hour_of_nanos(t: int) -> int {
    nanos_since_midnight(t) / (NANOS_PER_HOUR as int)
}

/// Minute of the hour, 0 to 59.
pub open spec fn minute_of_nanos(t: int) -> int {
    (nanos_since_midnight(t) / (NANOS_PER_MINUTE as int)) % 60
}

/// Second of the minute, 0 to 59.
pub open spec fn second_of_nanos(t: int) -> int {
    (nanos_since_midnight(t) / (NANOS_PER_SECOND as int)) % 60
}

/// Nanosecond of the second, 0 to 999,999,999.
pub open spec fn nanosecond_of_nanos(t: int) -> int {
    nanos_since_midnight(t) % (NANOS_PER_SECOND as int)
}

/// The four fields of a time of day lie in their ranges and add up to it.
pub proof fn lemma_clock_fields(t: int)
    ensures
        0 <= hour_of_nanos(t) < 24,
        0 <= minute_of_nanos(t) < 60,
        0 <= second_of_nanos(t) < 60,
        0 <= nanosecond_of_nanos(t) < NANOS_PER_SECOND,
        hour_of_nanos(t) * NANOS_PER_HOUR + minute_of_nanos(t) * NANOS_PER_MINUTE
            + second_of_nanos(t) * NANOS_PER_SECOND + nanosecond_of_nanos(t)
            == nanos_since_midnight(t),
{
}

/// Hour of the day, 0 to 23.
pub fn hour_of(t: i64) -> (r: i64)
    ensures
        r == hour_of_nanos(t as int),
        0 <= r < 24,
{
    t.checked_rem_euclid(NANOS_PER_DAY).unwrap() / NANOS_PER_HOUR
}

/// Minute of the hour, 0 to 59.
pub fn minute_of(t: i64) -> (r: i64)
    ensures
        r == minute_of_nanos(t as int),
        0 <= r < 60,
{
    (t.checked_rem_euclid(NANOS_PER_DAY).unwrap() / NANOS_PER_MINUTE) % 60
}

/// Second of the minute, 0 to 59.
pub fn second_of(t: i64) -> (r: i64)
    ensures
        r == second_of_nanos(t as int),
        0 <= r < 60,
{
    (t.checked_rem_euclid(NANOS_PER_DAY).unwrap() / NANOS_PER_SECOND) % 60
}

/// Nanosecond of the second, 0 to 999,999,999.
pub fn nanosecond_of(t: i64) -> (r: i64)
    ensures
        r == nanosecond_of_nanos(t as int),
        0 <= r < NANOS_PER_SECOND,
{
    t.checked_rem_euclid(NANOS_PER_DAY).unwrap() % NANOS_PER_SECOND
}

} // verus!
