//! Granularities of timestamps.
//!
//! A timestamp counts units of its granularity from 1970-01-01 00:00:00;
//! negative counts are instants before it. A timestamp is split into the day
//! on which it falls and the time of that day by rounding towards earlier
//! times, so that the time of day is never negative.

use vstd::prelude::*;

verus! {

/// The granularity in which a timestamp counts time.
#[derive(Clone, Copy, Debug, PartialEq, Eq, Hash, Structural)]
pub enum TimeUnit {
    Nanoseconds,
    Microseconds,
    Milliseconds,
}

/// Whether `x` can be held in 64 bits.
pub open spec fn fits_i64(x: int) -> bool {
    i64::MIN <= x <= i64::MAX
}

impl TimeUnit {
    /// Number of units in one second.
    pub open spec fn units_per_second(self) -> int {
        match self {
            TimeUnit::Nanoseconds => 1_000_000_000,
            TimeUnit::Microseconds => 1_000_000,
            TimeUnit::Milliseconds => 1_000,
        }
    }

    /// Number of units in one day of 86,400 seconds.
    pub open spec fn units_per_day(self) -> int {
        match self {
            TimeUnit::Nanoseconds => 86_400_000_000_000,
            TimeUnit::Microseconds => 86_400_000_000,
            TimeUnit::Milliseconds => 86_400_000,
        }
    }

    /// Number of nanoseconds in one unit.
    pub open spec fn nanos_per_unit(self) -> int {
        match self {
            TimeUnit::Nanoseconds => 1,
            TimeUnit::Microseconds => 1_000,
            TimeUnit::Milliseconds => 1_000_000,
        }
    }

    /// Day number of the day on which the timestamp `v` falls.
    pub open spec fn day_of_timestamp(self, v: int) -> int {
        v / self.units_per_day()
    }

    /// Time of day of the timestamp `v`, in nanoseconds since midnight.
    pub open spec fn nanos_of_timestamp(self, v: int) -> int {
        (v % self.units_per_day()) * self.nanos_per_unit()
    }

    /// The timestamp `v` of this granularity, counted in units of `to`: the
    /// last instant that `to` can name and that is not after `v`.
    pub open spec fn converted(self, v: int, to: TimeUnit) -> int {
        (v * to.units_per_second()) / self.units_per_second()
    }

    /// The timestamp of midnight at the start of day number `days`.
    pub open spec fn midnight(self, days: int) -> int {
        days * self.units_per_day()
    }

    /// The unit's short name.
    pub open spec fn text(self) -> Seq<char> {
        match self {
            TimeUnit::Nanoseconds => "ns"@,
            TimeUnit::Microseconds => "μs"@,
            TimeUnit::Milliseconds => "ms"@,
        }
    }

    /// Number of units in one second.
    pub fn per_second(self) -> (n: i64)
        ensures
            n == self.units_per_second(),
    {
        match self {
            TimeUnit::Nanoseconds => 1_000_000_000,
            TimeUnit::Microseconds => 1_000_000,
            TimeUnit::Milliseconds => 1_000,
        }
    }

    /// Number of units in one day.
    pub fn per_day(self) -> (n: i64)
        ensures
            n == self.units_per_day(),
    {
        match self {
            TimeUnit::Nanoseconds => 86_400_000_000_000,
            TimeUnit::Microseconds => 86_400_000_000,
            TimeUnit::Milliseconds => 86_400_000,
        }
    }

    /// Day number of the day on which the timestamp `v` falls.
    pub fn day(self, v: i64) -> (d: i64)
        ensures
            d == self.day_of_timestamp(v as int),
    {
        match self {
            TimeUnit::Nanoseconds => v.checked_div_euclid(86_400_000_000_000).unwrap(),
            TimeUnit::Microseconds => v.checked_div_euclid(86_400_000_000).unwrap(),
            TimeUnit::Milliseconds => v.checked_div_euclid(86_400_000).unwrap(),
        }
    }

    /// Time of day of the timestamp `v`, in nanoseconds since midnight.
    pub fn nanos_of_day(self, v: i64) -> (t: i64)
        ensures
            t == self.nanos_of_timestamp(v as int),
            0 <= t < 86_400_000_000_000,
    {
        match self {
            TimeUnit::Nanoseconds => v.checked_rem_euclid(86_400_000_000_000).unwrap(),
            TimeUnit::Microseconds => v.checked_rem_euclid(86_400_000_000).unwrap() * 1_000,
            TimeUnit::Milliseconds => v.checked_rem_euclid(86_400_000).unwrap() * 1_000_000,
        }
    }

    /// The timestamp `v` of this granularity in units of `to`, rounded
    /// towards earlier times; `None` where 64 bits cannot hold it.
    pub fn convert(self, v: i64, to: TimeUnit) -> (r: Option<i64>)
        ensures
            fits_i64(self.converted(v as int, to)) ==> r == Some(self.converted(v as int, to) as i64),
            !fits_i64(self.converted(v as int, to)) ==> r is None,
    {
        let from_rate = self.per_second();
        let to_rate = to.per_second();
        if to_rate >= from_rate {
            let factor = to_rate / from_rate;
            assert((v * to_rate) / (from_rate as int) == v * factor) by (nonlinear_arith)
                requires
                    from_rate > 0,
                    to_rate == factor * from_rate,
            ;
            v.checked_mul(factor)
        } else {
            let factor = from_rate / to_rate;
            assert((v * to_rate) / (from_rate as int) == (v as int) / (factor as int)) by (nonlinear_arith)
                requires
                    to_rate > 0,
                    factor > 0,
                    from_rate == factor * to_rate,
            ;
            Some(v.checked_div_euclid(factor).unwrap())
        }
    }

    /// The timestamp of midnight at the start of day number `days`; `None`
    /// where 64 bits cannot hold it.
    pub fn from_days(self, days: i64) -> (r: Option<i64>)
        ensures
            fits_i64(self.midnight(days as int)) ==> r == Some(self.midnight(days as int) as i64),
            !fits_i64(self.midnight(days as int)) ==> r is None,
    {
        days.checked_mul(self.per_day())
    }

    /// The unit's short name: `ns`, `μs` or `ms`.
    pub fn render(self) -> (s: &'static str)
        ensures
            s@ == self.text(),
    {
        match self {
            TimeUnit::Nanoseconds => "ns",
            TimeUnit::Microseconds => "μs",
            TimeUnit::Milliseconds => "ms",
        }
    }
}

/// The three rates of a unit agree: a day has 86,400 seconds, and a second
/// a billion nanoseconds.
pub proof fn lemma_unit_rates(unit: TimeUnit)
    ensures
        unit.units_per_day() == 86_400 * unit.units_per_second(),
        unit.nanos_per_unit() * unit.units_per_second() == 1_000_000_000,
{
}

/// A timestamp is no further from the epoch in days than in units, its
/// time of day is less than a day, and day and time of day add up to it.
pub proof fn lemma_timestamp_split(unit: TimeUnit, v: int)
    ensures
        v >= 0 ==> 0 <= unit.day_of_timestamp(v) <= v,
        v < 0 ==> v <= unit.day_of_timestamp(v) < 0,
        0 <= unit.nanos_of_timestamp(v) < 86_400_000_000_000,
        unit.day_of_timestamp(v) * 86_400_000_000_000 + unit.nanos_of_timestamp(v) == v
            * unit.nanos_per_unit(),
{
    let day = unit.day_of_timestamp(v);
    let nanos = unit.nanos_of_timestamp(v);
    let whole = v * unit.nanos_per_unit();
    match unit {
        TimeUnit::Nanoseconds => {
            assert(day == v / 86_400_000_000_000 && nanos == v % 86_400_000_000_000);
            assert(whole == v * 1);
        },
        TimeUnit::Microseconds => {
            assert(day == v / 86_400_000_000 && nanos == (v % 86_400_000_000) * 1_000);
            assert(whole == v * 1_000);
        },
        TimeUnit::Milliseconds => {
            assert(day == v / 86_400_000 && nanos == (v % 86_400_000) * 1_000_000);
            assert(whole == v * 1_000_000);
        },
    }
}

} // verus!
