//! Columns of nullable values, all of one logical type.

use crate::time_unit::TimeUnit;
use vstd::prelude::*;

verus! {

/// What the integers of a column stand for.
#[derive(Clone, Copy, Debug, PartialEq, Eq, Hash, Structural)]
pub enum DataType {
    /// Plain integers.
    Int64,
    /// Calendar days, as day numbers: days since 1970-01-01.
    Date,
    /// Instants, as timestamps of the given granularity.
    Datetime(TimeUnit),
    /// Spans of time, counted in the given granularity.
    Duration(TimeUnit),
    /// Times of day, as nanoseconds since midnight.
    Time,
}

/// A column: values of one logical type, each of which may be missing.
#[derive(Clone, Debug, PartialEq, Eq)]
pub struct Series {
    pub dtype: DataType,
    pub values: Vec<Option<i64>>,
}

/// A column as contracts speak of it: its logical type and its cells, in
/// order, each a mathematical integer or missing.
pub struct SeriesView {
    pub dtype: DataType,
    pub values: Seq<Option<int>>,
}

/// A stored cell as a mathematical one.
pub open spec fn cell_view(cell: Option<i64>) -> Option<int> {
    match cell {
        Some(v) => Some(v as int),
        None => None,
    }
}

impl View for Series {
    type V = SeriesView;

    open spec fn view(&self) -> SeriesView {
        SeriesView {
            dtype: self.dtype,
            values: Seq::new(self.values@.len(), |i: int| cell_view(self.values@[i])),
        }
    }
}

impl SeriesView {
    /// Whether this column has as many cells as `other`, and a cell of it is
    /// missing exactly where the cell of `other` is.
    pub open spec fn same_shape(self, other: SeriesView) -> bool {
        &&& self.values.len() == other.values.len()
        &&& forall|i: int|
            0 <= i < self.values.len() ==> (#[trigger] self.values[i] is None
                <==> other.values[i] is None)
    }
}

impl DataType {
    /// Whether each value of a column of this type falls on a calendar day.
    pub open spec fn has_date(self) -> bool {
        self is Date || self is Datetime
    }

    /// Whether each value of a column of this type has a time of day.
    pub open spec fn has_time(self) -> bool {
        self is Datetime || self is Time
    }

    /// Day number of the day on which the value `v` falls, for a type that
    /// has a date.
    pub open spec fn day_of_value(self, v: int) -> int {
        match self {
            DataType::Date => v,
            DataType::Datetime(unit) => unit.day_of_timestamp(v),
            _ => 0,
        }
    }

    /// Time of day of the value `v` in nanoseconds, for a type that has a
    /// time of day. A `Time` is read as it stands: the fields of a time of
    /// day are defined for every count of nanoseconds.
    pub open spec fn nanos_of_value(self, v: int) -> int {
        match self {
            DataType::Datetime(unit) => unit.nanos_of_timestamp(v),
            DataType::Time => v,
            _ => 0,
        }
    }

    /// The value `v` as a timestamp of granularity `to`, for a type that has
    /// a date: a day becomes its midnight, an instant is counted anew and
    /// rounded towards earlier times.
    pub open spec fn timestamp_of_value(self, v: int, to: TimeUnit) -> int {
        match self {
            DataType::Date => to.midnight(v),
            DataType::Datetime(unit) => unit.converted(v, to),
            _ => 0,
        }
    }
}

impl Series {
    /// A column of the given logical type and cells.
    pub fn new(dtype: DataType, values: Vec<Option<i64>>) -> (s: Series)
        ensures
            s.dtype == dtype,
            s.values == values,
    {
        Series { dtype, values }
    }

    /// Number of cells, missing ones included.
    pub fn len(&self) -> (n: usize)
        ensures
            n == self@.values.len(),
    {
        self.values.len()
    }

    /// Whether the cell at `i` is missing.
    pub fn is_null(&self, i: usize) -> (b: bool)
        requires
            i < self@.values.len(),
        ensures
            b == (self@.values[i as int] is None),
    {
        self.values[i].is_none()
    }

    /// The cell at `i`.
    pub fn get(&self, i: usize) -> (cell: Option<i64>)
        requires
            i < self@.values.len(),
        ensures
            cell_view(cell) == self@.values[i as int],
            cell == self.values@[i as int],
    {
        self.values[i]
    }
}

} // verus!
