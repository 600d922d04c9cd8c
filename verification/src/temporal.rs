//! The temporal functions: what each is called, which columns it accepts,
//! and what it makes of a column.
//!
//! A function reads each cell of a column by itself. A missing cell stays
//! missing; a present one is replaced by the field that the function names.
//! The result is a column of plain integers with as many cells as the input.

use crate::calendar;
use crate::calendar::{
    day_of_month, iso_week_of_day, iso_year_of_day, month_of_day, ordinal_of_day, quarter_of_day,
    weekday_of_day, year_of_day,
};
use crate::clock;
use crate::clock::{hour_of_nanos, minute_of_nanos, nanosecond_of_nanos, second_of_nanos};
use crate::series::{cell_view, DataType, Series, SeriesView};
use crate::time_unit::{fits_i64, lemma_timestamp_split, TimeUnit};
use vstd::prelude::*;

verus! {

/// A field of a date or of a time of day that can be read off a column, or
/// the conversion of a column to timestamps.
#[derive(Clone, Copy, PartialEq, Debug, Eq, Hash, Structural)]
pub enum TemporalFunction {
    /// The calendar year.
    Year,
    /// The week-numbering year, to which the week of the day belongs.
    IsoYear,
    /// The quarter of the year, 1 to 4.
    Quarter,
    /// The month of the year, 1 to 12.
    Month,
    /// The week of the week-numbering year, 1 to 53.
    Week,
    /// The day of the week, 1 for Monday to 7 for Sunday.
    WeekDay,
    /// The day of the month, 1 to 31.
    Day,
    /// The day of the year, 1 to 366.
    OrdinalDay,
    /// The hour of the day, 0 to 23.
    Hour,
    /// The minute of the hour, 0 to 59.
    Minute,
    /// The second of the minute, 0 to 59.
    Second,
    /// The nanosecond of the second, 0 to 999,999,999.
    NanoSecond,
    /// The timestamp in the given granularity.
    TimeStamp(TimeUnit),
}

/// Why a function gave no column.
#[derive(Clone, Copy, Debug, PartialEq, Eq, Hash, Structural)]
pub enum ExtractionError {
    /// The column's logical type lacks what the function reads: a date, or
    /// a time of day.
    InvalidOperation,
    /// A timestamp in the granularity asked for does not fit in 64 bits.
    Overflow,
}

/// Whether what a function returned is what the contract expects: the same
/// error, or a column with the expected logical type and cells.
pub open spec fn agrees(
    r: Result<Series, ExtractionError>,
    expected: Result<SeriesView, ExtractionError>,
) -> bool {
    match r {
        Ok(out) => expected == Ok::<SeriesView, ExtractionError>(out@),
        Err(e) => expected == Err::<SeriesView, ExtractionError>(e),
    }
}

impl TemporalFunction {
    /// The function's own name, without the namespace before it.
    pub open spec fn name(self) -> Seq<char> {
        match self {
            TemporalFunction::Year => "year"@,
            TemporalFunction::IsoYear => "iso_year"@,
            TemporalFunction::Quarter => "quarter"@,
            TemporalFunction::Month => "month"@,
            TemporalFunction::Week => "week"@,
            TemporalFunction::WeekDay => "weekday"@,
            TemporalFunction::Day => "day"@,
            TemporalFunction::OrdinalDay => "ordinal_day"@,
            TemporalFunction::Hour => "hour"@,
            TemporalFunction::Minute => "minute"@,
            TemporalFunction::Second => "second"@,
            TemporalFunction::NanoSecond => "nanosecond"@,
            TemporalFunction::TimeStamp(_) => "timestamp"@,
        }
    }

    /// The text that stands for the function in a printed expression: the
    /// namespace `dt.`, the name, and for a timestamp the granularity in
    /// round brackets.
    pub open spec fn text(self) -> Seq<char> {
        match self {
            TemporalFunction::TimeStamp(unit) => "dt."@ + self.name() + "("@ + unit.text() + ")"@,
            _ => "dt."@ + self.name(),
        }
    }

    /// Whether the function can read a column of the given logical type:
    /// fields of a date and timestamps need a date, fields of a time of day
    /// need a time of day.
    pub open spec fn accepts(self, dtype: DataType) -> bool {
        match self {
            TemporalFunction::Hour
            | TemporalFunction::Minute
            | TemporalFunction::Second
            | TemporalFunction::NanoSecond => dtype.has_time(),
            _ => dtype.has_date(),
        }
    }

    /// What the function makes of the value `v` of a column of type `dtype`
    /// that it accepts.
    pub open spec fn value(self, dtype: DataType, v: int) -> int {
        match self {
            TemporalFunction::Year => year_of_day(dtype.day_of_value(v)),
            TemporalFunction::IsoYear => iso_year_of_day(dtype.day_of_value(v)),
            TemporalFunction::Quarter => quarter_of_day(dtype.day_of_value(v)),
            TemporalFunction::Month => month_of_day(dtype.day_of_value(v)),
            TemporalFunction::Week => iso_week_of_day(dtype.day_of_value(v)),
            TemporalFunction::WeekDay => weekday_of_day(dtype.day_of_value(v)),
            TemporalFunction::Day => day_of_month(dtype.day_of_value(v)),
            TemporalFunction::OrdinalDay => ordinal_of_day(dtype.day_of_value(v)),
            TemporalFunction::Hour => hour_of_nanos(dtype.nanos_of_value(v)),
            TemporalFunction::Minute => minute_of_nanos(dtype.nanos_of_value(v)),
            TemporalFunction::Second => second_of_nanos(dtype.nanos_of_value(v)),
            TemporalFunction::NanoSecond => nanosecond_of_nanos(dtype.nanos_of_value(v)),
            TemporalFunction::TimeStamp(unit) => dtype.timestamp_of_value(v, unit),
        }
    }

    /// What the function makes of a cell: a missing cell stays missing.
    pub open spec fn cell(self, dtype: DataType, cell: Option<int>) -> Option<int> {
        match cell {
            Some(v) => Some(self.value(dtype, v)),
            None => None,
        }
    }

    /// Whether the cell is present and the function's value for it does not
    /// fit in 64 bits.
    pub open spec fn overflows(self, dtype: DataType, cell: Option<int>) -> bool {
        cell matches Some(v) && !fits_i64(self.value(dtype, v))
    }

    /// What the function makes of a column: an error where it does not
    /// accept the column's type or where some value does not fit, and else
    /// the column of its values, cell by cell.
    pub open spec fn result(self, s: SeriesView) -> Result<SeriesView, ExtractionError> {
        if !self.accepts(s.dtype) {
            Err(ExtractionError::InvalidOperation)
        } else if exists|i: int|
            0 <= i < s.values.len() && self.overflows(s.dtype, #[trigger] s.values[i]) {
            Err(ExtractionError::Overflow)
        } else {
            Ok(
                SeriesView {
                    dtype: DataType::Int64,
                    values: Seq::new(s.values.len(), |i: int| self.cell(s.dtype, s.values[i])),
                },
            )
        }
    }

    /// The function's own name, without the namespace before it.
    fn short_name(&self) -> (s: &'static str)
        ensures
            s@ == self.name(),
    {
        match self {
            TemporalFunction::Year => "year",
            TemporalFunction::IsoYear => "iso_year",
            TemporalFunction::Quarter => "quarter",
            TemporalFunction::Month => "month",
            TemporalFunction::Week => "week",
            TemporalFunction::WeekDay => "weekday",
            TemporalFunction::Day => "day",
            TemporalFunction::OrdinalDay => "ordinal_day",
            TemporalFunction::Hour => "hour",
            TemporalFunction::Minute => "minute",
            TemporalFunction::Second => "second",
            TemporalFunction::NanoSecond => "nanosecond",
            TemporalFunction::TimeStamp(_) => "timestamp",
        }
    }

    /// The text that stands for the function in a printed expression, such
    /// as `dt.year` or `dt.timestamp(ms)`.
    pub fn render(&self) -> (r: String)
        ensures
            r@ == self.text(),
            r@.len() > 0,
    {
        proof {
            reveal_strlit("dt.");
        }
        let mut r = String::from_str("dt.");
        r.append(self.short_name());
        match self {
            TemporalFunction::TimeStamp(unit) => {
                r.append("(");
                r.append(unit.render());
                r.append(")");
            },
            _ => {},
        }
        r
    }

    /// Whether the function can read a column of the given logical type.
    pub fn accepts_dtype(&self, dtype: DataType) -> (b: bool)
        ensures
            b == self.accepts(dtype),
    {
        let has_date = match dtype {
            DataType::Date => true,
            DataType::Datetime(_) => true,
            _ => false,
        };
        let has_time = match dtype {
            DataType::Datetime(_) => true,
            DataType::Time => true,
            _ => false,
        };
        match self {
            TemporalFunction::Hour => has_time,
            TemporalFunction::Minute => has_time,
            TemporalFunction::Second => has_time,
            TemporalFunction::NanoSecond => has_time,
            _ => has_date,
        }
    }

    /// What the function makes of one value of a column that it accepts;
    /// `None` where that does not fit in 64 bits.
    fn evaluate(&self, dtype: DataType, v: i64) -> (r: Option<i64>)
        requires
            self.accepts(dtype),
        ensures
            match r {
                Some(x) => x == self.value(dtype, v as int),
                None => !fits_i64(self.value(dtype, v as int)),
            },
    {
        match self {
            TemporalFunction::Year => Some(calendar::year_of(day_number_of(dtype, v))),
            TemporalFunction::IsoYear => Some(calendar::iso_year_of(day_number_of(dtype, v))),
            TemporalFunction::Quarter => Some(calendar::quarter_of(day_number_of(dtype, v))),
            TemporalFunction::Month => Some(calendar::month_of(day_number_of(dtype, v))),
            TemporalFunction::Week => Some(calendar::iso_week_of(day_number_of(dtype, v))),
            TemporalFunction::WeekDay => Some(calendar::weekday_of(day_number_of(dtype, v))),
            TemporalFunction::Day => Some(calendar::day_of(day_number_of(dtype, v))),
            TemporalFunction::OrdinalDay => Some(calendar::ordinal_of(day_number_of(dtype, v))),
            TemporalFunction::Hour => Some(clock::hour_of(nanos_of(dtype, v))),
            TemporalFunction::Minute => Some(clock::minute_of(nanos_of(dtype, v))),
            TemporalFunction::Second => Some(clock::second_of(nanos_of(dtype, v))),
            TemporalFunction::NanoSecond => Some(clock::nanosecond_of(nanos_of(dtype, v))),
            TemporalFunction::TimeStamp(unit) => match dtype {
                DataType::Datetime(from) => from.convert(v, *unit),
                _ => unit.from_days(v),
            },
        }
    }

    /// Applies the function to a column: hands the column to the one
    /// routine that bears the function's name.
    pub fn apply(&self, s: &Series) -> (r: Result<Series, ExtractionError>)
        ensures
            agrees(r, self.result(s@)),
            r matches Ok(out) ==> out@.same_shape(s@),
    {
        match self {
            TemporalFunction::Year => year(s),
            TemporalFunction::IsoYear => iso_year(s),
            TemporalFunction::Quarter => quarter(s),
            TemporalFunction::Month => month(s),
            TemporalFunction::Week => week(s),
            TemporalFunction::WeekDay => weekday(s),
            TemporalFunction::Day => day(s),
            TemporalFunction::OrdinalDay => ordinal_day(s),
            TemporalFunction::Hour => hour(s),
            TemporalFunction::Minute => minute(s),
            TemporalFunction::Second => second(s),
            TemporalFunction::NanoSecond => nanosecond(s),
            TemporalFunction::TimeStamp(unit) => timestamp(s, *unit),
        }
    }
}

/// Day number of the day on which a value of a type that has a date falls.
fn day_number_of(dtype: DataType, v: i64) -> (d: i64)
    requires
        dtype.has_date(),
    ensures
        d == dtype.day_of_value(v as int),
{
    match dtype {
        DataType::Datetime(unit) => unit.day(v),
        _ => v,
    }
}

/// Time of day, in nanoseconds, of a value of a type that has one.
fn nanos_of(dtype: DataType, v: i64) -> (t: i64)
    requires
        dtype.has_time(),
    ensures
        t == dtype.nanos_of_value(v as int),
{
    match dtype {
        DataType::Datetime(unit) => unit.nanos_of_day(v),
        _ => v,
    }
}

/// Applies `f` to each cell of `s`, in order.
fn extract(f: &TemporalFunction, s: &Series) -> (r: Result<Series, ExtractionError>)
    ensures
        agrees(r, f.result(s@)),
        r matches Ok(out) ==> out@.same_shape(s@),
{
    if !f.accepts_dtype(s.dtype) {
        return Err(ExtractionError::InvalidOperation);
    }
    let n = s.values.len();
    let mut out: Vec<Option<i64>> = Vec::with_capacity(n);
    let mut i: usize = 0;
    while i < n
        invariant
            n == s.values.len(),
            i <= n,
            out.len() == i,
            f.accepts(s.dtype),
            forall|j: int|
                0 <= j < i ==> cell_view(#[trigger] out@[j]) == f.cell(s.dtype, s@.values[j]),
            forall|j: int| 0 <= j < i ==> !f.overflows(s.dtype, #[trigger] s@.values[j]),
        decreases n - i,
    {
        match s.values[i] {
            None => {
                out.push(None);
            },
            Some(v) => {
                match f.evaluate(s.dtype, v) {
                    Some(x) => {
                        out.push(Some(x));
                    },
                    None => {
                        assert(f.overflows(s.dtype, s@.values[i as int]));
                        return Err(ExtractionError::Overflow);
                    },
                }
            },
        }
        i += 1;
    }
    let r = Series { dtype: DataType::Int64, values: out };
    assert(r@.values =~= f.result(s@)->Ok_0.values);
    proof {
        lemma_result_keeps_shape(*f, s@);
    }
    Ok(r)
}

/// The calendar year of each cell of a column that has a date.
pub fn year(s: &Series) -> (r: Result<Series, ExtractionError>)
    ensures
        agrees(r, TemporalFunction::Year.result(s@)),
        r matches Ok(out) ==> out@.same_shape(s@),
{
    extract(&TemporalFunction::Year, s)
}

/// The week-numbering year of each cell of a column that has a date.
pub fn iso_year(s: &Series) -> (r: Result<Series, ExtractionError>)
    ensures
        agrees(r, TemporalFunction::IsoYear.result(s@)),
        r matches Ok(out) ==> out@.same_shape(s@),
{
    extract(&TemporalFunction::IsoYear, s)
}

/// The month, 1 to 12, of each cell of a column that has a date.
pub fn month(s: &Series) -> (r: Result<Series, ExtractionError>)
    ensures
        agrees(r, TemporalFunction::Month.result(s@)),
        r matches Ok(out) ==> out@.same_shape(s@),
{
    extract(&TemporalFunction::Month, s)
}

/// The quarter, 1 to 4, of each cell of a column that has a date.
pub fn quarter(s: &Series) -> (r: Result<Series, ExtractionError>)
    ensures
        agrees(r, TemporalFunction::Quarter.result(s@)),
        r matches Ok(out) ==> out@.same_shape(s@),
{
    extract(&TemporalFunction::Quarter, s)
}

/// The week of the week-numbering year, 1 to 53, of each cell of a column
/// that has a date.
pub fn week(s: &Series) -> (r: Result<Series, ExtractionError>)
    ensures
        agrees(r, TemporalFunction::Week.result(s@)),
        r matches Ok(out) ==> out@.same_shape(s@),
{
    extract(&TemporalFunction::Week, s)
}

/// The day of the week, 1 for Monday to 7 for Sunday, of each cell of a
/// column that has a date.
pub fn weekday(s: &Series) -> (r: Result<Series, ExtractionError>)
    ensures
        agrees(r, TemporalFunction::WeekDay.result(s@)),
        r matches Ok(out) ==> out@.same_shape(s@),
{
    extract(&TemporalFunction::WeekDay, s)
}

/// The day of the month, 1 to 31, of each cell of a column that has a date.
pub fn day(s: &Series) -> (r: Result<Series, ExtractionError>)
    ensures
        agrees(r, TemporalFunction::Day.result(s@)),
        r matches Ok(out) ==> out@.same_shape(s@),
{
    extract(&TemporalFunction::Day, s)
}

/// The day of the year, 1 to 366, of each cell of a column that has a date.
pub fn ordinal_day(s: &Series) -> (r: Result<Series, ExtractionError>)
    ensures
        agrees(r, TemporalFunction::OrdinalDay.result(s@)),
        r matches Ok(out) ==> out@.same_shape(s@),
{
    extract(&TemporalFunction::OrdinalDay, s)
}

/// The hour, 0 to 23, of each cell of a column that has a time of day.
pub fn hour(s: &Series) -> (r: Result<Series, ExtractionError>)
    ensures
        agrees(r, TemporalFunction::Hour.result(s@)),
        r matches Ok(out) ==> out@.same_shape(s@),
{
    extract(&TemporalFunction::Hour, s)
}

/// The minute, 0 to 59, of each cell of a column that has a time of day.
pub fn minute(s: &Series) -> (r: Result<Series, ExtractionError>)
    ensures
        agrees(r, TemporalFunction::Minute.result(s@)),
        r matches Ok(out) ==> out@.same_shape(s@),
{
    extract(&TemporalFunction::Minute, s)
}

/// The second, 0 to 59, of each cell of a column that has a time of day.
pub fn second(s: &Series) -> (r: Result<Series, ExtractionError>)
    ensures
        agrees(r, TemporalFunction::Second.result(s@)),
        r matches Ok(out) ==> out@.same_shape(s@),
{
    extract(&TemporalFunction::Second, s)
}

/// The nanosecond of the second of each cell of a column that has a time of
/// day.
pub fn nanosecond(s: &Series) -> (r: Result<Series, ExtractionError>)
    ensures
        agrees(r, TemporalFunction::NanoSecond.result(s@)),
        r matches Ok(out) ==> out@.same_shape(s@),
{
    extract(&TemporalFunction::NanoSecond, s)
}

/// Each cell of a column that has a date as a timestamp of granularity
/// `tu`.
pub fn timestamp(s: &Series, tu: TimeUnit) -> (r: Result<Series, ExtractionError>)
    ensures
        agrees(r, TemporalFunction::TimeStamp(tu).result(s@)),
        r matches Ok(out) ==> out@.same_shape(s@),
{
    extract(&TemporalFunction::TimeStamp(tu), s)
}

/// Length of a function's text, the first letter of its name, and for a
/// timestamp the first letter of its granularity.
proof fn lemma_text_marks(f: TemporalFunction)
    ensures
        f.text().len() == 3 + f.name().len() + (if f is TimeStamp {
            4int
        } else {
            0int
        }),
        f.text()[3] == f.name()[0],
        f matches TemporalFunction::TimeStamp(unit) ==> f.text()[13] == unit.text()[0],
        match f {
            TemporalFunction::Year => f.name().len() == 4 && f.name()[0] == 'y',
            TemporalFunction::IsoYear => f.name().len() == 8 && f.name()[0] == 'i',
            TemporalFunction::Quarter => f.name().len() == 7 && f.name()[0] == 'q',
            TemporalFunction::Month => f.name().len() == 5 && f.name()[0] == 'm',
            TemporalFunction::Week => f.name().len() == 4 && f.name()[0] == 'w',
            TemporalFunction::WeekDay => f.name().len() == 7 && f.name()[0] == 'w',
            TemporalFunction::Day => f.name().len() == 3 && f.name()[0] == 'd',
            TemporalFunction::OrdinalDay => f.name().len() == 11 && f.name()[0] == 'o',
            TemporalFunction::Hour => f.name().len() == 4 && f.name()[0] == 'h',
            TemporalFunction::Minute => f.name().len() == 6 && f.name()[0] == 'm',
            TemporalFunction::Second => f.name().len() == 6 && f.name()[0] == 's',
            TemporalFunction::NanoSecond => f.name().len() == 10 && f.name()[0] == 'n',
            TemporalFunction::TimeStamp(unit) => f.name().len() == 9 && f.name()[0] == 't' && (
            match unit {
                TimeUnit::Nanoseconds => unit.text()[0] == 'n',
                TimeUnit::Microseconds => unit.text()[0] == 'μ',
                TimeUnit::Milliseconds => unit.text()[0] == 'm',
            }),
        },
{
    reveal_strlit("dt.");
    reveal_strlit("(");
    reveal_strlit(")");
    reveal_strlit("year");
    reveal_strlit("iso_year");
    reveal_strlit("quarter");
    reveal_strlit("month");
    reveal_strlit("week");
    reveal_strlit("weekday");
    reveal_strlit("day");
    reveal_strlit("ordinal_day");
    reveal_strlit("hour");
    reveal_strlit("minute");
    reveal_strlit("second");
    reveal_strlit("nanosecond");
    reveal_strlit("timestamp");
    reveal_strlit("ns");
    reveal_strlit("μs");
    reveal_strlit("ms");
}

/// No two functions have the same text: the text tells the function, and
/// for a timestamp its granularity.
pub proof fn lemma_text_injective(a: TemporalFunction, b: TemporalFunction)
    requires
        a.text() == b.text(),
    ensures
        a == b,
{
    lemma_text_marks(a);
    lemma_text_marks(b);
    assert(a.text().len() == b.text().len());
    assert(a.text()[3] == b.text()[3]);
    assert(a.text()[13] == b.text()[13]);
}

/// Every function has a text, and it starts with the namespace `dt.`.
pub proof fn lemma_text_namespace(f: TemporalFunction)
    ensures
        f.text().len() > 3,
        f.text().subrange(0, 3) == "dt."@,
{
    lemma_text_marks(f);
    reveal_strlit("dt.");
    assert(f.text().subrange(0, 3) =~= "dt."@);
}

/// A function that succeeds keeps the column's shape: the result is a
/// column of plain integers with as many cells as the input, and a cell of
/// it is missing exactly where the input's is.
pub proof fn lemma_result_keeps_shape(f: TemporalFunction, s: SeriesView)
    ensures
        f.result(s) matches Ok(out) ==> out.dtype == DataType::Int64 && out.same_shape(s),
{
}

/// What a function makes of a column depends on the function and on the
/// column's type and cells alone: two outcomes that its contract admits for
/// the same column are the same error, or columns with the same type and
/// the same cells.
pub proof fn lemma_apply_deterministic(
    f: TemporalFunction,
    s: SeriesView,
    first: Result<Series, ExtractionError>,
    second: Result<Series, ExtractionError>,
)
    requires
        agrees(first, f.result(s)),
        agrees(second, f.result(s)),
    ensures
        match (first, second) {
            (Ok(a), Ok(b)) => a.dtype == b.dtype && a.values@ == b.values@,
            (Err(e1), Err(e2)) => e1 == e2,
            _ => false,
        },
{
    if let (Ok(a), Ok(b)) = (first, second) {
        assert(a@ == b@);
        assert(a.values@.len() == a@.values.len());
        assert(b.values@.len() == b@.values.len());
        assert forall|i: int| 0 <= i < a.values@.len() implies a.values@[i] == b.values@[i] by {
            assert(cell_view(a.values@[i]) == a@.values[i]);
            assert(cell_view(b.values@[i]) == b@.values[i]);
        }
        assert(a.values@ =~= b.values@);
    }
}

/// The fields of a date and of a time of day always fit: a function other
/// than a timestamp fails on a column only by not accepting its type.
pub proof fn lemma_fields_succeed(f: TemporalFunction, s: Series)
    requires
        !(f is TimeStamp),
    ensures
        f.accepts(s.dtype) ==> f.result(s@) is Ok,
        !f.accepts(s.dtype) ==> f.result(s@) == Err::<SeriesView, ExtractionError>(
            ExtractionError::InvalidOperation,
        ),
{
    if f.accepts(s.dtype) {
        assert forall|i: int| 0 <= i < s@.values.len() implies !f.overflows(
            s.dtype,
            #[trigger] s@.values[i],
        ) by {
            if let Some(v) = s.values@[i] {
                lemma_field_fits(f, s.dtype, v as int);
            }
        }
    }
}

/// A field of a value that fits in 64 bits fits in 64 bits.
pub proof fn lemma_field_fits(f: TemporalFunction, dtype: DataType, v: int)
    requires
        !(f is TimeStamp),
        f.accepts(dtype),
        fits_i64(v),
    ensures
        fits_i64(f.value(dtype, v)),
{
    match f {
        TemporalFunction::Hour
        | TemporalFunction::Minute
        | TemporalFunction::Second
        | TemporalFunction::NanoSecond => {
            clock::lemma_clock_fields(dtype.nanos_of_value(v));
        },
        _ => {
            let n = dtype.day_of_value(v);
            if let DataType::Datetime(unit) = dtype {
                lemma_timestamp_split(unit, v);
            }
            calendar::lemma_years_fit(n);
            calendar::lemma_field_ranges(n);
        },
    }
}

/// What each function makes of 2024-12-31 13:26:40.123456789, a Tuesday
/// that belongs to the first week of 2025, given as a timestamp in
/// nanoseconds.
proof fn lemma_values_at_year_end()
    ensures
        ({
            let dtype = DataType::Datetime(TimeUnit::Nanoseconds);
            let v = 1_735_651_600_123_456_789int;
            &&& TemporalFunction::Year.value(dtype, v) == 2024
            &&& TemporalFunction::IsoYear.value(dtype, v) == 2025
            &&& TemporalFunction::Quarter.value(dtype, v) == 4
            &&& TemporalFunction::Month.value(dtype, v) == 12
            &&& TemporalFunction::Week.value(dtype, v) == 1
            &&& TemporalFunction::WeekDay.value(dtype, v) == 2
            &&& TemporalFunction::Day.value(dtype, v) == 31
            &&& TemporalFunction::OrdinalDay.value(dtype, v) == 366
            &&& TemporalFunction::Hour.value(dtype, v) == 13
            &&& TemporalFunction::Minute.value(dtype, v) == 26
            &&& TemporalFunction::Second.value(dtype, v) == 40
            &&& TemporalFunction::NanoSecond.value(dtype, v) == 123_456_789
            &&& TemporalFunction::TimeStamp(TimeUnit::Nanoseconds).value(dtype, v)
                == 1_735_651_600_123_456_789
            &&& TemporalFunction::TimeStamp(TimeUnit::Microseconds).value(dtype, v)
                == 1_735_651_600_123_456
            &&& TemporalFunction::TimeStamp(TimeUnit::Milliseconds).value(dtype, v)
                == 1_735_651_600_123
        }),
{
    let dtype = DataType::Datetime(TimeUnit::Nanoseconds);
    let v = 1_735_651_600_123_456_789int;
    assert(dtype.day_of_value(v) == 20_088);
    assert(dtype.nanos_of_value(v) == 48_400_123_456_789);
    calendar::lemma_year_of_day(20_088, 2024);
    assert(calendar::thursday_of_week(20_088) == 20_090);
    calendar::lemma_year_of_day(20_090, 2025);
}

/// No two functions do the same: there is an instant of which each
/// function gives a value that no other function gives.
pub proof fn lemma_functions_differ(a: TemporalFunction, b: TemporalFunction)
    requires
        a != b,
    ensures
        a.value(DataType::Datetime(TimeUnit::Nanoseconds), 1_735_651_600_123_456_789) != b.value(
            DataType::Datetime(TimeUnit::Nanoseconds),
            1_735_651_600_123_456_789,
        ),
{
    lemma_values_at_year_end();
}

} // verus!
