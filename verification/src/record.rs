//! Row batches as plain values, and the text of a single cell.
use vstd::prelude::*;
use vstd::string::*;
use crate::error::UnsupportedDataType;
use crate::metadata::edm_type_of;
use crate::schema::{DataType, Schema, TimeUnit};
use crate::text::{decimal, decimal_i64, decimal_nat, decimal_u64};
use crate::time::{encode_date_time, rfc3339_millis};
use crate::xml::{escape, escaped};

verus! {

/// One value of a column.
#[derive(Clone, Debug, PartialEq, Eq)]
pub enum Cell {
    /// No value.
    Null,
    Boolean(bool),
    /// A signed integer of any width, or the ticks of a timestamp or date.
    Int(i64),
    /// An unsigned integer of any width.
    UInt(u64),
    /// A floating-point number, as the decimal text that the host has made
    /// of it. The text is escaped wherever it is written, as a string is.
    Float(String),
    /// A string.
    Text(String),
    /// A value of a type that has no text.
    Opaque,
}

/// One column of a batch: its physical type and one cell per row.
#[derive(Clone, Debug, PartialEq, Eq)]
pub struct Column {
    pub data_type: DataType,
    pub cells: Vec<Cell>,
}

/// A run of rows, held column by column.
#[derive(Clone, Debug, PartialEq, Eq)]
pub struct RecordBatch {
    pub columns: Vec<Column>,
    pub num_rows: usize,
}

/// Whether a type has values that this library cannot read: every type but
/// the null type, booleans, integers, floats, timestamps, dates and strings.
pub open spec fn is_unreadable(dt: DataType) -> bool {
    match dt {
        DataType::Null
        | DataType::Boolean
        | DataType::Int8
        | DataType::Int16
        | DataType::Int32
        | DataType::Int64
        | DataType::UInt8
        | DataType::UInt16
        | DataType::UInt32
        | DataType::UInt64
        | DataType::Float16
        | DataType::Float32
        | DataType::Float64
        | DataType::Timestamp(_)
        | DataType::Date32
        | DataType::Date64
        | DataType::Utf8
        | DataType::LargeUtf8 => false,
        _ => true,
    }
}

/// Whether a cell can stand in a column of the given type: a missing value in
/// any column, and a value in a column of its kind and width.
pub open spec fn cell_fits(dt: DataType, cell: Cell) -> bool {
    match cell {
        Cell::Null => true,
        Cell::Boolean(_) => dt == DataType::Boolean,
        Cell::Int(v) => match dt {
            DataType::Int8 => i8::MIN <= v <= i8::MAX,
            DataType::Int16 => i16::MIN <= v <= i16::MAX,
            DataType::Int32 | DataType::Date32 => i32::MIN <= v <= i32::MAX,
            DataType::Int64 | DataType::Date64 | DataType::Timestamp(_) => true,
            _ => false,
        },
        Cell::UInt(v) => match dt {
            DataType::UInt8 => v <= u8::MAX,
            DataType::UInt16 => v <= u16::MAX,
            DataType::UInt32 => v <= u32::MAX,
            DataType::UInt64 => true,
            _ => false,
        },
        Cell::Float(_) => dt == DataType::Float16 || dt == DataType::Float32 || dt
            == DataType::Float64,
        Cell::Text(_) => dt == DataType::Utf8 || dt == DataType::LargeUtf8,
        Cell::Opaque => is_unreadable(dt),
    }
}

impl Cell {
    /// Checks that the cell can stand in a column of the given type.
    pub fn fits(&self, dt: DataType) -> (r: bool)
        ensures
            r == cell_fits(dt, *self),
    {
        match self {
            Cell::Null => true,
            Cell::Boolean(_) => dt == DataType::Boolean,
            Cell::Int(v) => match dt {
                DataType::Int8 => -128 <= *v && *v <= 127,
                DataType::Int16 => -32768 <= *v && *v <= 32767,
                DataType::Int32 => -2147483648 <= *v && *v <= 2147483647,
                DataType::Date32 => -2147483648 <= *v && *v <= 2147483647,
                DataType::Int64 => true,
                DataType::Date64 => true,
                DataType::Timestamp(_) => true,
                _ => false,
            },
            Cell::UInt(v) => match dt {
                DataType::UInt8 => *v <= 255,
                DataType::UInt16 => *v <= 65535,
                DataType::UInt32 => *v <= 4294967295,
                DataType::UInt64 => true,
                _ => false,
            },
            Cell::Float(_) => dt == DataType::Float16 || dt == DataType::Float32 || dt
                == DataType::Float64,
            Cell::Text(_) => dt == DataType::Utf8 || dt == DataType::LargeUtf8,
            Cell::Opaque => match dt {
                DataType::Null
                | DataType::Boolean
                | DataType::Int8
                | DataType::Int16
                | DataType::Int32
                | DataType::Int64
                | DataType::UInt8
                | DataType::UInt16
                | DataType::UInt32
                | DataType::UInt64
                | DataType::Float16
                | DataType::Float32
                | DataType::Float64
                | DataType::Timestamp(_)
                | DataType::Date32
                | DataType::Date64
                | DataType::Utf8
                | DataType::LargeUtf8 => false,
                _ => true,
            },
        }
    }
}

/// Milliseconds in a day.
pub const MILLIS_PER_DAY: i64 = 86_400_000;

/// The instant, in milliseconds since the Unix epoch, that the ticks of a
/// timestamp or date column stand for; `None` where it is out of range.
///
/// A timestamp counts in its unit from the epoch, and parts of a millisecond
/// are cut off towards the past. A 64-bit date counts milliseconds; a 32-bit
/// date counts days and stands for midnight UTC of its day.
pub open spec fn instant_millis(dt: DataType, ticks: i64) -> Option<i64> {
    match dt {
        DataType::Date32 => in_range(ticks * MILLIS_PER_DAY),
        DataType::Timestamp(TimeUnit::Second) => in_range(ticks * 1000),
        DataType::Timestamp(TimeUnit::Microsecond) => in_range(ticks as int / 1000),
        DataType::Timestamp(TimeUnit::Nanosecond) => in_range(ticks as int / 1_000_000),
        _ => Some(ticks),
    }
}

/// A number of milliseconds, where it fits 64 bits.
pub open spec fn in_range(millis: int) -> Option<i64> {
    if i64::MIN <= millis <= i64::MAX {
        Some(millis as i64)
    } else {
        None
    }
}

/// The quotient of a division by a positive number, rounded towards the
/// past: the greatest integer that is no greater than the fraction.
fn floor_div(ticks: i64, unit: i64) -> (r: i64)
    requires
        unit == 1000 || unit == 1_000_000,
    ensures
        r == ticks as int / unit as int,
{
    if ticks >= 0 {
        ticks / unit
    } else {
        let magnitude: u64 = ((-(ticks + 1)) as u64) + 1;
        let up: u64 = (magnitude + (unit as u64 - 1)) / (unit as u64);
        -(up as i64)
    }
}

fn millis_of(dt: DataType, ticks: i64) -> (r: Option<i64>)
    ensures
        r == instant_millis(dt, ticks),
{
    match dt {
        DataType::Date32 => ticks.checked_mul(MILLIS_PER_DAY),
        DataType::Timestamp(TimeUnit::Second) => ticks.checked_mul(1000),
        DataType::Timestamp(TimeUnit::Microsecond) => Some(floor_div(ticks, 1000)),
        DataType::Timestamp(TimeUnit::Nanosecond) => Some(floor_div(ticks, 1_000_000)),
        _ => Some(ticks),
    }
}

/// Whether an integer cell of this type holds an instant and not a number.
pub open spec fn is_temporal(dt: DataType) -> bool {
    dt is Timestamp || dt == DataType::Date32 || dt == DataType::Date64
}

/// The text of a cell before any escaping, or the type that has none.
///
/// A missing value reads `null`, but `0` in an 8-bit or 16-bit signed column.
pub open spec fn plain_text(dt: DataType, cell: Cell) -> Result<Seq<char>, DataType> {
    match cell {
        Cell::Null => if dt == DataType::Int8 || dt == DataType::Int16 {
            Ok("0"@)
        } else {
            Ok("null"@)
        },
        Cell::Boolean(b) => if b {
            Ok("true"@)
        } else {
            Ok("false"@)
        },
        Cell::Int(v) => if is_temporal(dt) {
            match instant_millis(dt, v) {
                Some(ms) => match rfc3339_millis(ms) {
                    Some(text) => Ok(text),
                    None => Err(dt),
                },
                None => Err(dt),
            }
        } else {
            Ok(decimal(v as int))
        },
        Cell::UInt(v) => Ok(decimal_nat(v as nat)),
        Cell::Float(text) => Ok(text@),
        Cell::Text(text) => Ok(text@),
        Cell::Opaque => Err(dt),
    }
}

/// The text of a cell as it stands in a document: a string is escaped, and
/// so is the text of a float, which the host hands over; every other value
/// is written as it is.
pub open spec fn encoded_text(dt: DataType, cell: Cell) -> Result<Seq<char>, DataType> {
    match cell {
        Cell::Text(text) => Ok(escaped(text@)),
        Cell::Float(text) => Ok(escaped(text@)),
        _ => plain_text(dt, cell),
    }
}

/// The text of one cell, escaped where `escape_strings` says so.
fn cell_text(dt: DataType, cell: &Cell, escape_strings: bool) -> (r: Result<
    String,
    UnsupportedDataType,
>)
    ensures
        match r {
            Ok(text) => (if escape_strings {
                encoded_text(dt, *cell)
            } else {
                plain_text(dt, *cell)
            }) == Ok::<Seq<char>, DataType>(text@),
            Err(e) => e.data_type == dt && plain_text(dt, *cell) == Err::<Seq<char>, DataType>(
                dt,
            ) && encoded_text(dt, *cell) == Err::<Seq<char>, DataType>(dt),
        },
{
    match cell {
        Cell::Null => {
            if dt == DataType::Int8 || dt == DataType::Int16 {
                Ok("0".to_owned())
            } else {
                Ok("null".to_owned())
            }
        },
        Cell::Boolean(b) => {
            if *b {
                Ok("true".to_owned())
            } else {
                Ok("false".to_owned())
            }
        },
        Cell::Int(v) => {
            let temporal = match dt {
                DataType::Timestamp(_) => true,
                DataType::Date32 => true,
                DataType::Date64 => true,
                _ => false,
            };
            if temporal {
                match millis_of(dt, *v) {
                    Some(ms) => match encode_date_time(ms) {
                        Some(text) => Ok(text),
                        None => Err(UnsupportedDataType::new(dt)),
                    },
                    None => Err(UnsupportedDataType::new(dt)),
                }
            } else {
                Ok(decimal_i64(*v))
            }
        },
        Cell::UInt(v) => Ok(decimal_u64(*v)),
        Cell::Float(text) => {
            if escape_strings {
                Ok(escape(text.as_str()))
            } else {
                Ok(text.clone())
            }
        },
        Cell::Text(text) => {
            if escape_strings {
                Ok(escape(text.as_str()))
            } else {
                Ok(text.clone())
            }
        },
        Cell::Opaque => Err(UnsupportedDataType::new(dt)),
    }
}

impl Column {
    /// A column of the given type and cells.
    pub fn new(data_type: DataType, cells: Vec<Cell>) -> (r: Column)
        ensures
            r.data_type == data_type,
            r.cells == cells,
    {
        Column { data_type, cells }
    }

    /// Whether every cell can stand in a column of this type.
    pub open spec fn wf(&self) -> bool {
        forall|i: int| 0 <= i < self.cells@.len() ==> cell_fits(self.data_type, #[trigger] self.cells@[i])
    }

    /// Checks that every cell can stand in a column of this type.
    pub fn is_wf(&self) -> (r: bool)
        ensures
            r == self.wf(),
    {
        let mut i: usize = 0;
        while i < self.cells.len()
            invariant
                i <= self.cells@.len(),
                forall|k: int| 0 <= k < i ==> cell_fits(self.data_type, #[trigger] self.cells@[k]),
            decreases self.cells@.len() - i,
        {
            if !self.cells[i].fits(self.data_type) {
                return false;
            }
            i = i + 1;
        }
        true
    }
}

impl RecordBatch {
    /// A batch of the given columns and number of rows.
    pub fn new(columns: Vec<Column>, num_rows: usize) -> (r: RecordBatch)
        ensures
            r.columns == columns,
            r.num_rows == num_rows,
    {
        RecordBatch { columns, num_rows }
    }

    /// Whether the batch has one column for each field of the schema, of the
    /// field's type, with one cell per row, each of which can stand in it.
    pub open spec fn matches(&self, schema: &Schema) -> bool {
        &&& self.columns@.len() == schema.fields@.len()
        &&& forall|i: int|
            0 <= i < self.columns@.len() ==> {
                &&& (#[trigger] self.columns@[i]).data_type == schema.fields@[i].data_type
                &&& self.columns@[i].cells@.len() == self.num_rows
                &&& self.columns@[i].wf()
            }
    }

    /// Checks that the batch has the shape the schema asks for.
    pub fn conforms_to(&self, schema: &Schema) -> (r: bool)
        ensures
            r == self.matches(schema),
    {
        if self.columns.len() != schema.fields.len() {
            return false;
        }
        let mut i: usize = 0;
        while i < self.columns.len()
            invariant
                i <= self.columns@.len(),
                self.columns@.len() == schema.fields@.len(),
                forall|k: int|
                    0 <= k < i ==> {
                        &&& (#[trigger] self.columns@[k]).data_type
                            == schema.fields@[k].data_type
                        &&& self.columns@[k].cells@.len() == self.num_rows
                        &&& self.columns@[k].wf()
                    },
            decreases self.columns@.len() - i,
        {
            if self.columns[i].data_type != schema.fields[i].data_type
                || self.columns[i].cells.len() != self.num_rows || !self.columns[i].is_wf() {
                return false;
            }
            i = i + 1;
        }
        true
    }
}

/// The encoder and the type mapper agree: a value that stands in a column
/// has a text where the column's type has an EDM type, unless it is an
/// instant out of range; it has none where the type has no EDM type. A
/// missing value always has a text.
pub proof fn lemma_text_follows_the_type(dt: DataType, cell: Cell)
    requires
        cell_fits(dt, cell),
    ensures
        cell is Null ==> encoded_text(dt, cell) is Ok,
        !(cell is Null) && edm_type_of(dt) is None ==> encoded_text(dt, cell) == Err::<
            Seq<char>,
            DataType,
        >(dt),
        !(cell is Null) && edm_type_of(dt) is Some && !is_temporal(dt) ==> encoded_text(dt, cell)
            is Ok,
        encoded_text(dt, cell) is Err ==> encoded_text(dt, cell) == Err::<Seq<char>, DataType>(dt),
{
}

/// The number of rows in the first `n` batches.
pub open spec fn total_rows(batches: Seq<RecordBatch>, n: int) -> nat
    decreases n,
{
    if n <= 0 {
        0
    } else {
        total_rows(batches, n - 1) + batches[n - 1].num_rows as nat
    }
}

/// The text of the cell at `row` as it stands in a document.
///
/// Booleans read `true` or `false`, integers are decimal numerals, floats
/// keep their text, timestamps and dates are RFC 3339 instants with
/// milliseconds in UTC, and strings are escaped. A value of a type without
/// text, and an instant that is out of range, give the column's type back.
pub fn encode_primitive_dyn(col: &Column, row: usize) -> (r: Result<String, UnsupportedDataType>)
    requires
        row < col.cells@.len(),
    ensures
        match r {
            Ok(text) => encoded_text(col.data_type, col.cells@[row as int]) == Ok::<
                Seq<char>,
                DataType,
            >(text@),
            Err(e) => e.data_type == col.data_type && encoded_text(
                col.data_type,
                col.cells@[row as int],
            ) == Err::<Seq<char>, DataType>(col.data_type),
        },
{
    cell_text(col.data_type, &col.cells[row], true)
}

/// The text of the cell at `row` before escaping.
pub fn primitive_text(col: &Column, row: usize) -> (r: Result<String, UnsupportedDataType>)
    requires
        row < col.cells@.len(),
    ensures
        match r {
            Ok(text) => plain_text(col.data_type, col.cells@[row as int]) == Ok::<
                Seq<char>,
                DataType,
            >(text@),
            Err(e) => e.data_type == col.data_type && plain_text(
                col.data_type,
                col.cells@[row as int],
            ) == Err::<Seq<char>, DataType>(col.data_type),
        },
{
    cell_text(col.data_type, &col.cells[row], false)
}

} // verus!
