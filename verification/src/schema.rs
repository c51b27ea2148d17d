//! Physical column types and table schemas, as plain values.
use vstd::prelude::*;
use vstd::string::*;
use crate::text::{decimal, decimal_i64};

verus! {

/// The unit in which a timestamp, a time of day or a duration counts.
#[derive(Clone, Copy, Debug, PartialEq, Eq, Structural)]
pub enum TimeUnit {
    Second,
    Millisecond,
    Microsecond,
    Nanosecond,
}

/// The unit in which an interval counts.
#[derive(Clone, Copy, Debug, PartialEq, Eq, Structural)]
pub enum IntervalUnit {
    YearMonth,
    DayTime,
    MonthDayNano,
}

/// The closed set of physical column types a table can carry.
///
/// A type keeps the parameters that are plain numbers or units: the unit of
/// a time, the width of a fixed-size value, the precision and scale of a
/// decimal. A nested type keeps only its kind, and a timestamp does not keep
/// its time zone: nothing in this library reads them.
#[derive(Clone, Copy, Debug, PartialEq, Eq, Structural)]
pub enum DataType {
    Null,
    Boolean,
    Int8,
    Int16,
    Int32,
    Int64,
    UInt8,
    UInt16,
    UInt32,
    UInt64,
    Float16,
    Float32,
    Float64,
    Timestamp(TimeUnit),
    Date32,
    Date64,
    Time32(TimeUnit),
    Time64(TimeUnit),
    Duration(TimeUnit),
    Interval(IntervalUnit),
    Binary,
    /// Binary values of the given width in bytes.
    FixedSizeBinary(i32),
    LargeBinary,
    BinaryView,
    Utf8,
    LargeUtf8,
    Utf8View,
    List,
    /// Lists of the given length.
    FixedSizeList(i32),
    LargeList,
    ListView,
    LargeListView,
    Struct,
    Union,
    Dictionary,
    /// Decimals of the given precision and scale.
    Decimal128(u8, i8),
    /// Decimals of the given precision and scale.
    Decimal256(u8, i8),
    MapEntries,
    RunEndEncoded,
}

impl TimeUnit {
    /// The name of the unit.
    pub open spec fn spec_name(self) -> Seq<char> {
        match self {
            TimeUnit::Second => "Second"@,
            TimeUnit::Millisecond => "Millisecond"@,
            TimeUnit::Microsecond => "Microsecond"@,
            TimeUnit::Nanosecond => "Nanosecond"@,
        }
    }

    /// The name of the unit.
    pub fn name(&self) -> (r: &'static str)
        ensures
            r@ == self.spec_name(),
    {
        match self {
            TimeUnit::Second => "Second",
            TimeUnit::Millisecond => "Millisecond",
            TimeUnit::Microsecond => "Microsecond",
            TimeUnit::Nanosecond => "Nanosecond",
        }
    }
}

impl IntervalUnit {
    /// The name of the unit.
    pub open spec fn spec_name(self) -> Seq<char> {
        match self {
            IntervalUnit::YearMonth => "YearMonth"@,
            IntervalUnit::DayTime => "DayTime"@,
            IntervalUnit::MonthDayNano => "MonthDayNano"@,
        }
    }

    /// The name of the unit.
    pub fn name(&self) -> (r: &'static str)
        ensures
            r@ == self.spec_name(),
    {
        match self {
            IntervalUnit::YearMonth => "YearMonth",
            IntervalUnit::DayTime => "DayTime",
            IntervalUnit::MonthDayNano => "MonthDayNano",
        }
    }
}

/// A kind of type with one parameter, as it is written: `Kind(parameter)`.
pub open spec fn with_parameter(kind: Seq<char>, parameter: Seq<char>) -> Seq<char> {
    kind + "("@ + parameter + ")"@
}

/// A kind of type with two parameters, as it is written: `Kind(first,
/// second)`.
pub open spec fn with_parameters(kind: Seq<char>, first: Seq<char>, second: Seq<char>) -> Seq<
    char,
> {
    kind + "("@ + first + ", "@ + second + ")"@
}

fn parameterised(kind: &str, parameter: &str) -> (r: String)
    ensures
        r@ == with_parameter(kind@, parameter@),
{
    kind.to_owned().concat("(").concat(parameter).concat(")")
}

fn parameterised_twice(kind: &str, first: &str, second: &str) -> (r: String)
    ensures
        r@ == with_parameters(kind@, first@, second@),
{
    kind.to_owned().concat("(").concat(first).concat(", ").concat(second).concat(")")
}

impl DataType {
    /// The name under which the type is reported in messages: its kind, and
    /// in parentheses the parameters that it keeps.
    pub open spec fn spec_name(self) -> Seq<char> {
        match self {
            DataType::Null => "Null"@,
            DataType::Boolean => "Boolean"@,
            DataType::Int8 => "Int8"@,
            DataType::Int16 => "Int16"@,
            DataType::Int32 => "Int32"@,
            DataType::Int64 => "Int64"@,
            DataType::UInt8 => "UInt8"@,
            DataType::UInt16 => "UInt16"@,
            DataType::UInt32 => "UInt32"@,
            DataType::UInt64 => "UInt64"@,
            DataType::Float16 => "Float16"@,
            DataType::Float32 => "Float32"@,
            DataType::Float64 => "Float64"@,
            DataType::Date32 => "Date32"@,
            DataType::Date64 => "Date64"@,
            DataType::Binary => "Binary"@,
            DataType::LargeBinary => "LargeBinary"@,
            DataType::BinaryView => "BinaryView"@,
            DataType::Utf8 => "Utf8"@,
            DataType::LargeUtf8 => "LargeUtf8"@,
            DataType::Utf8View => "Utf8View"@,
            DataType::List => "List"@,
            DataType::LargeList => "LargeList"@,
            DataType::ListView => "ListView"@,
            DataType::LargeListView => "LargeListView"@,
            DataType::Struct => "Struct"@,
            DataType::Union => "Union"@,
            DataType::Dictionary => "Dictionary"@,
            DataType::MapEntries => "Map"@,
            DataType::RunEndEncoded => "RunEndEncoded"@,
            DataType::Timestamp(unit) => with_parameter("Timestamp"@, unit.spec_name()),
            DataType::Time32(unit) => with_parameter("Time32"@, unit.spec_name()),
            DataType::Time64(unit) => with_parameter("Time64"@, unit.spec_name()),
            DataType::Duration(unit) => with_parameter("Duration"@, unit.spec_name()),
            DataType::Interval(unit) => with_parameter("Interval"@, unit.spec_name()),
            DataType::FixedSizeBinary(width) => with_parameter(
                "FixedSizeBinary"@,
                decimal(width as int),
            ),
            DataType::FixedSizeList(length) => with_parameter(
                "FixedSizeList"@,
                decimal(length as int),
            ),
            DataType::Decimal128(precision, scale) => with_parameters(
                "Decimal128"@,
                decimal(precision as int),
                decimal(scale as int),
            ),
            DataType::Decimal256(precision, scale) => with_parameters(
                "Decimal256"@,
                decimal(precision as int),
                decimal(scale as int),
            ),
        }
    }

    /// The name under which the type is reported in messages.
    pub fn name(&self) -> (r: String)
        ensures
            r@ == self.spec_name(),
    {
        match self {
            DataType::Null => "Null".to_owned(),
            DataType::Boolean => "Boolean".to_owned(),
            DataType::Int8 => "Int8".to_owned(),
            DataType::Int16 => "Int16".to_owned(),
            DataType::Int32 => "Int32".to_owned(),
            DataType::Int64 => "Int64".to_owned(),
            DataType::UInt8 => "UInt8".to_owned(),
            DataType::UInt16 => "UInt16".to_owned(),
            DataType::UInt32 => "UInt32".to_owned(),
            DataType::UInt64 => "UInt64".to_owned(),
            DataType::Float16 => "Float16".to_owned(),
            DataType::Float32 => "Float32".to_owned(),
            DataType::Float64 => "Float64".to_owned(),
            DataType::Date32 => "Date32".to_owned(),
            DataType::Date64 => "Date64".to_owned(),
            DataType::Binary => "Binary".to_owned(),
            DataType::LargeBinary => "LargeBinary".to_owned(),
            DataType::BinaryView => "BinaryView".to_owned(),
            DataType::Utf8 => "Utf8".to_owned(),
            DataType::LargeUtf8 => "LargeUtf8".to_owned(),
            DataType::Utf8View => "Utf8View".to_owned(),
            DataType::List => "List".to_owned(),
            DataType::LargeList => "LargeList".to_owned(),
            DataType::ListView => "ListView".to_owned(),
            DataType::LargeListView => "LargeListView".to_owned(),
            DataType::Struct => "Struct".to_owned(),
            DataType::Union => "Union".to_owned(),
            DataType::Dictionary => "Dictionary".to_owned(),
            DataType::MapEntries => "Map".to_owned(),
            DataType::RunEndEncoded => "RunEndEncoded".to_owned(),
            DataType::Timestamp(unit) => parameterised("Timestamp", unit.name()),
            DataType::Time32(unit) => parameterised("Time32", unit.name()),
            DataType::Time64(unit) => parameterised("Time64", unit.name()),
            DataType::Duration(unit) => parameterised("Duration", unit.name()),
            DataType::Interval(unit) => parameterised("Interval", unit.name()),
            DataType::FixedSizeBinary(width) => parameterised(
                "FixedSizeBinary",
                decimal_i64(*width as i64).as_str(),
            ),
            DataType::FixedSizeList(length) => parameterised(
                "FixedSizeList",
                decimal_i64(*length as i64).as_str(),
            ),
            DataType::Decimal128(precision, scale) => parameterised_twice(
                "Decimal128",
                decimal_i64(*precision as i64).as_str(),
                decimal_i64(*scale as i64).as_str(),
            ),
            DataType::Decimal256(precision, scale) => parameterised_twice(
                "Decimal256",
                decimal_i64(*precision as i64).as_str(),
                decimal_i64(*scale as i64).as_str(),
            ),
        }
    }
}

/// One column of a table schema.
#[derive(Clone, Debug, PartialEq, Eq)]
pub struct Field {
    pub name: String,
    pub data_type: DataType,
    pub nullable: bool,
}

impl Field {
    /// A field of the given name, type and nullability.
    pub fn new(name: &str, data_type: DataType, nullable: bool) -> (r: Field)
        ensures
            r.name@ == name@,
            r.data_type == data_type,
            r.nullable == nullable,
    {
        Field { name: name.to_owned(), data_type, nullable }
    }
}

/// The ordered columns of a table.
#[derive(Clone, Debug, PartialEq, Eq)]
pub struct Schema {
    pub fields: Vec<Field>,
}

impl Schema {
    /// A schema of the given fields.
    pub fn new(fields: Vec<Field>) -> (r: Schema)
        ensures
            r.fields == fields,
    {
        Schema { fields }
    }

    /// Whether some field carries the given name.
    pub open spec fn has_field(&self, name: Seq<char>) -> bool {
        exists|i: int| 0 <= i < self.fields@.len() && self.fields@[i].name@ == name
    }
}

} // verus!
