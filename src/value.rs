//! The dynamically typed value tree, the closed set of field types, and the
//! SQL dialects that values are written for.
use vstd::prelude::*;

verus! {

/// A calendar date.
#[derive(Clone, Copy, Debug, PartialEq, Eq, Structural)]
pub struct Date {
    pub year: u16,
    pub month: u8,
    pub day: u8,
}

/// A calendar date with a time of day, in UTC.
#[derive(Clone, Copy, Debug, PartialEq, Eq, Structural)]
pub struct DateTime {
    pub date: Date,
    pub hour: u8,
    pub minute: u8,
    pub second: u8,
}

impl Date {
    /// A date that can stand in a column: a year of at most four digits, a
    /// month from 1 to 12 and a day from 1 to 31.
    pub open spec fn is_valid(&self) -> bool {
        &&& self.year <= 9999
        &&& 1 <= self.month <= 12
        &&& 1 <= self.day <= 31
    }
}

impl DateTime {
    pub open spec fn is_valid(&self) -> bool {
        &&& self.date.is_valid()
        &&& self.hour < 24
        &&& self.minute < 60
        &&& self.second < 60
    }
}

/// A value of a filter document, of a record, or of a decoded row.
#[derive(Debug)]
pub enum Value {
    Null,
    Bool(bool),
    Int(i64),
    String(String),
    Date(Date),
    DateTime(DateTime),
    Array(Vec<Value>),
    /// An ordered map: the entries keep the order in which they were written.
    /// Keys are not required to be distinct; a repeated key stands as one more
    /// entry, and the translator applies each entry in turn.
    Dictionary(Vec<(String, Value)>),
}

/// The type of a field, as the schema declares it.
#[derive(Debug)]
pub enum FieldType {
    Bool,
    String,
    I32,
    I64,
    U32,
    U64,
    F32,
    F64,
    Decimal,
    Date,
    DateTime,
    /// A value of the enum of this name.
    Enum(String),
    /// An array of the element type; the flag tells whether an element may be null.
    Array(Box<FieldType>, bool),
}

/// The SQL variant that fragments are written for.
#[derive(Clone, Copy, Debug, PartialEq, Eq, Structural)]
pub enum Dialect {
    MySQL,
    PostgreSQL,
    SQLite,
}

impl FieldType {
    /// Integer types of any width.
    pub open spec fn is_int_spec(&self) -> bool {
        self is I32 || self is I64 || self is U32 || self is U64
    }

    /// Types whose values are ordered, so that `>` and `<` apply.
    pub open spec fn is_comparable_spec(&self) -> bool {
        self.is_int_spec() || self is F32 || self is F64 || self is Decimal || self is Date
            || self is DateTime
    }

    /// A copy of this type.
    pub fn copy(&self) -> (r: FieldType)
        ensures
            r == *self,
        decreases self,
    {
        match self {
            FieldType::Bool => FieldType::Bool,
            FieldType::String => FieldType::String,
            FieldType::I32 => FieldType::I32,
            FieldType::I64 => FieldType::I64,
            FieldType::U32 => FieldType::U32,
            FieldType::U64 => FieldType::U64,
            FieldType::F32 => FieldType::F32,
            FieldType::F64 => FieldType::F64,
            FieldType::Decimal => FieldType::Decimal,
            FieldType::Date => FieldType::Date,
            FieldType::DateTime => FieldType::DateTime,
            FieldType::Enum(name) => FieldType::Enum(name.clone()),
            FieldType::Array(element, optional) => FieldType::Array(
                Box::new((**element).copy()),
                *optional,
            ),
        }
    }

    pub fn is_int(&self) -> (r: bool)
        ensures
            r == self.is_int_spec(),
    {
        match self {
            FieldType::I32 | FieldType::I64 | FieldType::U32 | FieldType::U64 => true,
            _ => false,
        }
    }

    pub fn is_comparable(&self) -> (r: bool)
        ensures
            r == self.is_comparable_spec(),
    {
        match self {
            FieldType::I32 | FieldType::I64 | FieldType::U32 | FieldType::U64 | FieldType::F32
            | FieldType::F64 | FieldType::Decimal | FieldType::Date | FieldType::DateTime => true,
            _ => false,
        }
    }
}

} // verus!
