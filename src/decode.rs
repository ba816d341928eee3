//! Decoding a database column into a value, as a sequence of decisions. The
//! caller owns the row: it performs each read that a step asks for and hands
//! the outcome back. An optional column is probed for SQL NULL first, and a
//! NULL short-circuits before any typed read.
use vstd::prelude::*;
use crate::encode::int_fits;
use crate::value::{FieldType, Value};

verus! {

/// The typed accessor to call on the column.
#[derive(Clone, Copy, Debug, PartialEq, Eq, Structural)]
pub enum ColumnRead {
    Bool,
    String,
    Int,
    Float,
    Date,
    DateTime,
}

/// What to do next with a column.
#[derive(Clone, Copy, Debug, PartialEq, Eq, Structural)]
pub enum DecodeStep {
    /// Ask whether the column is SQL NULL, and decode again with the answer.
    ProbeNull,
    /// The value is null; no accessor is to be called.
    ReturnNull,
    /// Call this accessor and wrap what it gives.
    Read(ColumnRead),
    /// No decoder exists for this type: a fatal condition.
    Unhandled,
}

/// The accessor for a column of type `t`, if one exists.
pub open spec fn read_for(t: FieldType) -> Option<ColumnRead> {
    match t {
        FieldType::Bool => Some(ColumnRead::Bool),
        FieldType::String => Some(ColumnRead::String),
        FieldType::I32 | FieldType::I64 | FieldType::U32 | FieldType::U64 => Some(ColumnRead::Int),
        FieldType::F32 | FieldType::F64 => Some(ColumnRead::Float),
        FieldType::Date => Some(ColumnRead::Date),
        FieldType::DateTime => Some(ColumnRead::DateTime),
        _ => None,
    }
}

/// The next step for a column of type `t`; `is_null` is the answer of the NULL
/// probe, once it was made.
pub open spec fn decode_step(t: FieldType, optional: bool, is_null: Option<bool>) -> DecodeStep {
    if optional && is_null is None {
        DecodeStep::ProbeNull
    } else if optional && is_null == Some(true) {
        DecodeStep::ReturnNull
    } else {
        match read_for(t) {
            Some(read) => DecodeStep::Read(read),
            None => DecodeStep::Unhandled,
        }
    }
}

/// A NULL in an optional column decodes to the null value, and no typed
/// accessor is ever asked for: the probe comes first, and its positive answer
/// ends the decoding.
pub proof fn law_null_short_circuit(t: FieldType)
    ensures
        decode_step(t, true, None) == DecodeStep::ProbeNull,
        decode_step(t, true, Some(true)) == DecodeStep::ReturnNull,
        !(decode_step(t, true, None) is Read),
        !(decode_step(t, true, Some(true)) is Read),
{
}

pub struct RowDecoder {}

impl RowDecoder {
    /// The next step of decoding a column of type `t`.
    pub fn decode(t: &FieldType, optional: bool, is_null: Option<bool>) -> (r: DecodeStep)
        ensures
            r == decode_step(*t, optional, is_null),
    {
        if optional {
            match is_null {
                None => return DecodeStep::ProbeNull,
                Some(true) => return DecodeStep::ReturnNull,
                Some(false) => {},
            }
        }
        match t {
            FieldType::Bool => DecodeStep::Read(ColumnRead::Bool),
            FieldType::String => DecodeStep::Read(ColumnRead::String),
            FieldType::I32 | FieldType::I64 | FieldType::U32 | FieldType::U64 => DecodeStep::Read(ColumnRead::Int),
            FieldType::F32 | FieldType::F64 => DecodeStep::Read(ColumnRead::Float),
            FieldType::Date => DecodeStep::Read(ColumnRead::Date),
            FieldType::DateTime => DecodeStep::Read(ColumnRead::DateTime),
            _ => DecodeStep::Unhandled,
        }
    }

    /// The value of an integer read from a column of type `t`, or `None` where
    /// the number does not fit that type.
    pub fn number_from_i64(i: i64, t: &FieldType) -> (r: Option<Value>)
        ensures
            int_fits(i as int, *t) ==> r == Some(Value::Int(i)),
            !int_fits(i as int, *t) ==> r is None,
    {
        let fits = match t {
            FieldType::I32 => -2147483648 <= i && i <= 2147483647,
            FieldType::U32 => 0 <= i && i <= 4294967295,
            FieldType::U64 => 0 <= i,
            _ => true,
        };
        if fits {
            Some(Value::Int(i))
        } else {
            None
        }
    }
}

} // verus!
