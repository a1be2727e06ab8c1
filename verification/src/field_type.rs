//! Column types and the types in which expressions are evaluated.
use vstd::prelude::*;

verus! {

/// A column type of the MySQL protocol.
#[derive(Clone, Copy, Debug, PartialEq, Eq, Structural)]
pub enum FieldTypeTp {
    Unspecified,
    Tiny,
    Short,
    Long,
    Float,
    Double,
    Null,
    Timestamp,
    LongLong,
    Int24,
    Date,
    Duration,
    DateTime,
    Year,
    NewDate,
    VarChar,
    Bit,
    Json,
    NewDecimal,
    Enum,
    SetOf,
    TinyBlob,
    MediumBlob,
    LongBlob,
    Blob,
    VarString,
    String,
    Geometry,
}

/// The type of a value in an expression: its column type and the attributes of that type.
#[derive(Debug)]
pub struct FieldType {
    pub tp: FieldTypeTp,
    pub flag: u32,
    pub flen: i32,
    /// The number of fractional digits; negative when it is unspecified.
    pub decimal: i32,
    pub collate: i32,
    pub charset: String,
}

impl FieldType {
    /// Gets the column type.
    pub fn tp(&self) -> (tp: FieldTypeTp)
        ensures
            tp == self.tp,
    {
        self.tp
    }

    /// Gets the number of fractional digits.
    pub fn decimal(&self) -> (decimal: i32)
        ensures
            decimal == self.decimal,
    {
        self.decimal
    }
}

/// The type in which an expression is evaluated.
#[derive(Clone, Copy, Debug, PartialEq, Eq, Structural)]
pub enum EvalType {
    Int,
    Real,
    Decimal,
    Bytes,
    DateTime,
    Duration,
    Json,
}

impl EvalType {
    /// The name of the type.
    pub open spec fn spec_name(self) -> Seq<char> {
        match self {
            EvalType::Int => "Int"@,
            EvalType::Real => "Real"@,
            EvalType::Decimal => "Decimal"@,
            EvalType::Bytes => "Bytes"@,
            EvalType::DateTime => "DateTime"@,
            EvalType::Duration => "Duration"@,
            EvalType::Json => "Json"@,
        }
    }

    /// Gets the name of the type.
    pub fn name(&self) -> (name: &'static str)
        ensures
            name@ == self.spec_name(),
    {
        match self {
            EvalType::Int => "Int",
            EvalType::Real => "Real",
            EvalType::Decimal => "Decimal",
            EvalType::Bytes => "Bytes",
            EvalType::DateTime => "DateTime",
            EvalType::Duration => "Duration",
            EvalType::Json => "Json",
        }
    }
}

} // verus!
