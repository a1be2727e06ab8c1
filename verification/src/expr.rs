//! Expression definition trees.
use crate::field_type::FieldType;
use vstd::prelude::*;

verus! {

/// The kind of an expression definition.
#[derive(Debug, PartialEq, Eq)]
pub enum ExprType {
    Null,
    Int64,
    Uint64,
    Float32,
    Float64,
    String,
    Bytes,
    MysqlTime,
    MysqlDuration,
    MysqlDecimal,
    MysqlJson,
    ScalarFunc,
    ColumnRef,
    /// Any other kind, by its name. Such a definition has no counterpart in an expression list.
    Other(String),
}

impl ExprType {
    /// The name of the kind.
    pub open spec fn spec_name(self) -> Seq<char> {
        match self {
            ExprType::Null => "Null"@,
            ExprType::Int64 => "Int64"@,
            ExprType::Uint64 => "Uint64"@,
            ExprType::Float32 => "Float32"@,
            ExprType::Float64 => "Float64"@,
            ExprType::String => "String"@,
            ExprType::Bytes => "Bytes"@,
            ExprType::MysqlTime => "MysqlTime"@,
            ExprType::MysqlDuration => "MysqlDuration"@,
            ExprType::MysqlDecimal => "MysqlDecimal"@,
            ExprType::MysqlJson => "MysqlJson"@,
            ExprType::ScalarFunc => "ScalarFunc"@,
            ExprType::ColumnRef => "ColumnRef"@,
            ExprType::Other(name) => name@,
        }
    }

    /// Gets the name of the kind.
    pub fn name(&self) -> (name: &str)
        ensures
            name@ == self.spec_name(),
    {
        match self {
            ExprType::Null => "Null",
            ExprType::Int64 => "Int64",
            ExprType::Uint64 => "Uint64",
            ExprType::Float32 => "Float32",
            ExprType::Float64 => "Float64",
            ExprType::String => "String",
            ExprType::Bytes => "Bytes",
            ExprType::MysqlTime => "MysqlTime",
            ExprType::MysqlDuration => "MysqlDuration",
            ExprType::MysqlDecimal => "MysqlDecimal",
            ExprType::MysqlJson => "MysqlJson",
            ExprType::ScalarFunc => "ScalarFunc",
            ExprType::ColumnRef => "ColumnRef",
            ExprType::Other(name) => name.as_str(),
        }
    }
}

/// The signature code of a scalar function.
#[derive(Clone, Copy, Debug, PartialEq, Eq, Structural)]
pub struct ScalarFuncSig(pub i32);

/// An expression definition: a literal, a column reference or a function call with its
/// arguments.
#[derive(Debug)]
pub struct Expr {
    pub tp: ExprType,
    /// The encoded value of a literal, or the encoded offset of a column reference.
    pub val: Vec<u8>,
    /// The arguments of a function call.
    pub children: Vec<Expr>,
    /// The function of a function call.
    pub sig: ScalarFuncSig,
    pub field_type: FieldType,
}

} // verus!
