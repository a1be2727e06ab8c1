//! The data types of the surrounding system, and values of them.
use crate::error::Error;
use crate::field_type::{EvalType, FieldTypeTp};
use vstd::prelude::*;

verus! {

/// The largest number of fractional digits of a time or a duration.
pub const MAX_FSP: i8 = 6;

/// What the surrounding system supplies: the data types that expressions only carry, the state
/// that evaluation threads through every function call, and the conversions into those types.
///
/// Nothing is taken for granted of what the conversions return.
pub trait DataTypes: Sized + std::fmt::Debug {
    /// The state of an evaluation, such as its settings and warnings.
    type Context;

    type Error;

    type Tz: Copy;

    type TimeType;

    type Time: std::fmt::Debug;

    type Duration: std::fmt::Debug;

    type Decimal: std::fmt::Debug;

    type Json: std::fmt::Debug;

    /// The evaluation type of values of the column type `tp`.
    fn eval_type(tp: FieldTypeTp) -> Result<EvalType, Self::Error>;

    /// The kind of time that a column of type `tp` holds.
    fn time_type(tp: FieldTypeTp) -> Result<Self::TimeType, Self::Error>;

    /// Unpacks a time from its packed form.
    fn time_from_packed_u64(
        packed: u64,
        time_type: Self::TimeType,
        fsp: i8,
        time_zone: Self::Tz,
    ) -> Result<Self::Time, Self::Error>;

    /// The duration of `nanos` nanoseconds with `fsp` fractional digits.
    fn duration_from_nanos(nanos: i64, fsp: i8) -> Result<Self::Duration, Self::Error>;

    /// Decodes a decimal.
    fn decode_decimal(data: &Vec<u8>) -> Result<Self::Decimal, Self::Error>;

    /// Decodes a JSON value.
    fn decode_json(data: &Vec<u8>) -> Result<Self::Json, Self::Error>;
}

/// A single value, or NULL. A real number is held as the bit pattern of a double.
#[derive(Debug)]
pub enum ScalarValue<D: DataTypes> {
    Int(Option<i64>),
    Real(Option<u64>),
    Decimal(Option<D::Decimal>),
    Bytes(Option<Vec<u8>>),
    DateTime(Option<D::Time>),
    Duration(Option<D::Duration>),
    Json(Option<D::Json>),
}

/// A borrowed single value, or NULL.
pub enum ScalarValueRef<'a, D: DataTypes> {
    Int(&'a Option<i64>),
    Real(&'a Option<u64>),
    Decimal(&'a Option<D::Decimal>),
    Bytes(&'a Option<Vec<u8>>),
    DateTime(&'a Option<D::Time>),
    Duration(&'a Option<D::Duration>),
    Json(&'a Option<D::Json>),
}

/// A column of values of one type. Real numbers are held as bit patterns of doubles.
#[derive(Debug)]
pub enum VectorValue<D: DataTypes> {
    Int(Vec<Option<i64>>),
    Real(Vec<Option<u64>>),
    Decimal(Vec<Option<D::Decimal>>),
    Bytes(Vec<Option<Vec<u8>>>),
    DateTime(Vec<Option<D::Time>>),
    Duration(Vec<Option<D::Duration>>),
    Json(Vec<Option<D::Json>>),
}

/// A borrowed column, or a borrowed single value that stands for every row of a column.
pub enum VectorLikeValueRef<'a, D: DataTypes> {
    Vector(&'a VectorValue<D>),
    Scalar(&'a ScalarValue<D>),
}

/// The NULL of an evaluation type.
pub open spec fn null_of<D: DataTypes>(eval_type: EvalType) -> ScalarValue<D> {
    match eval_type {
        EvalType::Int => ScalarValue::Int(None),
        EvalType::Real => ScalarValue::Real(None),
        EvalType::Decimal => ScalarValue::Decimal(None),
        EvalType::Bytes => ScalarValue::Bytes(None),
        EvalType::DateTime => ScalarValue::DateTime(None),
        EvalType::Duration => ScalarValue::Duration(None),
        EvalType::Json => ScalarValue::Json(None),
    }
}

impl<D: DataTypes> ScalarValue<D> {
    /// The value as a borrowed value.
    pub open spec fn spec_value_ref<'a>(self) -> ScalarValueRef<'a, D> {
        match self {
            ScalarValue::Int(v) => ScalarValueRef::Int(&v),
            ScalarValue::Real(v) => ScalarValueRef::Real(&v),
            ScalarValue::Decimal(v) => ScalarValueRef::Decimal(&v),
            ScalarValue::Bytes(v) => ScalarValueRef::Bytes(&v),
            ScalarValue::DateTime(v) => ScalarValueRef::DateTime(&v),
            ScalarValue::Duration(v) => ScalarValueRef::Duration(&v),
            ScalarValue::Json(v) => ScalarValueRef::Json(&v),
        }
    }

    /// Borrows the value.
    pub fn as_value_ref(&self) -> (r: ScalarValueRef<'_, D>)
        ensures
            r == self.spec_value_ref(),
    {
        match self {
            ScalarValue::Int(v) => ScalarValueRef::Int(v),
            ScalarValue::Real(v) => ScalarValueRef::Real(v),
            ScalarValue::Decimal(v) => ScalarValueRef::Decimal(v),
            ScalarValue::Bytes(v) => ScalarValueRef::Bytes(v),
            ScalarValue::DateTime(v) => ScalarValueRef::DateTime(v),
            ScalarValue::Duration(v) => ScalarValueRef::Duration(v),
            ScalarValue::Json(v) => ScalarValueRef::Json(v),
        }
    }

    /// Borrows the value as a vector like value.
    pub fn as_vector_like(&self) -> (r: VectorLikeValueRef<'_, D>)
        ensures
            r == VectorLikeValueRef::Scalar(self),
    {
        VectorLikeValueRef::Scalar(self)
    }
}

impl<D: DataTypes> VectorValue<D> {
    /// The number of rows.
    pub open spec fn spec_len(self) -> nat {
        match self {
            VectorValue::Int(v) => v@.len(),
            VectorValue::Real(v) => v@.len(),
            VectorValue::Decimal(v) => v@.len(),
            VectorValue::Bytes(v) => v@.len(),
            VectorValue::DateTime(v) => v@.len(),
            VectorValue::Duration(v) => v@.len(),
            VectorValue::Json(v) => v@.len(),
        }
    }

    /// The value of a row.
    pub open spec fn spec_value_at<'a>(self, row: int) -> ScalarValueRef<'a, D> {
        match self {
            VectorValue::Int(v) => ScalarValueRef::Int(&v@[row]),
            VectorValue::Real(v) => ScalarValueRef::Real(&v@[row]),
            VectorValue::Decimal(v) => ScalarValueRef::Decimal(&v@[row]),
            VectorValue::Bytes(v) => ScalarValueRef::Bytes(&v@[row]),
            VectorValue::DateTime(v) => ScalarValueRef::DateTime(&v@[row]),
            VectorValue::Duration(v) => ScalarValueRef::Duration(&v@[row]),
            VectorValue::Json(v) => ScalarValueRef::Json(&v@[row]),
        }
    }

    /// Gets the number of rows.
    pub fn len(&self) -> (n: usize)
        ensures
            n == self.spec_len(),
    {
        match self {
            VectorValue::Int(v) => v.len(),
            VectorValue::Real(v) => v.len(),
            VectorValue::Decimal(v) => v.len(),
            VectorValue::Bytes(v) => v.len(),
            VectorValue::DateTime(v) => v.len(),
            VectorValue::Duration(v) => v.len(),
            VectorValue::Json(v) => v.len(),
        }
    }

    /// Borrows the value of a row.
    pub fn value_at(&self, row: usize) -> (r: ScalarValueRef<'_, D>)
        requires
            row < self.spec_len(),
        ensures
            r == self.spec_value_at(row as int),
    {
        match self {
            VectorValue::Int(v) => ScalarValueRef::Int(&v[row]),
            VectorValue::Real(v) => ScalarValueRef::Real(&v[row]),
            VectorValue::Decimal(v) => ScalarValueRef::Decimal(&v[row]),
            VectorValue::Bytes(v) => ScalarValueRef::Bytes(&v[row]),
            VectorValue::DateTime(v) => ScalarValueRef::DateTime(&v[row]),
            VectorValue::Duration(v) => ScalarValueRef::Duration(&v[row]),
            VectorValue::Json(v) => ScalarValueRef::Json(&v[row]),
        }
    }

    /// Borrows the column as a vector like value.
    pub fn as_vector_like(&self) -> (r: VectorLikeValueRef<'_, D>)
        ensures
            r == VectorLikeValueRef::Vector(self),
    {
        VectorLikeValueRef::Vector(self)
    }
}

/// Data types whose values convert to booleans by the rules of MySQL.
pub trait AsMySQLBool: DataTypes {
    /// Whether converting `value` may end with `result` and leave `after` in the place of the
    /// context `before`.
    ///
    /// Data types may leave open which of several outcomes comes about. Where nothing is stated,
    /// all of them are open.
    open spec fn bool_outcome<'a>(
        value: ScalarValueRef<'a, Self>,
        before: Self::Context,
        after: Self::Context,
        result: Result<bool, Error<Self::Error>>,
    ) -> bool {
        true
    }

    /// Converts a value, or NULL, to a boolean.
    fn as_mysql_bool<'a>(value: ScalarValueRef<'a, Self>, context: &mut Self::Context) -> (result:
        Result<bool, Error<Self::Error>>)
        ensures
            Self::bool_outcome(value, *old(context), *final(context), result),
    ;
}

/// Whether converting the first `n` rows of `column` to booleans, first row first, may turn the
/// buffer `initial` into `outputs` and end with `res`. Each row has its own place in the buffer.
/// An error ends the conversion; the booleans of the rows before it stay.
pub open spec fn converts<D: AsMySQLBool>(
    column: VectorValue<D>,
    n: nat,
    before: D::Context,
    after: D::Context,
    initial: Seq<bool>,
    outputs: Seq<bool>,
    res: Result<(), Error<D::Error>>,
) -> bool
    decreases n,
{
    if n == 0 {
        after == before && outputs == initial && res is Ok
    } else {
        let row = n - 1;
        ||| res is Err && converts(column, row as nat, before, after, initial, outputs, res)
        ||| exists|mid: D::Context, flag: Result<bool, Error<D::Error>>| #[trigger]
            D::bool_outcome(column.spec_value_at(row), mid, after, flag) && match flag {
                Ok(b) => outputs.len() == initial.len() && outputs[row] == b && res is Ok
                    && converts(
                    column,
                    row as nat,
                    before,
                    mid,
                    initial,
                    outputs.update(row, initial[row]),
                    Ok(()),
                ),
                Err(e) => res == Err::<(), Error<D::Error>>(e) && converts(
                    column,
                    row as nat,
                    before,
                    mid,
                    initial,
                    outputs,
                    Ok(()),
                ),
            }
    }
}

/// A conversion keeps the length of the buffer, and all of it from row `n` on.
pub proof fn lemma_converts_frame<D: AsMySQLBool>(
    column: VectorValue<D>,
    n: nat,
    before: D::Context,
    after: D::Context,
    initial: Seq<bool>,
    outputs: Seq<bool>,
    res: Result<(), Error<D::Error>>,
)
    requires
        n <= initial.len(),
        converts(column, n, before, after, initial, outputs, res),
    ensures
        outputs.len() == initial.len(),
        forall|i: int| n <= i < initial.len() ==> outputs[i] == initial[i],
    decreases n,
{
    if n > 0 {
        let row = n - 1;
        if res is Err && converts(column, row as nat, before, after, initial, outputs, res) {
            lemma_converts_frame(column, row as nat, before, after, initial, outputs, res);
        } else {
            let (mid, flag) = choose|mid: D::Context, flag: Result<bool, Error<D::Error>>|
                #[trigger] D::bool_outcome(column.spec_value_at(row), mid, after, flag)
                    && match flag {
                    Ok(b) => outputs.len() == initial.len() && outputs[row] == b && res is Ok
                        && converts(
                        column,
                        row as nat,
                        before,
                        mid,
                        initial,
                        outputs.update(row, initial[row]),
                        Ok(()),
                    ),
                    Err(e) => res == Err::<(), Error<D::Error>>(e) && converts(
                        column,
                        row as nat,
                        before,
                        mid,
                        initial,
                        outputs,
                        Ok(()),
                    ),
                };
            let prior = match flag {
                Ok(b) => outputs.update(row, initial[row]),
                Err(e) => outputs,
            };
            lemma_converts_frame(column, row as nat, before, mid, initial, prior, Ok(()));
            assert forall|i: int| n <= i < initial.len() implies outputs[i] == initial[i] by {
                assert(prior[i] == initial[i]);
            }
        }
    }
}

/// An error in one of the first `k` rows ends the conversion of all the first `n`.
proof fn lemma_error_ends_conversion<D: AsMySQLBool>(
    column: VectorValue<D>,
    k: nat,
    n: nat,
    before: D::Context,
    after: D::Context,
    initial: Seq<bool>,
    outputs: Seq<bool>,
    res: Result<(), Error<D::Error>>,
)
    requires
        k <= n,
        res is Err,
        converts(column, k, before, after, initial, outputs, res),
    ensures
        converts(column, n, before, after, initial, outputs, res),
    decreases n - k,
{
    if k < n {
        lemma_error_ends_conversion(column, k + 1, n, before, after, initial, outputs, res);
    }
}

impl<D: AsMySQLBool> ScalarValue<D> {
    /// Converts the value to a boolean.
    pub fn as_mysql_bool(&self, context: &mut D::Context) -> (result: Result<
        bool,
        Error<D::Error>,
    >)
        ensures
            D::bool_outcome(self.spec_value_ref(), *old(context), *final(context), result),
    {
        D::as_mysql_bool(self.as_value_ref(), context)
    }
}

impl<D: AsMySQLBool> VectorValue<D> {
    /// Converts every row to a boolean.
    pub fn eval_as_mysql_bools(&self, context: &mut D::Context, outputs: &mut [bool]) -> (res:
        Result<(), Error<D::Error>>)
        requires
            self.spec_len() <= old(outputs)@.len(),
        ensures
            converts(
                *self,
                self.spec_len(),
                *old(context),
                *final(context),
                old(outputs)@,
                final(outputs)@,
                res,
            ),
            final(outputs)@.len() == old(outputs)@.len(),
            forall|i: int|
                self.spec_len() <= i < old(outputs)@.len() ==> final(outputs)@[i] == old(
                    outputs,
                )@[i],
    {
        let ghost initial = outputs@;
        let len = self.len();
        for row in 0..len
            invariant
                len == self.spec_len(),
                initial == old(outputs)@,
                self.spec_len() <= initial.len(),
                converts(
                    *self,
                    row as nat,
                    *old(context),
                    *context,
                    initial,
                    outputs@,
                    Ok(()),
                ),
        {
            proof {
                lemma_converts_frame(
                    *self,
                    row as nat,
                    *old(context),
                    *context,
                    initial,
                    outputs@,
                    Ok(()),
                );
            }
            let ghost mid = *context;
            let ghost prior = outputs@;
            let flag = D::as_mysql_bool(self.value_at(row), context);
            assert(D::bool_outcome(self.spec_value_at((row + 1) - 1), mid, *context, flag));
            match flag {
                Ok(b) => {
                    outputs[row] = b;
                    assert(outputs@.update(row as int, initial[row as int]) =~= prior);
                },
                Err(e) => {
                    proof {
                        assert(converts(
                            *self,
                            (row + 1) as nat,
                            *old(context),
                            *context,
                            initial,
                            outputs@,
                            Err(e),
                        ));
                        lemma_error_ends_conversion(
                            *self,
                            (row + 1) as nat,
                            self.spec_len(),
                            *old(context),
                            *context,
                            initial,
                            outputs@,
                            Err(e),
                        );
                    }
                    return Err(e);
                },
            }
        }
        proof {
            lemma_converts_frame(
                *self,
                self.spec_len(),
                *old(context),
                *context,
                initial,
                outputs@,
                Ok(()),
            );
        }
        Ok(())
    }
}

} // verus!
