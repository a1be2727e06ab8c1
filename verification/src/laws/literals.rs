//! What holds of definitions that are no function calls: every literal becomes the constant that
//! its bytes denote, and every column reference the reference that they denote.
use crate::builder::{emits, leaf_outcome, Mapping};
use crate::data_type::{DataTypes, ScalarValue};
use crate::error::Error;
use crate::expr::{Expr, ExprType};
use crate::field_type::{EvalType, FieldTypeTp};
use crate::node::RpnExpressionNode;
use crate::number::{
    be_bytes, law_f64_round_trip, law_i64_round_trip, law_u64_round_trip, order_encode_f64,
};
use vstd::prelude::*;

verus! {

/// Whether values of the column type `tp` have the evaluation type `eval_type`.
pub open spec fn has_eval_type<D: DataTypes>(tp: FieldTypeTp, eval_type: EvalType) -> bool {
    forall|r: Result<EvalType, D::Error>| #[trigger]
        call_ensures(D::eval_type, (tp,), r) ==> r == Ok::<EvalType, D::Error>(eval_type)
}

/// Whether `value` is NULL.
pub open spec fn is_null<D: DataTypes>(value: ScalarValue<D>) -> bool {
    match value {
        ScalarValue::Int(v) => v is None,
        ScalarValue::Real(v) => v is None,
        ScalarValue::Decimal(v) => v is None,
        ScalarValue::Bytes(v) => v is None,
        ScalarValue::DateTime(v) => v is None,
        ScalarValue::Duration(v) => v is None,
        ScalarValue::Json(v) => v is None,
    }
}

/// What a definition that is no function call comes out as, once its evaluation type is known.
proof fn lemma_leaf<D: DataTypes>(
    def: Expr,
    time_zone: D::Tz,
    mapping: Mapping<D>,
    out: Seq<RpnExpressionNode<D>>,
    res: Result<(), Error<D::Error>>,
) -> (r: (Result<EvalType, D::Error>, Result<RpnExpressionNode<D>, Error<D::Error>>))
    requires
        !(def.tp is ScalarFunc),
        emits(def, time_zone, mapping, out, res),
    ensures
        call_ensures(D::eval_type, (def.field_type.tp,), r.0),
        match r.0 {
            Err(e) => out.len() == 0 && res == Err::<(), Error<D::Error>>(
                Error::UnsupportedFieldType(e),
            ),
            Ok(eval_type) => leaf_outcome::<D>(def, eval_type, time_zone, r.1) && match r.1 {
                Ok(node) => res is Ok && out == seq![node],
                Err(e) => out.len() == 0 && res == Err::<(), Error<D::Error>>(e),
            },
        },
{
    let leaf: Result<RpnExpressionNode<D>, Error<D::Error>> = match res {
        Ok(u) => Ok(out[0]),
        Err(e) => Err(e),
    };
    let eval_type = choose|eval_type: Result<EvalType, D::Error>| #[trigger]
        call_ensures(D::eval_type, (def.field_type.tp,), eval_type) && match eval_type {
            Err(e) => out.len() == 0 && res == Err::<(), Error<D::Error>>(
                Error::UnsupportedFieldType(e),
            ),
            Ok(eval_type) => leaf_outcome::<D>(def, eval_type, time_zone, leaf) && out.len() == (
            if res is Ok {
                1nat
            } else {
                0nat
            }),
        };
    if res is Ok {
        assert(out =~= seq![out[0]]);
    }
    (eval_type, leaf)
}

/// A NULL is the NULL of its evaluation type.
pub proof fn law_null_literal<D: DataTypes>(
    def: Expr,
    time_zone: D::Tz,
    mapping: Mapping<D>,
    out: Seq<RpnExpressionNode<D>>,
    res: Result<(), Error<D::Error>>,
    eval_type: EvalType,
)
    requires
        def.tp is Null,
        has_eval_type::<D>(def.field_type.tp, eval_type),
        emits(def, time_zone, mapping, out, res),
    ensures
        res is Ok,
        out == seq![
            RpnExpressionNode::<D>::Constant {
                value: match eval_type {
                    EvalType::Int => ScalarValue::Int(None),
                    EvalType::Real => ScalarValue::Real(None),
                    EvalType::Decimal => ScalarValue::Decimal(None),
                    EvalType::Bytes => ScalarValue::Bytes(None),
                    EvalType::DateTime => ScalarValue::DateTime(None),
                    EvalType::Duration => ScalarValue::Duration(None),
                    EvalType::Json => ScalarValue::Json(None),
                },
                field_type: def.field_type,
            },
        ],
{
    lemma_leaf(def, time_zone, mapping, out, res);
}

/// A signed integer literal becomes the integer that it encodes.
pub proof fn law_signed_literal<D: DataTypes>(
    def: Expr,
    time_zone: D::Tz,
    mapping: Mapping<D>,
    out: Seq<RpnExpressionNode<D>>,
    res: Result<(), Error<D::Error>>,
    v: i64,
    rest: Seq<u8>,
)
    requires
        def.tp is Int64,
        has_eval_type::<D>(def.field_type.tp, EvalType::Int),
        def.val@ == be_bytes((v + 0x8000_0000_0000_0000) as u64) + rest,
        emits(def, time_zone, mapping, out, res),
    ensures
        res is Ok,
        out == seq![
            RpnExpressionNode::<D>::Constant {
                value: ScalarValue::Int(Some(v)),
                field_type: def.field_type,
            },
        ],
{
    law_i64_round_trip(v, rest);
    lemma_leaf(def, time_zone, mapping, out, res);
}

/// An unsigned integer literal becomes the integer that it encodes; from 2^63 on, that integer less
/// 2^64.
pub proof fn law_unsigned_literal<D: DataTypes>(
    def: Expr,
    time_zone: D::Tz,
    mapping: Mapping<D>,
    out: Seq<RpnExpressionNode<D>>,
    res: Result<(), Error<D::Error>>,
    v: u64,
    rest: Seq<u8>,
)
    requires
        def.tp is Uint64,
        has_eval_type::<D>(def.field_type.tp, EvalType::Int),
        def.val@ == be_bytes(v) + rest,
        emits(def, time_zone, mapping, out, res),
    ensures
        res is Ok,
        out.len() == 1,
        out[0] matches RpnExpressionNode::Constant {
            value: ScalarValue::Int(Some(w)),
            field_type,
        } && field_type == def.field_type && w == (if v < 0x8000_0000_0000_0000 {
            v as int
        } else {
            v - 0x1_0000_0000_0000_0000
        }),
{
    law_u64_round_trip(v, rest);
    assert(v < 0x8000_0000_0000_0000u64 ==> v as i64 == v) by (bit_vector);
    assert(v >= 0x8000_0000_0000_0000u64 ==> v as i64 == v - 0x1_0000_0000_0000_0000)
        by (bit_vector);
    lemma_leaf(def, time_zone, mapping, out, res);
}

/// A string literal becomes its bytes, however many there are, and is never NULL.
pub proof fn law_bytes_literal<D: DataTypes>(
    def: Expr,
    time_zone: D::Tz,
    mapping: Mapping<D>,
    out: Seq<RpnExpressionNode<D>>,
    res: Result<(), Error<D::Error>>,
)
    requires
        def.tp is String || def.tp is Bytes,
        has_eval_type::<D>(def.field_type.tp, EvalType::Bytes),
        emits(def, time_zone, mapping, out, res),
    ensures
        res is Ok,
        out.len() == 1,
        out[0] matches RpnExpressionNode::Constant {
            value: ScalarValue::Bytes(Some(bytes)),
            field_type,
        } && bytes@ == def.val@ && field_type == def.field_type,
{
    lemma_leaf(def, time_zone, mapping, out, res);
}

/// A double literal becomes the double that it encodes.
pub proof fn law_real_literal<D: DataTypes>(
    def: Expr,
    time_zone: D::Tz,
    mapping: Mapping<D>,
    out: Seq<RpnExpressionNode<D>>,
    res: Result<(), Error<D::Error>>,
    bits: u64,
    rest: Seq<u8>,
)
    requires
        def.tp is Float32 || def.tp is Float64,
        has_eval_type::<D>(def.field_type.tp, EvalType::Real),
        def.val@ == be_bytes(order_encode_f64(bits)) + rest,
        emits(def, time_zone, mapping, out, res),
    ensures
        res is Ok,
        out == seq![
            RpnExpressionNode::<D>::Constant {
                value: ScalarValue::Real(Some(bits)),
                field_type: def.field_type,
            },
        ],
{
    law_f64_round_trip(bits, rest);
    lemma_leaf(def, time_zone, mapping, out, res);
}

/// A time literal is unpacked from the number that it encodes, as a time of the kind of its column
/// type, with the fractional digits of its field type taken modulo 256, in the given time zone.
pub proof fn law_time_literal<D: DataTypes>(
    def: Expr,
    time_zone: D::Tz,
    mapping: Mapping<D>,
    out: Seq<RpnExpressionNode<D>>,
    res: Result<(), Error<D::Error>>,
    packed: u64,
    rest: Seq<u8>,
)
    requires
        def.tp is MysqlTime,
        has_eval_type::<D>(def.field_type.tp, EvalType::DateTime),
        def.val@ == be_bytes(packed) + rest,
        emits(def, time_zone, mapping, out, res),
    ensures
        exists|time_type: Result<D::TimeType, D::Error>| #[trigger]
            call_ensures(D::time_type, (def.field_type.tp,), time_type) && match time_type {
                Err(e) => out.len() == 0 && res == Err::<(), Error<D::Error>>(Error::External(e)),
                Ok(time_type) => exists|fsp: i8, time: Result<D::Time, D::Error>| #[trigger]
                    call_ensures(
                        D::time_from_packed_u64,
                        (packed, time_type, fsp, time_zone),
                        time,
                    ) && (def.field_type.decimal - fsp) % 256 == 0 && match time {
                        Ok(v) => res is Ok && out == seq![
                            RpnExpressionNode::<D>::Constant {
                                value: ScalarValue::DateTime(Some(v)),
                                field_type: def.field_type,
                            },
                        ],
                        Err(e) => out.len() == 0 && res == Err::<(), Error<D::Error>>(
                            Error::Decode(EvalType::DateTime),
                        ),
                    },
            },
{
    law_u64_round_trip(packed, rest);
    let decimal = def.field_type.decimal;
    assert((decimal - (decimal as i8)) % 256 == 0) by (bit_vector);
    lemma_leaf(def, time_zone, mapping, out, res);
}

/// A duration literal becomes the duration of the nanoseconds that it encodes, with six fractional
/// digits.
pub proof fn law_duration_literal<D: DataTypes>(
    def: Expr,
    time_zone: D::Tz,
    mapping: Mapping<D>,
    out: Seq<RpnExpressionNode<D>>,
    res: Result<(), Error<D::Error>>,
    nanos: i64,
    rest: Seq<u8>,
)
    requires
        def.tp is MysqlDuration,
        has_eval_type::<D>(def.field_type.tp, EvalType::Duration),
        def.val@ == be_bytes((nanos + 0x8000_0000_0000_0000) as u64) + rest,
        emits(def, time_zone, mapping, out, res),
    ensures
        exists|duration: Result<D::Duration, D::Error>| #[trigger]
            call_ensures(D::duration_from_nanos, (nanos, 6i8), duration) && match duration {
                Ok(v) => res is Ok && out == seq![
                    RpnExpressionNode::<D>::Constant {
                        value: ScalarValue::Duration(Some(v)),
                        field_type: def.field_type,
                    },
                ],
                Err(e) => out.len() == 0 && res == Err::<(), Error<D::Error>>(
                    Error::Decode(EvalType::Duration),
                ),
            },
{
    law_i64_round_trip(nanos, rest);
    lemma_leaf(def, time_zone, mapping, out, res);
}

/// A decimal literal becomes what its bytes decode to.
pub proof fn law_decimal_literal<D: DataTypes>(
    def: Expr,
    time_zone: D::Tz,
    mapping: Mapping<D>,
    out: Seq<RpnExpressionNode<D>>,
    res: Result<(), Error<D::Error>>,
)
    requires
        def.tp is MysqlDecimal,
        has_eval_type::<D>(def.field_type.tp, EvalType::Decimal),
        emits(def, time_zone, mapping, out, res),
    ensures
        exists|decoded: Result<D::Decimal, D::Error>| #[trigger]
            call_ensures(D::decode_decimal, (&def.val,), decoded) && match decoded {
                Ok(v) => res is Ok && out == seq![
                    RpnExpressionNode::<D>::Constant {
                        value: ScalarValue::Decimal(Some(v)),
                        field_type: def.field_type,
                    },
                ],
                Err(e) => out.len() == 0 && res == Err::<(), Error<D::Error>>(
                    Error::Decode(EvalType::Decimal),
                ),
            },
{
    lemma_leaf(def, time_zone, mapping, out, res);
}

/// A JSON literal becomes what its bytes decode to.
pub proof fn law_json_literal<D: DataTypes>(
    def: Expr,
    time_zone: D::Tz,
    mapping: Mapping<D>,
    out: Seq<RpnExpressionNode<D>>,
    res: Result<(), Error<D::Error>>,
)
    requires
        def.tp is MysqlJson,
        has_eval_type::<D>(def.field_type.tp, EvalType::Json),
        emits(def, time_zone, mapping, out, res),
    ensures
        exists|decoded: Result<D::Json, D::Error>| #[trigger]
            call_ensures(D::decode_json, (&def.val,), decoded) && match decoded {
                Ok(v) => res is Ok && out == seq![
                    RpnExpressionNode::<D>::Constant {
                        value: ScalarValue::Json(Some(v)),
                        field_type: def.field_type,
                    },
                ],
                Err(e) => out.len() == 0 && res == Err::<(), Error<D::Error>>(
                    Error::Decode(EvalType::Json),
                ),
            },
{
    lemma_leaf(def, time_zone, mapping, out, res);
}

/// A column reference, of whatever evaluation type, refers to the offset that it encodes, taken
/// modulo the number of offsets.
pub proof fn law_column_reference_definition<D: DataTypes>(
    def: Expr,
    time_zone: D::Tz,
    mapping: Mapping<D>,
    out: Seq<RpnExpressionNode<D>>,
    res: Result<(), Error<D::Error>>,
    eval_type: EvalType,
    v: i64,
    rest: Seq<u8>,
)
    requires
        def.tp is ColumnRef,
        has_eval_type::<D>(def.field_type.tp, eval_type),
        def.val@ == be_bytes((v + 0x8000_0000_0000_0000) as u64) + rest,
        emits(def, time_zone, mapping, out, res),
    ensures
        res is Ok,
        out.len() == 1,
        out[0] matches RpnExpressionNode::TableColumnRef { offset, field_type } && field_type
            == def.field_type && (v - offset) % (usize::MAX + 1) == 0,
{
    law_i64_round_trip(v, rest);
    assert(usize::BITS == 64 ==> (v - (v as usize)) % 0x1_0000_0000_0000_0000 == 0)
        by (bit_vector);
    assert(usize::BITS == 32 ==> (v - (v as usize)) % 0x1_0000_0000 == 0) by (bit_vector);
    lemma_leaf(def, time_zone, mapping, out, res);
}

/// A definition whose value holds fewer bytes than a number takes is refused, where a number is
/// wanted.
pub proof fn law_short_value_is_refused<D: DataTypes>(
    def: Expr,
    time_zone: D::Tz,
    mapping: Mapping<D>,
    out: Seq<RpnExpressionNode<D>>,
    res: Result<(), Error<D::Error>>,
    eval_type: EvalType,
)
    requires
        def.val@.len() < 8,
        has_eval_type::<D>(def.field_type.tp, eval_type),
        match def.tp {
            ExprType::Int64 | ExprType::Uint64 => eval_type is Int,
            ExprType::Float32 | ExprType::Float64 => eval_type is Real,
            ExprType::MysqlTime => eval_type is DateTime,
            ExprType::MysqlDuration => eval_type is Duration,
            ExprType::ColumnRef => true,
            _ => false,
        },
        emits(def, time_zone, mapping, out, res),
    ensures
        out.len() == 0,
        res == Err::<(), Error<D::Error>>(
            if def.tp is ColumnRef {
                Error::DecodeColumnOffset
            } else {
                Error::Decode(eval_type)
            },
        ),
{
    lemma_leaf(def, time_zone, mapping, out, res);
}

/// A literal whose field type has another evaluation type than literals of its kind is refused.
pub proof fn law_literal_needs_its_type<D: DataTypes>(
    def: Expr,
    time_zone: D::Tz,
    mapping: Mapping<D>,
    out: Seq<RpnExpressionNode<D>>,
    res: Result<(), Error<D::Error>>,
    eval_type: EvalType,
)
    requires
        has_eval_type::<D>(def.field_type.tp, eval_type),
        match def.tp {
            ExprType::Int64 | ExprType::Uint64 => !(eval_type is Int),
            ExprType::Float32 | ExprType::Float64 => !(eval_type is Real),
            ExprType::String | ExprType::Bytes => !(eval_type is Bytes),
            ExprType::MysqlTime => !(eval_type is DateTime),
            ExprType::MysqlDuration => !(eval_type is Duration),
            ExprType::MysqlDecimal => !(eval_type is Decimal),
            ExprType::MysqlJson => !(eval_type is Json),
            _ => false,
        },
        emits(def, time_zone, mapping, out, res),
    ensures
        out.len() == 0,
        res == Err::<(), Error<D::Error>>(
            Error::UnexpectedEvalType { eval_type, expr_type: def.tp },
        ),
{
    lemma_leaf(def, time_zone, mapping, out, res);
}

/// A definition of any other kind is refused.
pub proof fn law_other_kind_is_refused<D: DataTypes>(
    def: Expr,
    time_zone: D::Tz,
    mapping: Mapping<D>,
    out: Seq<RpnExpressionNode<D>>,
    res: Result<(), Error<D::Error>>,
    eval_type: EvalType,
)
    requires
        def.tp is Other,
        has_eval_type::<D>(def.field_type.tp, eval_type),
        emits(def, time_zone, mapping, out, res),
    ensures
        out.len() == 0,
        res == Err::<(), Error<D::Error>>(Error::UnexpectedExprType(def.tp)),
{
    lemma_leaf(def, time_zone, mapping, out, res);
}

/// A definition of whatever kind, with a field type that has no evaluation type, is refused for the
/// reason that was given.
pub proof fn law_unsupported_type_is_refused<D: DataTypes>(
    def: Expr,
    time_zone: D::Tz,
    mapping: Mapping<D>,
    out: Seq<RpnExpressionNode<D>>,
    res: Result<(), Error<D::Error>>,
)
    requires
        forall|r: Result<EvalType, D::Error>| #[trigger]
            call_ensures(D::eval_type, (def.field_type.tp,), r) ==> r is Err,
        emits(def, time_zone, mapping, out, res),
    ensures
        out.len() == 0,
        exists|e: D::Error| #[trigger]
            call_ensures(D::eval_type, (def.field_type.tp,), Err::<EvalType, D::Error>(e)) && res
                == Err::<(), Error<D::Error>>(Error::UnsupportedFieldType(e)),
{
    let eval_type = choose|r: Result<EvalType, D::Error>| #[trigger]
        call_ensures(D::eval_type, (def.field_type.tp,), r) && out.len() == 0 && res == Err::<
            (),
            Error<D::Error>,
        >(Error::UnsupportedFieldType(r->Err_0));
    assert(eval_type == Err::<EvalType, D::Error>(eval_type->Err_0));
}

/// Of the definitions that are no function calls, only a NULL gives a NULL.
pub proof fn law_only_null_gives_null<D: DataTypes>(
    def: Expr,
    time_zone: D::Tz,
    mapping: Mapping<D>,
    out: Seq<RpnExpressionNode<D>>,
    res: Result<(), Error<D::Error>>,
)
    requires
        !(def.tp is ScalarFunc),
        res is Ok,
        emits(def, time_zone, mapping, out, res),
    ensures
        out.len() == 1,
        out[0] matches RpnExpressionNode::Constant { value, field_type } ==> (is_null(value)
            <==> def.tp is Null),
{
    lemma_leaf(def, time_zone, mapping, out, res);
}

} // verus!
