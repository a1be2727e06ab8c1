//! Turning an expression definition tree into an expression list.
use crate::data_type::{null_of, DataTypes, ScalarValue, MAX_FSP};
use crate::error::Error;
use crate::expr::{Expr, ExprType, ScalarFuncSig};
use crate::field_type::{EvalType, FieldType};
use crate::function::{BoxedFunction, FunctionTable, RpnFunction};
use crate::node::{
    depth, lemma_depth_concat, lemma_supplied_concat, lemma_supplied_push, supplied, well_formed,
    RpnExpressionNode, RpnExpressionNodeVec,
};
use crate::number;
use vstd::prelude::*;

verus! {

/// The node of a constant with the field type of `def`, or the error, that a decoding outcome
/// stands for.
pub open spec fn constant_of<D: DataTypes>(
    def: Expr,
    eval_type: EvalType,
    decoded: Option<ScalarValue<D>>,
) -> Result<RpnExpressionNode<D>, Error<D::Error>> {
    match decoded {
        Some(value) => Ok(RpnExpressionNode::Constant { value, field_type: def.field_type }),
        None => Err(Error::Decode(eval_type)),
    }
}

/// The outcome of a definition that is refused with the error `e`.
pub open spec fn refused<D: DataTypes>(e: Error<D::Error>) -> Result<
    RpnExpressionNode<D>,
    Error<D::Error>,
> {
    Err(e)
}

/// The evaluation type that a literal of this kind must have; `None` for a definition that may
/// have any, or that is no literal.
pub open spec fn literal_type(tp: ExprType) -> Option<EvalType> {
    match tp {
        ExprType::Int64 | ExprType::Uint64 => Some(EvalType::Int),
        ExprType::String | ExprType::Bytes => Some(EvalType::Bytes),
        ExprType::Float32 | ExprType::Float64 => Some(EvalType::Real),
        ExprType::MysqlTime => Some(EvalType::DateTime),
        ExprType::MysqlDuration => Some(EvalType::Duration),
        ExprType::MysqlDecimal => Some(EvalType::Decimal),
        ExprType::MysqlJson => Some(EvalType::Json),
        _ => None,
    }
}

/// Whether a definition that is no function call, with the evaluation type `eval_type`, may come
/// out as `leaf`.
pub open spec fn leaf_outcome<D: DataTypes>(
    def: Expr,
    eval_type: EvalType,
    time_zone: D::Tz,
    leaf: Result<RpnExpressionNode<D>, Error<D::Error>>,
) -> bool {
    if literal_type(def.tp) is Some && literal_type(def.tp) != Some(eval_type) {
        leaf == refused::<D>(Error::UnexpectedEvalType { eval_type, expr_type: def.tp })
    } else {
        match def.tp {
            ExprType::Null => leaf == constant_of::<D>(def, eval_type, Some(null_of(eval_type))),
            ExprType::Int64 => leaf == constant_of::<D>(
                def,
                eval_type,
                match number::spec_decode_i64(def.val@) {
                    Some(v) => Some(ScalarValue::Int(Some(v))),
                    None => None,
                },
            ),
            ExprType::Uint64 => leaf == constant_of::<D>(
                def,
                eval_type,
                match number::spec_decode_u64(def.val@) {
                    Some(v) => Some(ScalarValue::Int(Some(v as i64))),
                    None => None,
                },
            ),
            ExprType::String | ExprType::Bytes => leaf == constant_of::<D>(
                def,
                eval_type,
                Some(ScalarValue::Bytes(Some(def.val))),
            ),
            ExprType::Float32 | ExprType::Float64 => leaf == constant_of::<D>(
                def,
                eval_type,
                match number::spec_decode_f64(def.val@) {
                    Some(bits) => Some(ScalarValue::Real(Some(bits))),
                    None => None,
                },
            ),
            ExprType::MysqlTime => match number::spec_decode_u64(def.val@) {
                Some(packed) => time_outcome(def, packed, time_zone, leaf),
                None => leaf == constant_of::<D>(def, eval_type, None),
            },
            ExprType::MysqlDuration => match number::spec_decode_i64(def.val@) {
                Some(nanos) => exists|duration: Result<D::Duration, D::Error>| #[trigger]
                    call_ensures(D::duration_from_nanos, (nanos, MAX_FSP), duration) && leaf
                        == constant_of::<D>(
                        def,
                        eval_type,
                        match duration {
                            Ok(v) => Some(ScalarValue::Duration(Some(v))),
                            Err(e) => None,
                        },
                    ),
                None => leaf == constant_of::<D>(def, eval_type, None),
            },
            ExprType::MysqlDecimal => exists|decimal: Result<D::Decimal, D::Error>| #[trigger]
                call_ensures(D::decode_decimal, (&def.val,), decimal) && leaf == constant_of::<D>(
                    def,
                    eval_type,
                    match decimal {
                        Ok(v) => Some(ScalarValue::Decimal(Some(v))),
                        Err(e) => None,
                    },
                ),
            ExprType::MysqlJson => exists|json: Result<D::Json, D::Error>| #[trigger]
                call_ensures(D::decode_json, (&def.val,), json) && leaf == constant_of::<D>(
                    def,
                    eval_type,
                    match json {
                        Ok(v) => Some(ScalarValue::Json(Some(v))),
                        Err(e) => None,
                    },
                ),
            ExprType::ColumnRef => match number::spec_decode_i64(def.val@) {
                Some(offset) => leaf == Ok::<_, Error<D::Error>>(
                    RpnExpressionNode::<D>::TableColumnRef {
                        offset: offset as usize,
                        field_type: def.field_type,
                    },
                ),
                None => leaf == refused::<D>(Error::DecodeColumnOffset),
            },
            ExprType::Other(name) => leaf == refused::<D>(Error::UnexpectedExprType(def.tp)),
            ExprType::ScalarFunc => false,
        }
    }
}

/// Whether a time literal with the packed value `packed` may come out as `leaf`.
pub open spec fn time_outcome<D: DataTypes>(
    def: Expr,
    packed: u64,
    time_zone: D::Tz,
    leaf: Result<RpnExpressionNode<D>, Error<D::Error>>,
) -> bool {
    exists|time_type: Result<D::TimeType, D::Error>| #[trigger]
        call_ensures(D::time_type, (def.field_type.tp,), time_type) && match time_type {
            Err(e) => leaf == refused::<D>(Error::External(e)),
            Ok(time_type) => exists|time: Result<D::Time, D::Error>| #[trigger]
                call_ensures(
                    D::time_from_packed_u64,
                    (packed, time_type, def.field_type.decimal as i8, time_zone),
                    time,
                ) && leaf == constant_of::<D>(
                    def,
                    EvalType::DateTime,
                    match time {
                        Ok(v) => Some(ScalarValue::DateTime(Some(v))),
                        Err(e) => None,
                    },
                ),
        }
}

/// Which functions, or errors, a signature may map to.
pub type Mapping<D> = spec_fn(
    ScalarFuncSig,
    Result<BoxedFunction<D>, Error<<D as DataTypes>::Error>>,
) -> bool;

/// Which functions, or errors, a signature may map to in the function table of `D`.
pub open spec fn table<D: FunctionTable>() -> Mapping<D> {
    |sig: ScalarFuncSig, func: Result<BoxedFunction<D>, Error<D::Error>>|
        call_ensures(D::map_pb_sig_to_rpn_func, (sig,), func)
}

/// Whether the definition `def` may append the nodes `out` and end with `res`.
///
/// Arguments come before the function that takes them, first argument first. An error ends the
/// traversal; the nodes that came before it stay.
pub open spec fn emits<D: DataTypes>(
    def: Expr,
    time_zone: D::Tz,
    mapping: Mapping<D>,
    out: Seq<RpnExpressionNode<D>>,
    res: Result<(), Error<D::Error>>,
) -> bool
    decreases def, def.children@.len() + 1,
{
    exists|eval_type: Result<EvalType, D::Error>| #[trigger]
        call_ensures(D::eval_type, (def.field_type.tp,), eval_type) && match eval_type {
            Err(e) => out.len() == 0 && res == Err::<(), Error<D::Error>>(
                Error::UnsupportedFieldType(e),
            ),
            Ok(eval_type) => if def.tp is ScalarFunc {
                exists|func: Result<BoxedFunction<D>, Error<D::Error>>| #[trigger]
                    mapping(def.sig, func) && match func {
                        Err(e) => out.len() == 0 && res == Err::<(), Error<D::Error>>(e),
                        Ok(func) => if func.arity() != def.children@.len() {
                            out.len() == 0 && res == Err::<(), Error<D::Error>>(
                                Error::UnexpectedArguments {
                                    expect: func.arity(),
                                    received: def.children.len(),
                                },
                            )
                        } else {
                            match res {
                                Ok(u) => {
                                    &&& out.len() > 0
                                    &&& out.last() == (RpnExpressionNode::Fn {
                                        func,
                                        field_type: def.field_type,
                                    })
                                    &&& emits_args(
                                        def,
                                        def.children@.len(),
                                        time_zone,
                                        mapping,
                                        out.drop_last(),
                                        res,
                                    )
                                },
                                Err(e) => emits_args(
                                    def,
                                    def.children@.len(),
                                    time_zone,
                                    mapping,
                                    out,
                                    res,
                                ),
                            }
                        },
                    }
            } else {
                match res {
                    Ok(u) => out.len() == 1 && leaf_outcome::<D>(
                        def,
                        eval_type,
                        time_zone,
                        Ok(out[0]),
                    ),
                    Err(e) => out.len() == 0 && leaf_outcome::<D>(
                        def,
                        eval_type,
                        time_zone,
                        Err(e),
                    ),
                }
            },
        }
}

/// Whether the first `n` arguments of `def` may append the nodes `out` and end with `res`.
pub open spec fn emits_args<D: DataTypes>(
    def: Expr,
    n: nat,
    time_zone: D::Tz,
    mapping: Mapping<D>,
    out: Seq<RpnExpressionNode<D>>,
    res: Result<(), Error<D::Error>>,
) -> bool
    decreases def, n,
{
    if n == 0 || n > def.children@.len() {
        out.len() == 0 && res is Ok
    } else {
        ||| res is Err && emits_args(def, (n - 1) as nat, time_zone, mapping, out, res)
        ||| exists|k: int|
            0 <= k <= out.len() && emits_args(
                def,
                (n - 1) as nat,
                time_zone,
                mapping,
                #[trigger] out.take(k),
                Ok(()),
            ) && emits(def.children@[n - 1], time_zone, mapping, out.skip(k), res)
    }
}

/// Turns a decoding outcome into a constant node.
fn constant_node<D: DataTypes>(
    decoded: Option<ScalarValue<D>>,
    eval_type: EvalType,
    field_type: FieldType,
) -> (leaf: Result<RpnExpressionNode<D>, Error<D::Error>>)
    ensures
        forall|def: Expr|
            def.field_type == field_type ==> leaf == #[trigger] constant_of::<D>(
                def,
                eval_type,
                decoded,
            ),
{
    match decoded {
        Some(value) => Ok(RpnExpressionNode::Constant { value, field_type }),
        None => Err(Error::Decode(eval_type)),
    }
}

/// Decodes a definition that is no function call.
fn decode_leaf<D: DataTypes>(def: Expr, eval_type: EvalType, time_zone: D::Tz) -> (leaf: Result<
    RpnExpressionNode<D>,
    Error<D::Error>,
>)
    requires
        !(def.tp is ScalarFunc),
    ensures
        leaf_outcome::<D>(def, eval_type, time_zone, leaf),
{
    let Expr { tp, val, children, sig, field_type } = def;
    match (&tp, eval_type) {
        (ExprType::Null, _) => {
            let value = match eval_type {
                EvalType::Int => ScalarValue::Int(None),
                EvalType::Real => ScalarValue::Real(None),
                EvalType::Decimal => ScalarValue::Decimal(None),
                EvalType::Bytes => ScalarValue::Bytes(None),
                EvalType::DateTime => ScalarValue::DateTime(None),
                EvalType::Duration => ScalarValue::Duration(None),
                EvalType::Json => ScalarValue::Json(None),
            };
            constant_node(Some(value), eval_type, field_type)
        },
        (ExprType::Int64, EvalType::Int) => {
            let decoded = match number::decode_i64(val.as_slice()) {
                Ok(v) => Some(ScalarValue::Int(Some(v))),
                Err(_) => None,
            };
            constant_node(decoded, eval_type, field_type)
        },
        (ExprType::Uint64, EvalType::Int) => {
            let decoded = match number::decode_u64(val.as_slice()) {
                Ok(v) => Some(ScalarValue::Int(Some(v as i64))),
                Err(_) => None,
            };
            constant_node(decoded, eval_type, field_type)
        },
        (ExprType::String, EvalType::Bytes) | (ExprType::Bytes, EvalType::Bytes) => {
            constant_node(Some(ScalarValue::Bytes(Some(val))), eval_type, field_type)
        },
        (ExprType::Float32, EvalType::Real) | (ExprType::Float64, EvalType::Real) => {
            let decoded = match number::decode_f64(val.as_slice()) {
                Ok(bits) => Some(ScalarValue::Real(Some(bits))),
                Err(_) => None,
            };
            constant_node(decoded, eval_type, field_type)
        },
        (ExprType::MysqlTime, EvalType::DateTime) => {
            let packed = match number::decode_u64(val.as_slice()) {
                Ok(packed) => packed,
                Err(_) => return Err(Error::Decode(eval_type)),
            };
            let fsp = #[verifier::truncate] (field_type.decimal() as i8);
            let time_type = match D::time_type(field_type.tp()) {
                Ok(time_type) => time_type,
                Err(e) => return Err(Error::External(e)),
            };
            let decoded = match D::time_from_packed_u64(packed, time_type, fsp, time_zone) {
                Ok(v) => Some(ScalarValue::DateTime(Some(v))),
                Err(_) => None,
            };
            constant_node(decoded, eval_type, field_type)
        },
        (ExprType::MysqlDuration, EvalType::Duration) => {
            let nanos = match number::decode_i64(val.as_slice()) {
                Ok(nanos) => nanos,
                Err(_) => return Err(Error::Decode(eval_type)),
            };
            let decoded = match D::duration_from_nanos(nanos, MAX_FSP) {
                Ok(v) => Some(ScalarValue::Duration(Some(v))),
                Err(_) => None,
            };
            constant_node(decoded, eval_type, field_type)
        },
        (ExprType::MysqlDecimal, EvalType::Decimal) => {
            let decoded = match D::decode_decimal(&val) {
                Ok(v) => Some(ScalarValue::Decimal(Some(v))),
                Err(_) => None,
            };
            constant_node(decoded, eval_type, field_type)
        },
        (ExprType::MysqlJson, EvalType::Json) => {
            let decoded = match D::decode_json(&val) {
                Ok(v) => Some(ScalarValue::Json(Some(v))),
                Err(_) => None,
            };
            constant_node(decoded, eval_type, field_type)
        },
        (ExprType::ColumnRef, _) => {
            match number::decode_i64(val.as_slice()) {
                Ok(v) => {
                    let offset = #[verifier::truncate] (v as usize);
                    Ok(RpnExpressionNode::TableColumnRef { offset, field_type })
                },
                Err(_) => Err(Error::DecodeColumnOffset),
            }
        },
        (ExprType::Other(_), _) => Err(Error::UnexpectedExprType(tp)),
        _ => Err(Error::UnexpectedEvalType { eval_type, expr_type: tp }),
    }
}

/// An error in one of the first `k` arguments ends the traversal of all the first `n`.
proof fn lemma_error_ends_args<D: DataTypes>(
    def: Expr,
    k: nat,
    n: nat,
    time_zone: D::Tz,
    mapping: Mapping<D>,
    out: Seq<RpnExpressionNode<D>>,
    e: Error<D::Error>,
)
    requires
        k <= n <= def.children@.len(),
        emits_args(def, k, time_zone, mapping, out, Err(e)),
    ensures
        emits_args(def, n, time_zone, mapping, out, Err(e)),
    decreases n - k,
{
    if k < n {
        assert(emits_args(def, (k + 1) as nat, time_zone, mapping, out, Err(e)));
        lemma_error_ends_args(def, k + 1, n, time_zone, mapping, out, e);
    }
}

/// Whatever a definition appends, every function in it finds its arguments; a definition that
/// succeeds leaves exactly one value.
pub proof fn law_emitted_list_is_well_formed<D: DataTypes>(
    def: Expr,
    time_zone: D::Tz,
    mapping: Mapping<D>,
    out: Seq<RpnExpressionNode<D>>,
    res: Result<(), Error<D::Error>>,
)
    requires
        emits(def, time_zone, mapping, out, res),
    ensures
        supplied(out),
        res is Ok ==> well_formed(out),
    decreases def, def.children@.len() + 1,
{
    if def.tp is ScalarFunc {
        let n = def.children@.len();
        if res is Ok {
            lemma_emitted_args_are_supplied(def, n, time_zone, mapping, out.drop_last(), res);
            lemma_supplied_push(out.drop_last(), out.last());
            assert(out.drop_last().push(out.last()) =~= out);
        } else if out.len() > 0 {
            lemma_emitted_args_are_supplied(def, n, time_zone, mapping, out, res);
        }
    } else {
        reveal_with_fuel(depth, 2);
        if res is Ok {
            assert(out.take(0) =~= Seq::empty());
            assert(out.drop_last() =~= Seq::empty());
        }
    }
}

/// The arguments of a function call, taken together, leave one value for each argument.
proof fn lemma_emitted_args_are_supplied<D: DataTypes>(
    def: Expr,
    n: nat,
    time_zone: D::Tz,
    mapping: Mapping<D>,
    out: Seq<RpnExpressionNode<D>>,
    res: Result<(), Error<D::Error>>,
)
    requires
        n <= def.children@.len(),
        emits_args(def, n, time_zone, mapping, out, res),
    ensures
        supplied(out),
        res is Ok ==> depth(out) == n,
    decreases def, n,
{
    if n > 0 {
        if res is Err && emits_args(def, (n - 1) as nat, time_zone, mapping, out, res) {
            lemma_emitted_args_are_supplied(def, (n - 1) as nat, time_zone, mapping, out, res);
        } else {
            let k = choose|k: int|
                0 <= k <= out.len() && emits_args(
                    def,
                    (n - 1) as nat,
                    time_zone,
                    mapping,
                    #[trigger] out.take(k),
                    Ok(()),
                ) && emits(def.children@[n - 1], time_zone, mapping, out.skip(k), res);
            lemma_emitted_args_are_supplied(
                def,
                (n - 1) as nat,
                time_zone,
                mapping,
                out.take(k),
                Ok(()),
            );
            law_emitted_list_is_well_formed(
                def.children@[n - 1],
                time_zone,
                mapping,
                out.skip(k),
                res,
            );
            lemma_supplied_concat(out.take(k), out.skip(k));
            lemma_depth_concat(out.take(k), out.skip(k));
            assert(out.take(k) + out.skip(k) =~= out);
        }
    }
}

impl<D: DataTypes> RpnExpressionNodeVec<D> {
    /// Transforms eval tree nodes into RPN nodes, and appends them to `rpn_nodes`.
    ///
    /// Suppose that we have a function call:
    ///
    /// ```ignore
    /// A(B, C(E, F, G), D)
    /// ```
    ///
    /// The eval tree looks like:
    ///
    /// ```ignore
    ///           +---+
    ///           | A |
    ///           +---+
    ///             |
    ///   +-------------------+
    ///   |         |         |
    /// +---+     +---+     +---+
    /// | B |     | C |     | D |
    /// +---+     +---+     +---+
    ///             |
    ///      +-------------+
    ///      |      |      |
    ///    +---+  +---+  +---+
    ///    | E |  | F |  | G |
    ///    +---+  +---+  +---+
    /// ```
    ///
    /// We need to transform the tree into RPN nodes:
    ///
    /// ```ignore
    /// B E F G C D A
    /// ```
    ///
    /// The transform process is very much like a post-order traversal. This function does it
    /// recursively. When it fails, the nodes that came before the failure stay in `rpn_nodes`.
    pub fn append_rpn_nodes_recursively<F>(
        def: Expr,
        time_zone: D::Tz,
        rpn_nodes: &mut Vec<RpnExpressionNode<D>>,
        fn_mapper: F,
    ) -> (res: Result<(), Error<D::Error>>) where
        F: Fn(ScalarFuncSig) -> Result<BoxedFunction<D>, Error<D::Error>> + Copy,

        requires
            forall|sig: ScalarFuncSig| call_requires(fn_mapper, (sig,)),
        ensures
            old(rpn_nodes)@.len() <= final(rpn_nodes)@.len(),
            final(rpn_nodes)@.take(old(rpn_nodes)@.len() as int) == old(rpn_nodes)@,
            emits(
                def,
                time_zone,
                |sig: ScalarFuncSig, func: Result<BoxedFunction<D>, Error<D::Error>>|
                    call_ensures(fn_mapper, (sig,), func),
                final(rpn_nodes)@.skip(old(rpn_nodes)@.len() as int),
                res,
            ),
        decreases def,
    {
        let ghost whole = def;
        let ghost start = rpn_nodes@;
        let ghost mapping = |sig: ScalarFuncSig, func: Result<BoxedFunction<D>, Error<D::Error>>|
            call_ensures(fn_mapper, (sig,), func);
        let eval_type = match D::eval_type(def.field_type.tp()) {
            Ok(eval_type) => eval_type,
            Err(e) => return Err(Error::UnsupportedFieldType(e)),
        };
        match def.tp {
            ExprType::ScalarFunc => {
                let mapped = fn_mapper(def.sig);
                assert(mapping(def.sig, mapped));
                let func = match mapped {
                    Ok(func) => func,
                    Err(e) => return Err(e),
                };
                let Expr { tp, val, children, sig, field_type } = def;
                let received = children.len();
                if func.args_len() != received {
                    return Err(
                        Error::UnexpectedArguments { expect: func.args_len(), received },
                    );
                }
                assert(rpn_nodes@.skip(start.len() as int) =~= Seq::empty());
                for arg in it: children.into_iter()
                    invariant
                        whole == def,
                        mapping == (|
                            sig: ScalarFuncSig,
                            func: Result<BoxedFunction<D>, Error<D::Error>>,
                        | call_ensures(fn_mapper, (sig,), func)),
                        it.seq() == whole.children@,
                        children@ == whole.children@,
                        field_type == whole.field_type,
                        whole.tp is ScalarFunc,
                        func.arity() == whole.children@.len(),
                        call_ensures(
                            D::eval_type,
                            (whole.field_type.tp,),
                            Ok::<EvalType, D::Error>(eval_type),
                        ),
                        mapping(whole.sig, Ok::<BoxedFunction<D>, Error<D::Error>>(func)),
                        forall|sig: ScalarFuncSig| call_requires(fn_mapper, (sig,)),
                        start == old(rpn_nodes)@,
                        start.len() <= rpn_nodes@.len(),
                        rpn_nodes@.take(start.len() as int) == start,
                        emits_args(
                            whole,
                            it.index() as nat,
                            time_zone,
                            mapping,
                            rpn_nodes@.skip(start.len() as int),
                            Ok(()),
                        ),
                {
                    let ghost before = rpn_nodes@;
                    let ghost i = it.index();
                    assert(arg == whole.children@[i]);
                    assert(decreases_to!(whole => whole.children@[i]));
                    let res = Self::append_rpn_nodes_recursively(
                        arg,
                        time_zone,
                        rpn_nodes,
                        fn_mapper,
                    );
                    proof {
                        let out = rpn_nodes@.skip(start.len() as int);
                        let done = before.skip(start.len() as int);
                        assert(rpn_nodes@.take(start.len() as int) =~= before.take(
                            start.len() as int,
                        ));
                        assert(out.take(done.len() as int) =~= done);
                        assert(out.skip(done.len() as int) =~= rpn_nodes@.skip(
                            before.len() as int,
                        ));
                        assert(emits_args(whole, (i + 1) as nat, time_zone, mapping, out, res));
                    }
                    match res {
                        Ok(u) => {
                            assert(u == ());
                        },
                        Err(e) => {
                            proof {
                                lemma_error_ends_args(
                                    whole,
                                    (i + 1) as nat,
                                    whole.children@.len(),
                                    time_zone,
                                    mapping,
                                    rpn_nodes@.skip(start.len() as int),
                                    e,
                                );
                            }
                            return Err(e);
                        },
                    }
                }
                let ghost args = rpn_nodes@.skip(start.len() as int);
                rpn_nodes.push(RpnExpressionNode::Fn { func, field_type });
                assert(rpn_nodes@.skip(start.len() as int).drop_last() =~= args);
                Ok(())
            },
            _ => {
                let leaf = decode_leaf(def, eval_type, time_zone);
                let ghost outcome = leaf;
                match leaf {
                    Ok(node) => {
                        rpn_nodes.push(node);
                        assert(outcome == Ok::<_, Error<D::Error>>(
                            rpn_nodes@.skip(start.len() as int)[0],
                        ));
                        Ok(())
                    },
                    Err(e) => Err(e),
                }
            },
        }
    }
}

impl<D: FunctionTable> RpnExpressionNodeVec<D> {
    /// Builds the RPN expression node list from an expression definition tree.
    pub fn build_from_def(def: Expr, time_zone: D::Tz) -> (r: Result<Self, Error<D::Error>>)
        ensures
            match r {
                Ok(list) => emits::<D>(def, time_zone, table(), list@, Ok(()))
                    && well_formed(list@),
                Err(e) => exists|out: Seq<RpnExpressionNode<D>>| #[trigger]
                    emits::<D>(def, time_zone, table(), out, Err(e)),
            },
    {
        let mut expr_nodes = Vec::new();
        let res = Self::append_rpn_nodes_recursively(
            def,
            time_zone,
            &mut expr_nodes,
            D::map_pb_sig_to_rpn_func,
        );
        assert(expr_nodes@.skip(0) =~= expr_nodes@);
        assert(table::<D>() =~= (|
            sig: ScalarFuncSig,
            func: Result<BoxedFunction<D>, Error<D::Error>>,
        | call_ensures(D::map_pb_sig_to_rpn_func, (sig,), func)));
        match res {
            Ok(u) => {
                proof {
                    assert(u == ());
                    law_emitted_list_is_well_formed::<D>(
                        def,
                        time_zone,
                        table(),
                        expr_nodes@,
                        res,
                    );
                }
                Ok(RpnExpressionNodeVec::from_nodes(expr_nodes))
            },
            Err(e) => Err(e),
        }
    }
}

} // verus!
