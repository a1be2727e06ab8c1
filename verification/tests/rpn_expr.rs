//! Building and evaluating expressions over a small system of data types and functions.
use rpn_expr::batch::{LazyBatchColumn, LazyBatchColumnVec};
use rpn_expr::data_type::{
    AsMySQLBool, DataTypes, ScalarValue, ScalarValueRef, VectorLikeValueRef, VectorValue,
};
use rpn_expr::error::Error;
use rpn_expr::expr::{Expr, ExprType, ScalarFuncSig};
use rpn_expr::field_type::{EvalType, FieldType, FieldTypeTp};
use rpn_expr::function::{BoxedFunction, FunctionTable, RpnFunction};
use rpn_expr::node::{RpnExpressionNode, RpnExpressionNodeVec};
use rpn_expr::number::{encode_f64, encode_i64, encode_u64};
use rpn_expr::stack::{RpnFnCallPayload, RpnStackNode, RpnStackNodeVectorValue};

/// The system of the tests. Its context is a log of what happened.
#[derive(Debug)]
struct Sys;

type Res<T> = Result<T, Error<String>>;

impl DataTypes for Sys {
    type Context = Vec<String>;
    type Error = String;
    type Tz = i32;
    type TimeType = FieldTypeTp;
    type Time = (u64, FieldTypeTp, i8, i32);
    type Duration = (i64, i8);
    type Decimal = Vec<u8>;
    type Json = String;

    fn eval_type(tp: FieldTypeTp) -> Result<EvalType, String> {
        match tp {
            FieldTypeTp::Tiny | FieldTypeTp::Long | FieldTypeTp::LongLong => Ok(EvalType::Int),
            FieldTypeTp::Float | FieldTypeTp::Double => Ok(EvalType::Real),
            FieldTypeTp::NewDecimal => Ok(EvalType::Decimal),
            FieldTypeTp::VarChar | FieldTypeTp::Blob => Ok(EvalType::Bytes),
            FieldTypeTp::Timestamp | FieldTypeTp::DateTime | FieldTypeTp::Date => {
                Ok(EvalType::DateTime)
            }
            FieldTypeTp::Duration => Ok(EvalType::Duration),
            FieldTypeTp::Json => Ok(EvalType::Json),
            _ => Err(format!("Unsupported type {:?}", tp)),
        }
    }

    fn time_type(tp: FieldTypeTp) -> Result<FieldTypeTp, String> {
        match tp {
            FieldTypeTp::Date => Err("no time type".to_string()),
            _ => Ok(tp),
        }
    }

    fn time_from_packed_u64(
        packed: u64,
        time_type: FieldTypeTp,
        fsp: i8,
        time_zone: i32,
    ) -> Result<(u64, FieldTypeTp, i8, i32), String> {
        if packed == 0 {
            Err("zero time".to_string())
        } else {
            Ok((packed, time_type, fsp, time_zone))
        }
    }

    fn duration_from_nanos(nanos: i64, fsp: i8) -> Result<(i64, i8), String> {
        if nanos == i64::MAX {
            Err("too long".to_string())
        } else {
            Ok((nanos, fsp))
        }
    }

    fn decode_decimal(data: &Vec<u8>) -> Result<Vec<u8>, String> {
        if data.is_empty() {
            Err("no digits".to_string())
        } else {
            Ok(data.clone())
        }
    }

    fn decode_json(data: &Vec<u8>) -> Result<String, String> {
        String::from_utf8(data.clone()).map_err(|e| format!("{:?}", e))
    }
}

impl AsMySQLBool for Sys {
    fn as_mysql_bool<'a>(
        value: ScalarValueRef<'a, Self>,
        context: &mut Vec<String>,
    ) -> Res<bool> {
        context.push("bool".to_string());
        match value {
            ScalarValueRef::Int(v) => Ok(v.map_or(false, |v| v != 0)),
            ScalarValueRef::Real(v) => Ok(v.map_or(false, |v| f64::from_bits(v) != 0.0)),
            _ => Err(Error::External("not a number".to_string())),
        }
    }
}

impl FunctionTable for Sys {
    fn map_pb_sig_to_rpn_func(sig: ScalarFuncSig) -> Res<BoxedFunction<Sys>> {
        match sig {
            GT_INT => Ok(BoxedFunction(Box::new(RpnFnGTInt))),
            _ => Err(Error::External(format!("no function {}", sig.0))),
        }
    }
}

const CAST_INT_AS_INT: ScalarFuncSig = ScalarFuncSig(0);
const CAST_INT_AS_REAL: ScalarFuncSig = ScalarFuncSig(1);
const CAST_INT_AS_STRING: ScalarFuncSig = ScalarFuncSig(2);
const CAST_INT_AS_DECIMAL: ScalarFuncSig = ScalarFuncSig(3);
const GT_INT: ScalarFuncSig = ScalarFuncSig(120);
const FAIL: ScalarFuncSig = ScalarFuncSig(1000);
const LOG: ScalarFuncSig = ScalarFuncSig(1001);

fn int_at(node: &RpnStackNode<'_, Sys>, row: usize) -> Option<i64> {
    match node.as_vector_like() {
        VectorLikeValueRef::Scalar(ScalarValue::Int(v)) => *v,
        VectorLikeValueRef::Vector(VectorValue::Int(v)) => v[row],
        _ => panic!("not an int"),
    }
}

fn real_at(node: &RpnStackNode<'_, Sys>, row: usize) -> Option<f64> {
    match node.as_vector_like() {
        VectorLikeValueRef::Scalar(ScalarValue::Real(v)) => v.map(f64::from_bits),
        VectorLikeValueRef::Vector(VectorValue::Real(v)) => v[row].map(f64::from_bits),
        _ => panic!("not a real"),
    }
}

/// An RPN function for test. It accepts 1 int argument, returns the value in float.
#[derive(Debug, Clone, Copy)]
struct FnA;

impl RpnFunction<Sys> for FnA {
    fn arity(&self) -> usize {
        1
    }

    fn name(&self) -> &'static str {
        "FnA"
    }

    fn args_len(&self) -> usize {
        1
    }

    fn eval<'a>(
        &self,
        rows: usize,
        context: &mut Vec<String>,
        payload: RpnFnCallPayload<'a, Sys>,
    ) -> Res<VectorValue<Sys>> {
        context.push("FnA".to_string());
        let arg = payload.raw_arg_at(0);
        Ok(VectorValue::Real(
            (0..rows)
                .map(|row| int_at(arg, row).map(|v| (v as f64).to_bits()))
                .collect(),
        ))
    }
}

/// An RPN function for test. It accepts 2 float arguments, returns their sum in int.
#[derive(Debug, Clone, Copy)]
struct FnB;

impl RpnFunction<Sys> for FnB {
    fn arity(&self) -> usize {
        2
    }

    fn name(&self) -> &'static str {
        "FnB"
    }

    fn args_len(&self) -> usize {
        2
    }

    fn eval<'a>(
        &self,
        rows: usize,
        context: &mut Vec<String>,
        payload: RpnFnCallPayload<'a, Sys>,
    ) -> Res<VectorValue<Sys>> {
        context.push("FnB".to_string());
        let (v1, v2) = (payload.raw_arg_at(0), payload.raw_arg_at(1));
        Ok(VectorValue::Int(
            (0..rows)
                .map(|row| match (real_at(v1, row), real_at(v2, row)) {
                    (Some(v1), Some(v2)) => Some((v1 + v2) as i64),
                    _ => None,
                })
                .collect(),
        ))
    }
}

/// An RPN function for test. It accepts 3 int arguments, returns their sum in int.
#[derive(Debug, Clone, Copy)]
struct FnC;

impl RpnFunction<Sys> for FnC {
    fn arity(&self) -> usize {
        3
    }

    fn name(&self) -> &'static str {
        "FnC"
    }

    fn args_len(&self) -> usize {
        3
    }

    fn eval<'a>(
        &self,
        rows: usize,
        context: &mut Vec<String>,
        payload: RpnFnCallPayload<'a, Sys>,
    ) -> Res<VectorValue<Sys>> {
        context.push("FnC".to_string());
        Ok(VectorValue::Int(
            (0..rows)
                .map(|row| {
                    let mut sum = Some(0);
                    for i in 0..payload.args_len() {
                        sum = match (sum, int_at(payload.raw_arg_at(i), row)) {
                            (Some(sum), Some(v)) => Some(sum + v),
                            _ => None,
                        };
                    }
                    sum
                })
                .collect(),
        ))
    }
}

/// An RPN function for test. It accepts 3 float arguments, returns their sum in float.
#[derive(Debug, Clone, Copy)]
struct FnD;

impl RpnFunction<Sys> for FnD {
    fn arity(&self) -> usize {
        3
    }

    fn name(&self) -> &'static str {
        "FnD"
    }

    fn args_len(&self) -> usize {
        3
    }

    fn eval<'a>(
        &self,
        rows: usize,
        context: &mut Vec<String>,
        payload: RpnFnCallPayload<'a, Sys>,
    ) -> Res<VectorValue<Sys>> {
        context.push("FnD".to_string());
        Ok(VectorValue::Real(
            (0..rows)
                .map(|row| {
                    let mut sum = Some(0.0);
                    for i in 0..payload.args_len() {
                        sum = match (sum, real_at(payload.raw_arg_at(i), row)) {
                            (Some(sum), Some(v)) => Some(sum + v),
                            _ => None,
                        };
                    }
                    sum.map(f64::to_bits)
                })
                .collect(),
        ))
    }
}

/// Compares two int arguments.
#[derive(Debug, Clone, Copy)]
struct RpnFnGTInt;

impl RpnFunction<Sys> for RpnFnGTInt {
    fn arity(&self) -> usize {
        2
    }

    fn name(&self) -> &'static str {
        "RpnFnGTInt"
    }

    fn args_len(&self) -> usize {
        2
    }

    fn eval<'a>(
        &self,
        rows: usize,
        _context: &mut Vec<String>,
        payload: RpnFnCallPayload<'a, Sys>,
    ) -> Res<VectorValue<Sys>> {
        let (lhs, rhs) = (payload.raw_arg_at(0), payload.raw_arg_at(1));
        Ok(VectorValue::Int(
            (0..rows)
                .map(|row| match (int_at(lhs, row), int_at(rhs, row)) {
                    (Some(l), Some(r)) => Some((l > r) as i64),
                    _ => None,
                })
                .collect(),
        ))
    }
}

/// Takes no arguments and fails.
#[derive(Debug, Clone, Copy)]
struct Fail;

impl RpnFunction<Sys> for Fail {
    fn arity(&self) -> usize {
        0
    }

    fn name(&self) -> &'static str {
        "Fail"
    }

    fn args_len(&self) -> usize {
        0
    }

    fn eval<'a>(
        &self,
        _rows: usize,
        context: &mut Vec<String>,
        _payload: RpnFnCallPayload<'a, Sys>,
    ) -> Res<VectorValue<Sys>> {
        context.push("Fail".to_string());
        Err(Error::External("failed".to_string()))
    }
}

/// Logs its payload, and returns a column of zeros.
#[derive(Debug, Clone, Copy)]
struct Log;

impl RpnFunction<Sys> for Log {
    fn arity(&self) -> usize {
        2
    }

    fn name(&self) -> &'static str {
        "Log"
    }

    fn args_len(&self) -> usize {
        2
    }

    fn eval<'a>(
        &self,
        rows: usize,
        context: &mut Vec<String>,
        payload: RpnFnCallPayload<'a, Sys>,
    ) -> Res<VectorValue<Sys>> {
        let copy = payload;
        let clone = Clone::clone(&payload);
        assert_eq!(copy.args_len(), clone.args_len());
        context.push(format!(
            "{} rows, {} args, {:?} and {:?} to {:?}",
            rows,
            payload.args_len(),
            payload.field_type_at(0).tp(),
            payload.field_type_at(1).tp(),
            payload.return_field_type().tp(),
        ));
        context.push(format!(
            "{} {} {} {}",
            payload.raw_arg_at(0).is_scalar(),
            payload.raw_arg_at(0).is_vector(),
            payload.raw_arg_at(1).is_scalar(),
            payload.raw_arg_at(1).is_vector(),
        ));
        Ok(VectorValue::Int(vec![Some(0); rows]))
    }
}

/// For testing `append_rpn_nodes_recursively`.
fn fn_mapper(value: ScalarFuncSig) -> Res<BoxedFunction<Sys>> {
    // FnA: CastIntAsInt
    // FnB: CastIntAsReal
    // FnC: CastIntAsString
    // FnD: CastIntAsDecimal
    match value {
        CAST_INT_AS_INT => Ok(BoxedFunction(Box::new(FnA))),
        CAST_INT_AS_REAL => Ok(BoxedFunction(Box::new(FnB))),
        CAST_INT_AS_STRING => Ok(BoxedFunction(Box::new(FnC))),
        CAST_INT_AS_DECIMAL => Ok(BoxedFunction(Box::new(FnD))),
        GT_INT => Ok(BoxedFunction(Box::new(RpnFnGTInt))),
        FAIL => Ok(BoxedFunction(Box::new(Fail))),
        LOG => Ok(BoxedFunction(Box::new(Log))),
        _ => Err(Error::External(format!("no function {}", value.0))),
    }
}

fn field_type(tp: FieldTypeTp) -> FieldType {
    FieldType {
        tp,
        flag: 0,
        flen: -1,
        decimal: -1,
        collate: 0,
        charset: String::new(),
    }
}

fn literal(tp: ExprType, field: FieldTypeTp, val: Vec<u8>) -> Expr {
    Expr {
        tp,
        val,
        children: vec![],
        sig: ScalarFuncSig(0),
        field_type: field_type(field),
    }
}

fn call(sig: ScalarFuncSig, field: FieldTypeTp, children: Vec<Expr>) -> Expr {
    Expr {
        tp: ExprType::ScalarFunc,
        val: vec![],
        children,
        sig,
        field_type: field_type(field),
    }
}

fn i64_bytes(v: i64) -> Vec<u8> {
    let mut val = Vec::new();
    encode_i64(&mut val, v);
    val
}

fn u64_bytes(v: u64) -> Vec<u8> {
    let mut val = Vec::new();
    encode_u64(&mut val, v);
    val
}

fn f64_bytes(v: f64) -> Vec<u8> {
    let mut val = Vec::new();
    encode_f64(&mut val, v.to_bits());
    val
}

fn int_literal(v: i64) -> Expr {
    literal(ExprType::Int64, FieldTypeTp::LongLong, i64_bytes(v))
}

fn real_literal(v: f64) -> Expr {
    literal(ExprType::Float64, FieldTypeTp::Double, f64_bytes(v))
}

fn column(offset: i64) -> Expr {
    literal(ExprType::ColumnRef, FieldTypeTp::LongLong, i64_bytes(offset))
}

fn append(def: Expr) -> (Res<()>, Vec<RpnExpressionNode<Sys>>) {
    let mut nodes = vec![];
    let res = RpnExpressionNodeVec::append_rpn_nodes_recursively(def, 0, &mut nodes, fn_mapper);
    (res, nodes)
}

/// The list of a definition.
fn list(def: Expr) -> RpnExpressionNodeVec<Sys> {
    let (res, nodes) = append(def);
    res.unwrap();
    // Any definition gives a list to fill.
    let mut list =
        RpnExpressionNodeVec::build_from_def(new_gt_int_def(0, 0), 0).unwrap();
    list.clear();
    list.extend(nodes);
    list
}

/// The error with which a definition is refused. Nothing is appended.
fn refused(def: Expr) -> Error<String> {
    let (res, nodes) = append(def);
    assert_eq!(nodes.len(), 0);
    res.unwrap_err()
}

fn names(nodes: &[RpnExpressionNode<Sys>]) -> Vec<String> {
    nodes
        .iter()
        .map(|node| match node {
            RpnExpressionNode::Fn { func, .. } => func.name().to_string(),
            RpnExpressionNode::Constant { value, .. } => format!("{:?}", value),
            RpnExpressionNode::TableColumnRef { offset, .. } => format!("#{}", offset),
        })
        .collect()
}

fn as_int(value: &ScalarValue<Sys>) -> Option<i64> {
    match value {
        ScalarValue::Int(v) => *v,
        _ => panic!("not an int"),
    }
}

fn as_real(value: &ScalarValue<Sys>) -> Option<f64> {
    match value {
        ScalarValue::Real(v) => v.map(f64::from_bits),
        _ => panic!("not a real"),
    }
}

fn as_int_slice(value: &VectorValue<Sys>) -> &[Option<i64>] {
    match value {
        VectorValue::Int(v) => v,
        _ => panic!("not an int column"),
    }
}

fn columns(cols: Vec<Vec<Option<i64>>>) -> LazyBatchColumnVec<Sys> {
    LazyBatchColumnVec::from(
        cols.into_iter()
            .map(|col| LazyBatchColumn::Decoded(VectorValue::Int(col)))
            .collect(),
    )
}

fn new_gt_int_def(offset: usize, val: u64) -> Expr {
    // GTInt(ColumnRef(offset), Uint64(val))
    call(
        GT_INT,
        FieldTypeTp::LongLong,
        vec![
            literal(
                ExprType::ColumnRef,
                FieldTypeTp::LongLong,
                i64_bytes(offset as i64),
            ),
            literal(ExprType::Uint64, FieldTypeTp::LongLong, u64_bytes(val)),
        ],
    )
}

/// FnD(a, FnA(FnC(b, c, d)), FnA(FnB(e, f))
fn nested_def(node_a: Expr) -> Expr {
    let node_fn_a_1 = call(
        CAST_INT_AS_INT,
        FieldTypeTp::Double,
        vec![call(
            CAST_INT_AS_STRING,
            FieldTypeTp::LongLong,
            vec![int_literal(7), int_literal(3), int_literal(11)],
        )],
    );
    let node_fn_a_2 = call(
        CAST_INT_AS_INT,
        FieldTypeTp::Double,
        vec![call(
            CAST_INT_AS_REAL,
            FieldTypeTp::LongLong,
            vec![real_literal(-1.5), real_literal(100.12)],
        )],
    );
    call(
        CAST_INT_AS_DECIMAL,
        FieldTypeTp::Double,
        vec![node_a, node_fn_a_1, node_fn_a_2],
    )
}

#[test]
fn test_append_rpn_nodes_recursively() {
    // Input:
    // FnD(a, FnA(FnC(b, c, d)), FnA(FnB(e, f))
    //
    // Tree:
    //           FnD
    // +----------+----------+
    // a         FnA        FnA
    //            |          |
    //           FnC        FnB
    //        +---+---+      +---+
    //        b   c   d      e   f
    //
    // RPN:
    // a b c d FnC FnA e f FnB FnA FnD

    let node_fn_d = nested_def(literal(ExprType::Null, FieldTypeTp::Double, vec![]));

    let mut vec = vec![];
    RpnExpressionNodeVec::append_rpn_nodes_recursively(node_fn_d, 0, &mut vec, fn_mapper).unwrap();

    let mut it = vec.into_iter();

    // node a
    assert!(as_real(it.next().unwrap().constant_value().unwrap()).is_none());

    // node b
    assert_eq!(
        as_int(it.next().unwrap().constant_value().unwrap()).unwrap(),
        7
    );

    // node c
    assert_eq!(
        as_int(it.next().unwrap().constant_value().unwrap()).unwrap(),
        3
    );

    // node d
    assert_eq!(
        as_int(it.next().unwrap().constant_value().unwrap()).unwrap(),
        11
    );

    // FnC
    assert_eq!(it.next().unwrap().fn_func().unwrap().name(), "FnC");

    // FnA
    assert_eq!(it.next().unwrap().fn_func().unwrap().name(), "FnA");

    // node e
    assert_eq!(
        as_real(it.next().unwrap().constant_value().unwrap()).unwrap(),
        -1.5
    );

    // node f
    assert_eq!(
        as_real(it.next().unwrap().constant_value().unwrap()).unwrap(),
        100.12
    );

    // FnB
    assert_eq!(it.next().unwrap().fn_func().unwrap().name(), "FnB");

    // FnA
    assert_eq!(it.next().unwrap().fn_func().unwrap().name(), "FnA");

    // FnD
    assert_eq!(it.next().unwrap().fn_func().unwrap().name(), "FnD");

    // Finish
    assert!(it.next().is_none())
}

#[test]
fn test_build_from_def() {
    let expr = new_gt_int_def(1, 123);
    let rpn_nodes = RpnExpressionNodeVec::<Sys>::build_from_def(expr, 0).unwrap();

    assert_eq!(rpn_nodes.len(), 3);
    assert_eq!(rpn_nodes[0].field_type().tp(), FieldTypeTp::LongLong);
    assert_eq!(rpn_nodes[0].table_column_ref_offset().unwrap(), 1);
    assert_eq!(rpn_nodes[1].field_type().tp(), FieldTypeTp::LongLong);
    assert_eq!(as_int(rpn_nodes[1].constant_value().unwrap()).unwrap(), 123);
    assert_eq!(rpn_nodes[2].field_type().tp(), FieldTypeTp::LongLong);
    assert_eq!(rpn_nodes[2].fn_func().unwrap().name(), "RpnFnGTInt");
}

#[test]
fn test_eval() {
    let expr = new_gt_int_def(0, 10);
    let rpn_nodes = RpnExpressionNodeVec::<Sys>::build_from_def(expr, 0).unwrap();

    let mut col = Vec::with_capacity(100);
    col.push(Some(1));
    col.push(None);
    col.push(Some(-1));
    col.push(Some(10));
    col.push(Some(35));
    col.push(None);
    col.push(Some(7));
    col.push(Some(15));

    let cols = columns(vec![col]);
    let mut ctx = vec![];
    let rows = cols[0].decoded().len();
    let ret = rpn_nodes.eval(&mut ctx, rows, &cols).unwrap();
    assert_eq!(ret.field_type().tp(), FieldTypeTp::LongLong);
    assert_eq!(
        as_int_slice(ret.vector_value().unwrap()),
        &[
            Some(0),
            None,
            Some(0),
            Some(0),
            Some(1),
            None,
            Some(0),
            Some(1)
        ]
    );
}

#[test]
fn arguments_come_before_their_function() {
    // A(B, C(E, F, G), D)
    let (res, nodes) = append(call(
        CAST_INT_AS_STRING,
        FieldTypeTp::LongLong,
        vec![
            column(1),
            call(
                CAST_INT_AS_STRING,
                FieldTypeTp::LongLong,
                vec![column(4), column(5), column(6)],
            ),
            column(3),
        ],
    ));
    res.unwrap();
    assert_eq!(names(&nodes), ["#1", "#4", "#5", "#6", "FnC", "#3", "FnC"]);
}

#[test]
fn nodes_keep_the_field_types_of_their_definitions() {
    let mut def = nested_def(real_literal(1.0));
    def.field_type.flag = 9;
    def.field_type.decimal = 4;
    def.children[0].field_type.charset = "utf8".to_string();
    let (res, nodes) = append(def);
    res.unwrap();
    assert_eq!(nodes[0].field_type().charset, "utf8");
    assert_eq!(nodes[1].field_type().tp(), FieldTypeTp::LongLong);
    assert_eq!(nodes[5].field_type().tp(), FieldTypeTp::Double);
    assert_eq!(nodes[10].field_type().flag, 9);
    assert_eq!(nodes[10].field_type().decimal(), 4);
}

#[test]
fn nulls_have_the_evaluation_type_of_their_field_type() {
    let cases = vec![
        (FieldTypeTp::LongLong, "Int(None)"),
        (FieldTypeTp::Double, "Real(None)"),
        (FieldTypeTp::NewDecimal, "Decimal(None)"),
        (FieldTypeTp::VarChar, "Bytes(None)"),
        (FieldTypeTp::DateTime, "DateTime(None)"),
        (FieldTypeTp::Duration, "Duration(None)"),
        (FieldTypeTp::Json, "Json(None)"),
    ];
    for (tp, expected) in cases {
        let (res, nodes) = append(literal(ExprType::Null, tp, vec![]));
        res.unwrap();
        assert_eq!(names(&nodes), [expected]);
    }
}

#[test]
fn literals_are_decoded() {
    let cases = vec![
        (ExprType::Int64, FieldTypeTp::Tiny, i64_bytes(-5), "Int(Some(-5))"),
        (ExprType::Uint64, FieldTypeTp::Long, u64_bytes(5), "Int(Some(5))"),
        (
            ExprType::Uint64,
            FieldTypeTp::LongLong,
            u64_bytes(u64::MAX),
            "Int(Some(-1))",
        ),
        (
            ExprType::String,
            FieldTypeTp::VarChar,
            vec![1, 2],
            "Bytes(Some([1, 2]))",
        ),
        (ExprType::Bytes, FieldTypeTp::Blob, vec![], "Bytes(Some([]))"),
        (
            ExprType::MysqlDuration,
            FieldTypeTp::Duration,
            i64_bytes(-8),
            "Duration(Some((-8, 6)))",
        ),
        (
            ExprType::MysqlDecimal,
            FieldTypeTp::NewDecimal,
            vec![3, 4],
            "Decimal(Some([3, 4]))",
        ),
        (
            ExprType::MysqlJson,
            FieldTypeTp::Json,
            vec![b'{', b'}'],
            "Json(Some(\"{}\"))",
        ),
    ];
    for (tp, field, val, expected) in cases {
        let (res, nodes) = append(literal(tp, field, val));
        res.unwrap();
        assert_eq!(names(&nodes), [expected]);
    }
    for tp in vec![ExprType::Float32, ExprType::Float64] {
        let (res, nodes) = append(literal(tp, FieldTypeTp::Float, f64_bytes(2.25)));
        res.unwrap();
        assert_eq!(as_real(nodes[0].constant_value().unwrap()), Some(2.25));
    }
}

#[test]
fn times_are_unpacked_in_their_type_and_zone() {
    let mut def = literal(ExprType::MysqlTime, FieldTypeTp::Timestamp, u64_bytes(77));
    def.field_type.decimal = 256 + 3;
    let mut nodes = vec![];
    RpnExpressionNodeVec::append_rpn_nodes_recursively(def, 8, &mut nodes, fn_mapper).unwrap();
    assert_eq!(names(&nodes), ["DateTime(Some((77, Timestamp, 3, 8)))"]);

    let def = literal(ExprType::MysqlTime, FieldTypeTp::DateTime, u64_bytes(1));
    let (res, nodes) = append(def);
    res.unwrap();
    assert_eq!(names(&nodes), ["DateTime(Some((1, DateTime, -1, 0)))"]);
}

#[test]
fn column_offsets_wrap() {
    let (res, nodes) = append(column(-1));
    res.unwrap();
    assert_eq!(nodes[0].table_column_ref_offset(), Some(-1i64 as usize));
}

#[test]
fn unsupported_field_types_are_refused() {
    let def = literal(ExprType::Null, FieldTypeTp::Geometry, vec![]);
    let e = refused(def);
    assert!(matches!(
        &e,
        Error::UnsupportedFieldType(reason) if reason == "Unsupported type Geometry"
    ));
    assert_eq!(e.message(), None);

    // The field type of a function call counts too.
    let e = refused(call(GT_INT, FieldTypeTp::Bit, vec![column(0), int_literal(1)]));
    assert!(matches!(e, Error::UnsupportedFieldType(_)));
}

#[test]
fn undecodable_literals_are_refused() {
    let cases = vec![
        (ExprType::Int64, FieldTypeTp::LongLong, vec![1; 7], EvalType::Int),
        (ExprType::Uint64, FieldTypeTp::LongLong, vec![], EvalType::Int),
        (ExprType::Float32, FieldTypeTp::Double, vec![1; 7], EvalType::Real),
        (ExprType::Float64, FieldTypeTp::Double, vec![1; 7], EvalType::Real),
        (ExprType::MysqlTime, FieldTypeTp::DateTime, vec![1], EvalType::DateTime),
        (ExprType::MysqlTime, FieldTypeTp::DateTime, u64_bytes(0), EvalType::DateTime),
        (ExprType::MysqlDuration, FieldTypeTp::Duration, vec![1], EvalType::Duration),
        (
            ExprType::MysqlDuration,
            FieldTypeTp::Duration,
            i64_bytes(i64::MAX),
            EvalType::Duration,
        ),
        (ExprType::MysqlDecimal, FieldTypeTp::NewDecimal, vec![], EvalType::Decimal),
        (ExprType::MysqlJson, FieldTypeTp::Json, vec![0xff], EvalType::Json),
    ];
    for (tp, field, val, expected) in cases {
        let e = refused(literal(tp, field, val));
        assert!(matches!(e, Error::Decode(eval_type) if eval_type == expected));
        assert_eq!(
            e.message().unwrap(),
            format!("Unable to decode {:?} from the request", expected)
        );
    }
}

#[test]
fn undecodable_column_offsets_are_refused() {
    let def = literal(ExprType::ColumnRef, FieldTypeTp::LongLong, vec![0; 7]);
    let e = refused(def);
    assert!(matches!(e, Error::DecodeColumnOffset));
    assert_eq!(
        e.message().unwrap(),
        "Unable to decode column reference offset from the request"
    );
}

#[test]
fn time_literals_need_a_time_type() {
    // A short value is found first.
    let e = refused(literal(ExprType::MysqlTime, FieldTypeTp::Date, vec![]));
    assert!(matches!(e, Error::Decode(EvalType::DateTime)));

    let e = refused(literal(ExprType::MysqlTime, FieldTypeTp::Date, u64_bytes(0)));
    assert!(matches!(&e, Error::External(reason) if reason == "no time type"));
    assert_eq!(e.message(), None);
}

#[test]
fn literals_of_another_evaluation_type_are_refused() {
    let kinds = vec![
        (ExprType::Int64, "Int64"),
        (ExprType::Uint64, "Uint64"),
        (ExprType::String, "String"),
        (ExprType::Bytes, "Bytes"),
        (ExprType::Float32, "Float32"),
        (ExprType::Float64, "Float64"),
        (ExprType::MysqlTime, "MysqlTime"),
        (ExprType::MysqlDuration, "MysqlDuration"),
        (ExprType::MysqlDecimal, "MysqlDecimal"),
        (ExprType::MysqlJson, "MysqlJson"),
    ];
    for (tp, name) in kinds {
        let (field, eval_type) = if name == "MysqlJson" {
            (FieldTypeTp::Duration, EvalType::Duration)
        } else {
            (FieldTypeTp::Json, EvalType::Json)
        };
        let e = refused(literal(tp, field, u64_bytes(1)));
        match &e {
            Error::UnexpectedEvalType {
                eval_type: got,
                expr_type,
            } => {
                assert_eq!(*got, eval_type);
                assert_eq!(expr_type.name(), name);
            }
            _ => panic!("{:?}", e),
        }
        assert_eq!(
            e.message().unwrap(),
            format!("Unexpected eval type {:?} for ExprType {}", eval_type, name)
        );
    }
}

#[test]
fn other_kinds_are_refused() {
    let tp = ExprType::Other("MysqlBit".to_string());
    let e = refused(literal(tp, FieldTypeTp::LongLong, vec![]));
    assert!(matches!(&e, Error::UnexpectedExprType(tp) if tp.name() == "MysqlBit"));
    assert_eq!(e.message().unwrap(), "Unexpected ExprType MysqlBit");
}

#[test]
fn argument_counts_are_checked() {
    let e = refused(call(GT_INT, FieldTypeTp::LongLong, vec![column(0)]));
    assert!(matches!(
        e,
        Error::UnexpectedArguments {
            expect: 2,
            received: 1
        }
    ));
    assert_eq!(
        e.message().unwrap(),
        "Unexpected arguments, expect 2, received 1"
    );

    let many = (0..1203).map(int_literal).collect();
    let e = refused(call(CAST_INT_AS_STRING, FieldTypeTp::LongLong, many));
    assert_eq!(
        e.message().unwrap(),
        "Unexpected arguments, expect 3, received 1203"
    );
}

#[test]
fn unknown_functions_are_refused() {
    let e = refused(call(ScalarFuncSig(-4), FieldTypeTp::LongLong, vec![]));
    assert!(matches!(&e, Error::External(reason) if reason == "no function -4"));

    let def = call(CAST_INT_AS_INT, FieldTypeTp::Double, vec![int_literal(1)]);
    let e = RpnExpressionNodeVec::<Sys>::build_from_def(def, 0).unwrap_err();
    assert!(matches!(&e, Error::External(reason) if reason == "no function 0"));
}

#[test]
fn nodes_before_a_failure_stay() {
    let mut nodes = vec![];
    RpnExpressionNodeVec::<Sys>::append_rpn_nodes_recursively(column(9), 0, &mut nodes, fn_mapper)
        .unwrap();
    let def = call(
        CAST_INT_AS_STRING,
        FieldTypeTp::LongLong,
        vec![
            column(1),
            call(
                GT_INT,
                FieldTypeTp::LongLong,
                vec![int_literal(2), literal(ExprType::Int64, FieldTypeTp::LongLong, vec![])],
            ),
            column(3),
        ],
    );
    let e = RpnExpressionNodeVec::append_rpn_nodes_recursively(def, 0, &mut nodes, fn_mapper)
        .unwrap_err();
    assert!(matches!(e, Error::Decode(EvalType::Int)));
    assert_eq!(names(&nodes), ["#9", "#1", "Int(Some(2))"]);
}

#[test]
fn building_twice_gives_the_same_list() {
    let a = list(nested_def(real_literal(1.0)));
    let b = list(nested_def(real_literal(1.0)));
    assert_eq!(names(&a), names(&b));
    assert_eq!(a.len(), 11);
}

#[test]
fn a_list_evaluates_like_its_tree() {
    let nodes = list(nested_def(real_literal(1.0)));
    let cols = columns(vec![]);
    let mut ctx = vec![];
    let ret = nodes.eval(&mut ctx, 2, &cols).unwrap();
    assert_eq!(ret.field_type().tp(), FieldTypeTp::Double);
    // 1.0 + (7 + 3 + 11) + (-1.5 + 100.12, rounded towards zero)
    assert_eq!(real_at(&ret, 0), Some(120.0));
    assert_eq!(real_at(&ret, 1), Some(120.0));
    // Arguments are evaluated before their function, first argument first.
    assert_eq!(ctx, ["FnC", "FnA", "FnB", "FnA", "FnD"]);

    let nodes = list(nested_def(literal(ExprType::Null, FieldTypeTp::Double, vec![])));
    let ret = nodes.eval(&mut ctx, 1, &cols).unwrap();
    assert_eq!(real_at(&ret, 0), None);
}

#[test]
fn evaluating_twice_gives_the_same_value() {
    let nodes = list(new_gt_int_def(0, 3));
    let cols = columns(vec![vec![Some(4), Some(3)]]);
    let a = nodes.eval(&mut vec![], 2, &cols).unwrap();
    let b = nodes.eval(&mut vec![], 2, &cols).unwrap();
    assert_eq!(as_int_slice(a.vector_value().unwrap()), &[Some(1), Some(0)]);
    assert_eq!(as_int_slice(b.vector_value().unwrap()), &[Some(1), Some(0)]);
}

#[test]
fn a_constant_evaluates_to_a_scalar() {
    let nodes = list(int_literal(5));
    let cols = columns(vec![]);
    let mut ctx = vec!["before".to_string()];
    let ret = nodes.eval(&mut ctx, 3, &cols).unwrap();
    assert_eq!(ctx, ["before"]);
    assert!(ret.is_scalar());
    assert!(!ret.is_vector());
    assert!(ret.vector_value().is_none());
    assert_eq!(as_int(ret.scalar_value().unwrap()), Some(5));
    assert_eq!(ret.field_type().tp(), FieldTypeTp::LongLong);
    assert!(matches!(
        ret.as_vector_like(),
        VectorLikeValueRef::Scalar(ScalarValue::Int(Some(5)))
    ));
}

#[test]
fn a_column_reference_evaluates_to_the_column() {
    let nodes = list(column(1));
    let cols = columns(vec![vec![], vec![Some(8), None]]);
    let ret = nodes.eval(&mut vec![], 2, &cols).unwrap();
    assert!(ret.is_vector());
    assert!(!ret.is_scalar());
    assert!(ret.scalar_value().is_none());
    assert!(matches!(
        &ret,
        RpnStackNode::Vector {
            value: RpnStackNodeVectorValue::Ref(_),
            ..
        }
    ));
    assert_eq!(as_int_slice(ret.vector_value().unwrap()), &[Some(8), None]);
    assert!(matches!(
        ret.as_vector_like(),
        VectorLikeValueRef::Vector(VectorValue::Int(_))
    ));
}

#[test]
fn a_function_result_is_owned() {
    let value: RpnStackNodeVectorValue<'_, Sys> =
        RpnStackNodeVectorValue::Owned(Box::new(VectorValue::Int(vec![Some(1)])));
    assert_eq!(as_int_slice(value.as_ref()), &[Some(1)]);

    let nodes = list(new_gt_int_def(0, 3));
    let cols = columns(vec![vec![Some(4)]]);
    let ret = nodes.eval(&mut vec![], 1, &cols).unwrap();
    assert!(matches!(
        &ret,
        RpnStackNode::Vector {
            value: RpnStackNodeVectorValue::Owned(_),
            ..
        }
    ));
}

#[test]
fn a_function_failure_ends_the_evaluation() {
    // FnC(1, Fail(), FnC(1, 2, 3))
    let inner = call(
        CAST_INT_AS_STRING,
        FieldTypeTp::LongLong,
        vec![int_literal(1), int_literal(2), int_literal(3)],
    );
    let nodes = list(call(
        CAST_INT_AS_STRING,
        FieldTypeTp::LongLong,
        vec![int_literal(1), call(FAIL, FieldTypeTp::LongLong, vec![]), inner],
    ));
    let cols = columns(vec![]);
    let mut ctx = vec![];
    let e = match nodes.eval(&mut ctx, 1, &cols) {
        Ok(_) => panic!("no failure"),
        Err(e) => e,
    };
    assert!(matches!(&e, Error::External(reason) if reason == "failed"));
    assert_eq!(ctx, ["Fail"]);
}

#[test]
fn what_comes_after_a_failure_is_not_looked_at() {
    // Neither is the column decoded, nor would one value be left.
    let mut nodes = list(call(FAIL, FieldTypeTp::LongLong, vec![]));
    nodes.extend(list(new_gt_int_def(0, 1)).drain(..));
    assert_eq!(names(&nodes), ["Fail", "#0", "Int(Some(1))", "RpnFnGTInt"]);
    let cols: LazyBatchColumnVec<Sys> =
        LazyBatchColumnVec::from(vec![LazyBatchColumn::Raw(vec![vec![1]])]);
    let mut outputs = [true];
    let e = nodes
        .eval_as_mysql_bools(&mut vec![], 1, &cols, &mut outputs)
        .unwrap_err();
    assert!(matches!(&e, Error::External(reason) if reason == "failed"));
    assert_eq!(outputs, [true]);
}

#[test]
fn functions_see_their_arguments_and_types() {
    let nodes = list(call(
        LOG,
        FieldTypeTp::Tiny,
        vec![real_literal(1.0), column(0)],
    ));
    let cols = columns(vec![vec![Some(1), Some(2)]]);
    let mut ctx = vec![];
    let ret = nodes.eval(&mut ctx, 2, &cols).unwrap();
    assert_eq!(as_int_slice(ret.vector_value().unwrap()), &[Some(0), Some(0)]);
    assert_eq!(
        ctx,
        [
            "2 rows, 2 args, Double and LongLong to Tiny",
            "true false false true"
        ]
    );
}

#[test]
fn getters_of_other_variants_give_nothing() {
    let nodes = list(new_gt_int_def(2, 10));
    assert!(nodes[0].constant_value().is_none());
    assert!(nodes[0].fn_func().is_none());
    assert_eq!(nodes[1].table_column_ref_offset(), None);
    assert!(nodes[1].fn_func().is_none());
    assert_eq!(nodes[2].table_column_ref_offset(), None);
    assert!(nodes[2].constant_value().is_none());
    assert_eq!(nodes[2].fn_func().unwrap().args_len(), 2);
}

#[test]
fn lists_print_their_nodes() {
    let nodes = list(column(2));
    assert!(format!("{:?}", nodes).contains("TableColumnRef { offset: 2"));
}

#[test]
fn lists_can_be_changed() {
    let mut nodes = list(new_gt_int_def(0, 10));
    let func = nodes.pop().unwrap();
    nodes.swap(0, 1);
    nodes.push(func);
    assert_eq!(names(&nodes), ["Int(Some(10))", "#0", "RpnFnGTInt"]);
    let cols = columns(vec![vec![Some(1), Some(11)]]);
    let ret = nodes.eval(&mut vec![], 2, &cols).unwrap();
    assert_eq!(as_int_slice(ret.vector_value().unwrap()), &[Some(1), Some(0)]);
}

#[test]
fn a_scalar_boolean_stands_for_every_row() {
    let cols = columns(vec![]);
    for (v, b) in vec![(5, true), (0, false)] {
        let nodes = list(int_literal(v));
        let mut ctx = vec![];
        let mut outputs = [!b; 4];
        nodes
            .eval_as_mysql_bools(&mut ctx, 3, &cols, &mut outputs)
            .unwrap();
        assert_eq!(outputs, [b, b, b, !b]);
        assert_eq!(ctx, ["bool"]);
    }
}

#[test]
fn a_vector_gives_a_boolean_for_each_row() {
    let nodes = list(new_gt_int_def(0, 10));
    let cols = columns(vec![vec![Some(11), None, Some(3), Some(40)]]);
    let mut ctx = vec![];
    let mut outputs = [true; 6];
    nodes
        .eval_as_mysql_bools(&mut ctx, 4, &cols, &mut outputs)
        .unwrap();
    assert_eq!(outputs, [true, false, false, true, true, true]);
    assert_eq!(ctx.len(), 4);
}

#[test]
fn failures_leave_the_rest_of_the_buffer() {
    // The evaluation fails.
    let cols = columns(vec![]);
    let nodes = list(call(FAIL, FieldTypeTp::LongLong, vec![]));
    let mut outputs = [true, false];
    let e = nodes
        .eval_as_mysql_bools(&mut vec![], 2, &cols, &mut outputs)
        .unwrap_err();
    assert!(matches!(&e, Error::External(reason) if reason == "failed"));
    assert_eq!(outputs, [true, false]);

    // The conversion of a scalar fails.
    let nodes = list(literal(ExprType::Bytes, FieldTypeTp::Blob, vec![1]));
    let e = nodes
        .eval_as_mysql_bools(&mut vec![], 2, &cols, &mut outputs)
        .unwrap_err();
    assert!(matches!(&e, Error::External(reason) if reason == "not a number"));
    assert_eq!(outputs, [true, false]);

    // The conversion of a row fails.
    let nodes = list(column(0));
    let cols: LazyBatchColumnVec<Sys> = LazyBatchColumnVec::from(vec![LazyBatchColumn::Decoded(
        VectorValue::Json(vec![None, None]),
    )]);
    let mut ctx = vec![];
    let e = nodes
        .eval_as_mysql_bools(&mut ctx, 2, &cols, &mut outputs)
        .unwrap_err();
    assert!(matches!(&e, Error::External(reason) if reason == "not a number"));
    assert_eq!(outputs, [true, false]);
    assert_eq!(ctx, ["bool"]);
}

#[test]
fn columns_of_every_type_give_their_rows() {
    let column: VectorValue<Sys> = VectorValue::Real(vec![Some(0.5f64.to_bits()), None]);
    assert_eq!(column.len(), 2);
    assert!(matches!(column.value_at(0), ScalarValueRef::Real(Some(_))));
    assert!(matches!(column.value_at(1), ScalarValueRef::Real(None)));
    let column: VectorValue<Sys> = VectorValue::Bytes(vec![Some(vec![1, 2])]);
    assert!(matches!(column.value_at(0), ScalarValueRef::Bytes(Some(v)) if *v == vec![1, 2]));
    let column: VectorValue<Sys> = VectorValue::Decimal(vec![Some(vec![3])]);
    assert!(matches!(column.value_at(0), ScalarValueRef::Decimal(Some(v)) if *v == vec![3]));
    let column: VectorValue<Sys> = VectorValue::Duration(vec![Some((1, 2))]);
    assert!(matches!(column.value_at(0), ScalarValueRef::Duration(Some((1, 2)))));
    let column: VectorValue<Sys> = VectorValue::DateTime(vec![None]);
    assert!(matches!(column.value_at(0), ScalarValueRef::DateTime(None)));
    let column: VectorValue<Sys> = VectorValue::Json(vec![Some("1".to_string())]);
    assert!(matches!(column.value_at(0), ScalarValueRef::Json(Some(v)) if v == "1"));
    assert_eq!(column.len(), 1);
}
