//! What holds of the nodes of an expression list, one by one: what each of them does to the stack.
use crate::batch::LazyBatchColumn;
use crate::data_type::{DataTypes, ScalarValue, VectorValue};
use crate::error::Error;
use crate::eval::{runs, steps};
use crate::field_type::FieldType;
use crate::function::{BoxedFunction, RpnFunction};
use crate::laws::evaluation::lemma_prefix_outcome;
use crate::node::RpnExpressionNode;
use crate::stack::{RpnStackNode, RpnStackNodeVectorValue};
use crate::tree::between;
use vstd::prelude::*;

verus! {

/// Evaluating nothing leaves the stack and the context as they are.
pub proof fn law_empty_list<'a, D: DataTypes>(
    rows: usize,
    columns: Seq<LazyBatchColumn<D>>,
    stack: Seq<RpnStackNode<'a, D>>,
    before: D::Context,
    after: D::Context,
    out: Result<Seq<RpnStackNode<'a, D>>, Error<D::Error>>,
)
    ensures
        runs(Seq::empty(), rows, columns, stack, before, after, out) <==> after == before && out
            == Ok::<_, Error<D::Error>>(stack),
{
}

/// A constant puts its value on top of the stack, under its field type, and does nothing else.
pub proof fn law_constant<'a, D: DataTypes>(
    nodes: Seq<RpnExpressionNode<D>>,
    value: ScalarValue<D>,
    field_type: FieldType,
    rows: usize,
    columns: Seq<LazyBatchColumn<D>>,
    stack: Seq<RpnStackNode<'a, D>>,
    before: D::Context,
    after: D::Context,
    out: Result<Seq<RpnStackNode<'a, D>>, Error<D::Error>>,
)
    ensures
        runs(
            nodes.push(RpnExpressionNode::Constant { value, field_type }),
            rows,
            columns,
            stack,
            before,
            after,
            out,
        ) <==> match out {
            Ok(reached) => reached.len() > 0 && reached.last() == (RpnStackNode::Scalar {
                value: &value,
                field_type: &field_type,
            }) && runs(
                nodes,
                rows,
                columns,
                stack,
                before,
                after,
                Ok(reached.drop_last()),
            ),
            Err(e) => runs(nodes, rows, columns, stack, before, after, out),
        },
{
    let node = RpnExpressionNode::Constant { value, field_type };
    let all = nodes.push(node);
    assert(all.drop_last() =~= nodes);
    if let Ok(reached) = out {
        if runs(all, rows, columns, stack, before, after, out) {
            let (mid, prior) = lemma_prefix_outcome(
                all,
                rows,
                columns,
                stack,
                before,
                after,
                out,
            );
            assert(reached.drop_last() =~= prior->Ok_0);
        }
        if reached.len() > 0 && reached.last() == (RpnStackNode::Scalar {
            value: &value,
            field_type: &field_type,
        }) && runs(
            nodes,
            rows,
            columns,
            stack,
            before,
            after,
            Ok(reached.drop_last()),
        ) {
            assert(reached =~= reached.drop_last().push(reached.last()));
            assert(steps(all.last(), rows, columns, reached.drop_last(), after, after, out));
        }
    }
}

/// A column reference puts the column at its offset on top of the stack, under its own field type,
/// and does nothing else.
pub proof fn law_column_reference<'a, D: DataTypes>(
    nodes: Seq<RpnExpressionNode<D>>,
    offset: usize,
    field_type: FieldType,
    rows: usize,
    columns: Seq<LazyBatchColumn<D>>,
    stack: Seq<RpnStackNode<'a, D>>,
    before: D::Context,
    after: D::Context,
    out: Result<Seq<RpnStackNode<'a, D>>, Error<D::Error>>,
)
    requires
        offset < columns.len(),
        columns[offset as int] is Decoded,
    ensures
        runs(
            nodes.push(RpnExpressionNode::TableColumnRef { offset, field_type }),
            rows,
            columns,
            stack,
            before,
            after,
            out,
        ) <==> match out {
            Ok(reached) => reached.len() > 0 && reached.last() == (RpnStackNode::Vector {
                value: RpnStackNodeVectorValue::Ref(&columns[offset as int]->Decoded_0),
                field_type: &field_type,
            }) && runs(
                nodes,
                rows,
                columns,
                stack,
                before,
                after,
                Ok(reached.drop_last()),
            ),
            Err(e) => runs(nodes, rows, columns, stack, before, after, out),
        },
{
    let node = RpnExpressionNode::TableColumnRef { offset, field_type };
    let all = nodes.push(node);
    assert(all.drop_last() =~= nodes);
    if let Ok(reached) = out {
        if runs(all, rows, columns, stack, before, after, out) {
            let (mid, prior) = lemma_prefix_outcome(
                all,
                rows,
                columns,
                stack,
                before,
                after,
                out,
            );
            assert(reached.drop_last() =~= prior->Ok_0);
        }
        if reached.len() > 0 && reached.last() == (RpnStackNode::Vector {
                value: RpnStackNodeVectorValue::Ref(&columns[offset as int]->Decoded_0),
                field_type: &field_type,
            }) && runs(
            nodes,
            rows,
            columns,
            stack,
            before,
            after,
            Ok(reached.drop_last()),
        ) {
            assert(reached =~= reached.drop_last().push(reached.last()));
            assert(steps(all.last(), rows, columns, reached.drop_last(), after, after, out));
        }
    }
}

/// An expression that is one column reference gives the column at its offset: in every row, the
/// value that the batch holds there.
pub proof fn law_column_reference_gives_its_column<'a, D: DataTypes>(
    offset: usize,
    field_type: FieldType,
    rows: usize,
    columns: Seq<LazyBatchColumn<D>>,
    before: D::Context,
    after: D::Context,
    out: Result<Seq<RpnStackNode<'a, D>>, Error<D::Error>>,
)
    requires
        offset < columns.len(),
        columns[offset as int] is Decoded,
        runs(
            seq![RpnExpressionNode::TableColumnRef { offset, field_type }],
            rows,
            columns,
            Seq::empty(),
            before,
            after,
            out,
        ),
    ensures
        after == before,
        out matches Ok(values) && values.len() == 1 && (values[0] matches RpnStackNode::Vector {
            value: RpnStackNodeVectorValue::Ref(column),
            field_type: column_type,
        } && *column_type == field_type && match (*column, columns[offset as int]->Decoded_0) {
            (VectorValue::Int(a), VectorValue::Int(b)) => a@ =~= b@,
            (VectorValue::Real(a), VectorValue::Real(b)) => a@ =~= b@,
            (VectorValue::Decimal(a), VectorValue::Decimal(b)) => a@ =~= b@,
            (VectorValue::Bytes(a), VectorValue::Bytes(b)) => a@ =~= b@,
            (VectorValue::DateTime(a), VectorValue::DateTime(b)) => a@ =~= b@,
            (VectorValue::Duration(a), VectorValue::Duration(b)) => a@ =~= b@,
            (VectorValue::Json(a), VectorValue::Json(b)) => a@ =~= b@,
            _ => false,
        }),
{
    let none = Seq::<RpnExpressionNode<D>>::empty();
    let node = RpnExpressionNode::TableColumnRef { offset, field_type };
    assert(none.push(node) =~= seq![node]);
    law_column_reference(
        none,
        offset,
        field_type,
        rows,
        columns,
        Seq::empty(),
        before,
        after,
        out,
    );
    match out {
        Ok(values) => {
            law_empty_list(
                rows,
                columns,
                Seq::empty(),
                before,
                after,
                Ok::<_, Error<D::Error>>(values.drop_last()),
            );
            assert(values.drop_last().len() == 0);
            assert(values[0] == values.last());
        },
        Err(e) => {
            law_empty_list(rows, columns, Seq::empty(), before, after, out);
        },
    }
}

/// A function takes as many values off the top of the stack as it has arguments, is called on them
/// in the order in which they were put there, for the rows of the evaluation and under its own
/// field type, and puts its result in their place. The values below stay. Its error ends the
/// evaluation.
pub proof fn law_function_call<'a, D: DataTypes>(
    nodes: Seq<RpnExpressionNode<D>>,
    func: BoxedFunction<D>,
    field_type: FieldType,
    rows: usize,
    columns: Seq<LazyBatchColumn<D>>,
    stack: Seq<RpnStackNode<'a, D>>,
    before: D::Context,
    after: D::Context,
    out: Result<Seq<RpnStackNode<'a, D>>, Error<D::Error>>,
)
    requires
        forall|mid: D::Context, reached: Seq<RpnStackNode<'a, D>>|
            #![trigger runs(nodes, rows, columns, stack, before, mid, Ok(reached))]
            runs(nodes, rows, columns, stack, before, mid, Ok(reached)) ==> func.arity()
                <= reached.len(),
    ensures
        runs(
            nodes.push(RpnExpressionNode::Fn { func, field_type }),
            rows,
            columns,
            stack,
            before,
            after,
            out,
        ) <==> {
            ||| out is Err && runs(nodes, rows, columns, stack, before, after, out)
            ||| exists|
                mid: D::Context,
                below: Seq<RpnStackNode<'a, D>>,
                args: Seq<RpnStackNode<'a, D>>,
                result: Result<VectorValue<D>, Error<D::Error>>,
            |
                #[trigger] between(mid, below) && #[trigger] func.outcome(
                    rows,
                    mid,
                    args,
                    field_type,
                    after,
                    result,
                ) && args.len() == func.arity() && runs(
                    nodes,
                    rows,
                    columns,
                    stack,
                    before,
                    mid,
                    Ok(below + args),
                ) && match result {
                    Ok(value) => out == Ok::<_, Error<D::Error>>(
                        below.push(
                            RpnStackNode::Vector {
                                value: RpnStackNodeVectorValue::Owned(Box::new(value)),
                                field_type: &field_type,
                            },
                        ),
                    ),
                    Err(e) => out == Err::<Seq<RpnStackNode<'a, D>>, _>(e),
                }
        },
{
    let node = RpnExpressionNode::Fn { func, field_type };
    let all = nodes.push(node);
    assert(all.drop_last() =~= nodes);
    if runs(all, rows, columns, stack, before, after, out) {
        let (mid, prior) = lemma_prefix_outcome(all, rows, columns, stack, before, after, out);
        if let Ok(reached) = prior {
            let begin = reached.len() - func.arity();
            let below = reached.take(begin);
            let args = reached.skip(begin);
            let result = choose|result: Result<VectorValue<D>, Error<D::Error>>| #[trigger]
                func.outcome(rows, mid, args, field_type, after, result) && out
                    == crate::eval::returned(below, result, field_type);
            assert(below + args =~= reached);
            assert(between(mid, below));
            assert(func.outcome(rows, mid, args, field_type, after, result));
        }
    }
    if out is Err && runs(nodes, rows, columns, stack, before, after, out) {
        assert(runs(all, rows, columns, stack, before, after, out));
    }
    assert forall|
        mid: D::Context,
        below: Seq<RpnStackNode<'a, D>>,
        args: Seq<RpnStackNode<'a, D>>,
        result: Result<VectorValue<D>, Error<D::Error>>,
    |
        #[trigger] between(mid, below) && #[trigger] func.outcome(
            rows,
            mid,
            args,
            field_type,
            after,
            result,
        ) && args.len() == func.arity() && runs(
            nodes,
            rows,
            columns,
            stack,
            before,
            mid,
            Ok(below + args),
        ) && match result {
            Ok(value) => out == Ok::<_, Error<D::Error>>(
                below.push(
                    RpnStackNode::Vector {
                        value: RpnStackNodeVectorValue::Owned(Box::new(value)),
                        field_type: &field_type,
                    },
                ),
            ),
            Err(e) => out == Err::<Seq<RpnStackNode<'a, D>>, _>(e),
        } implies runs(all, rows, columns, stack, before, after, out) by {
        let reached = below + args;
        let begin = reached.len() - func.arity();
        assert(reached.take(begin) =~= below);
        assert(reached.skip(begin) =~= args);
        assert(steps(all.last(), rows, columns, reached, mid, after, out));
    }
}

} // verus!
