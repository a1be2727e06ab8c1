//! What holds of evaluating an expression list.
use crate::batch::LazyBatchColumn;
use crate::data_type::{DataTypes, VectorValue};
use crate::error::Error;
use crate::eval::{fills_rows, returned, runs, steps};
use crate::field_type::FieldType;
use crate::function::{BoxedFunction, RpnFunction};
use crate::node::RpnExpressionNode;
use crate::stack::RpnStackNode;
use vstd::prelude::*;

verus! {

/// Whether every call of `func` has one outcome only.
pub open spec fn single_valued<D: DataTypes>(func: BoxedFunction<D>) -> bool {
    forall|
        rows: usize,
        before: D::Context,
        args: Seq<RpnStackNode<'_, D>>,
        ret_type: FieldType,
        after_a: D::Context,
        result_a: Result<VectorValue<D>, Error<D::Error>>,
        after_b: D::Context,
        result_b: Result<VectorValue<D>, Error<D::Error>>,
    |
        #[trigger] func.outcome(rows, before, args, ret_type, after_a, result_a)
            && #[trigger] func.outcome(rows, before, args, ret_type, after_b, result_b) ==> after_a
            == after_b && result_a == result_b
}

/// When every function in a list has one outcome for every call, the list has one outcome too.
pub proof fn law_evaluation_is_determined<'a, D: DataTypes>(
    nodes: Seq<RpnExpressionNode<D>>,
    rows: usize,
    columns: Seq<LazyBatchColumn<D>>,
    stack: Seq<RpnStackNode<'a, D>>,
    before: D::Context,
    after_a: D::Context,
    out_a: Result<Seq<RpnStackNode<'a, D>>, Error<D::Error>>,
    after_b: D::Context,
    out_b: Result<Seq<RpnStackNode<'a, D>>, Error<D::Error>>,
)
    requires
        forall|i: int|
            0 <= i < nodes.len() ==> (#[trigger] nodes[i] matches RpnExpressionNode::Fn {
                func,
                field_type,
            } ==> single_valued(func)),
        runs(nodes, rows, columns, stack, before, after_a, out_a),
        runs(nodes, rows, columns, stack, before, after_b, out_b),
    ensures
        after_a == after_b,
        out_a == out_b,
    decreases nodes.len(),
{
    if nodes.len() > 0 {
        let head = nodes.drop_last();
        assert forall|i: int| 0 <= i < head.len() implies (
        #[trigger] head[i] matches RpnExpressionNode::Fn { func, field_type } ==> single_valued(
            func,
        )) by {
            assert(head[i] == nodes[i]);
        }
        let (mid_a, reached_a) = lemma_prefix_outcome(
            nodes,
            rows,
            columns,
            stack,
            before,
            after_a,
            out_a,
        );
        let (mid_b, reached_b) = lemma_prefix_outcome(
            nodes,
            rows,
            columns,
            stack,
            before,
            after_b,
            out_b,
        );
        law_evaluation_is_determined(
            head,
            rows,
            columns,
            stack,
            before,
            mid_a,
            reached_a,
            mid_b,
            reached_b,
        );
        assert(nodes[nodes.len() - 1] == nodes.last());
    }
}

/// A list without functions cannot fail, and leaves the context as it is.
pub proof fn law_without_functions<'a, D: DataTypes>(
    nodes: Seq<RpnExpressionNode<D>>,
    rows: usize,
    columns: Seq<LazyBatchColumn<D>>,
    stack: Seq<RpnStackNode<'a, D>>,
    before: D::Context,
    after: D::Context,
    out: Result<Seq<RpnStackNode<'a, D>>, Error<D::Error>>,
)
    requires
        forall|i: int| 0 <= i < nodes.len() ==> !(#[trigger] nodes[i] is Fn),
        runs(nodes, rows, columns, stack, before, after, out),
    ensures
        after == before,
        out is Ok,
    decreases nodes.len(),
{
    if nodes.len() > 0 {
        let (mid, reached) = lemma_prefix_outcome(
            nodes,
            rows,
            columns,
            stack,
            before,
            after,
            out,
        );
        assert forall|i: int| 0 <= i < nodes.len() - 1 implies !(
        #[trigger] nodes.drop_last()[i] is Fn) by {
            assert(nodes.drop_last()[i] == nodes[i]);
        }
        law_without_functions(nodes.drop_last(), rows, columns, stack, before, mid, reached);
        assert(!(nodes[nodes.len() - 1] is Fn));
    }
}

/// Whether no call of `func` ends with an error.
pub open spec fn never_fails<D: DataTypes>(func: BoxedFunction<D>) -> bool {
    forall|
        rows: usize,
        before: D::Context,
        args: Seq<RpnStackNode<'_, D>>,
        ret_type: FieldType,
        after: D::Context,
        result: Result<VectorValue<D>, Error<D::Error>>,
    | #[trigger]
        func.outcome(rows, before, args, ret_type, after, result) ==> result is Ok
}

/// Only functions make an evaluation fail.
pub proof fn law_only_functions_fail<'a, D: DataTypes>(
    nodes: Seq<RpnExpressionNode<D>>,
    rows: usize,
    columns: Seq<LazyBatchColumn<D>>,
    stack: Seq<RpnStackNode<'a, D>>,
    before: D::Context,
    after: D::Context,
    out: Result<Seq<RpnStackNode<'a, D>>, Error<D::Error>>,
)
    requires
        forall|i: int|
            0 <= i < nodes.len() ==> (#[trigger] nodes[i] matches RpnExpressionNode::Fn {
                func,
                field_type,
            } ==> never_fails(func)),
        runs(nodes, rows, columns, stack, before, after, out),
    ensures
        out is Ok,
    decreases nodes.len(),
{
    if nodes.len() > 0 {
        let head = nodes.drop_last();
        assert forall|i: int| 0 <= i < head.len() implies (
        #[trigger] head[i] matches RpnExpressionNode::Fn { func, field_type } ==> never_fails(
            func,
        )) by {
            assert(head[i] == nodes[i]);
        }
        let (mid, reached) = lemma_prefix_outcome(
            nodes,
            rows,
            columns,
            stack,
            before,
            after,
            out,
        );
        law_only_functions_fail(head, rows, columns, stack, before, mid, reached);
        assert(nodes[nodes.len() - 1] == nodes.last());
    }
}

/// Whether `node` leaves a scalar, or a vector of `rows` rows, whenever it succeeds.
pub open spec fn leaves_rows<D: DataTypes>(
    node: RpnExpressionNode<D>,
    rows: usize,
    columns: Seq<LazyBatchColumn<D>>,
) -> bool {
    match node {
        RpnExpressionNode::Constant { value, field_type } => true,
        RpnExpressionNode::TableColumnRef { offset, field_type } =>
            columns[offset as int]->Decoded_0.spec_len() == rows,
        RpnExpressionNode::Fn { func, field_type } => forall|
            before: D::Context,
            args: Seq<RpnStackNode<'_, D>>,
            after: D::Context,
            value: VectorValue<D>,
        | #[trigger]
            func.outcome(rows, before, args, field_type, after, Ok(value)) ==> value.spec_len()
                == rows,
    }
}

/// The last node of an expression list settles how many rows its value has.
pub proof fn law_last_node_fills_rows<D: DataTypes>(
    nodes: Seq<RpnExpressionNode<D>>,
    rows: usize,
    columns: Seq<LazyBatchColumn<D>>,
    before: D::Context,
)
    requires
        nodes.len() > 0,
        leaves_rows(nodes.last(), rows, columns),
    ensures
        fills_rows(nodes, rows, columns, before),
{
    assert forall|after: D::Context, node: RpnStackNode<'_, D>|
        #![trigger runs(nodes, rows, columns, Seq::empty(), before, after, Ok(seq![node]))]
        runs(nodes, rows, columns, Seq::empty(), before, after, Ok(seq![node])) implies (
    node matches RpnStackNode::Vector { value, field_type } ==> value.vector().spec_len()
        == rows) by {
        let (mid, reached) = lemma_prefix_outcome(
            nodes,
            rows,
            columns,
            Seq::empty(),
            before,
            after,
            Ok(seq![node]),
        );
        assert(seq![node].last() == node);
        assert(reached is Ok);
        if let RpnExpressionNode::Fn { func, field_type } = nodes.last() {
            let stack = reached->Ok_0;
            let begin = stack.len() - func.arity();
            let result = choose|result: Result<VectorValue<D>, Error<D::Error>>| #[trigger]
                func.outcome(rows, mid, stack.skip(begin), field_type, after, result) && returned(
                    stack.take(begin),
                    result,
                    field_type,
                ) == Ok::<_, Error<D::Error>>(seq![node]);
            assert(result == Ok::<_, Error<D::Error>>(result->Ok_0));
        }
    }
}

/// The outcome of all nodes but the last, in an evaluation with the outcome `out`.
pub proof fn lemma_prefix_outcome<'a, D: DataTypes>(
    nodes: Seq<RpnExpressionNode<D>>,
    rows: usize,
    columns: Seq<LazyBatchColumn<D>>,
    stack: Seq<RpnStackNode<'a, D>>,
    before: D::Context,
    after: D::Context,
    out: Result<Seq<RpnStackNode<'a, D>>, Error<D::Error>>,
) -> (r: (D::Context, Result<Seq<RpnStackNode<'a, D>>, Error<D::Error>>))
    requires
        nodes.len() > 0,
        runs(nodes, rows, columns, stack, before, after, out),
    ensures
        runs(nodes.drop_last(), rows, columns, stack, before, r.0, r.1),
        match r.1 {
            Ok(reached) => steps(nodes.last(), rows, columns, reached, r.0, after, out),
            Err(e) => r.0 == after && r.1 == out,
        },
{
    if out is Err && runs(nodes.drop_last(), rows, columns, stack, before, after, out) {
        (after, out)
    } else {
        let (mid, reached) = choose|mid: D::Context, reached: Seq<RpnStackNode<'a, D>>|
            runs(nodes.drop_last(), rows, columns, stack, before, mid, Ok(reached))
                && #[trigger] steps(nodes.last(), rows, columns, reached, mid, after, out);
        (mid, Ok(reached))
    }
}

} // verus!
