//! Evaluating an expression list over a batch of columns.
use crate::batch::{LazyBatchColumn, LazyBatchColumnVec};
use crate::data_type::{converts, AsMySQLBool, DataTypes, VectorValue};
use crate::error::Error;
use crate::field_type::FieldType;
use crate::function::RpnFunction;
use crate::node::{
    depth, lemma_supplied_prefix, supplied, well_formed, RpnExpressionNode, RpnExpressionNodeVec,
};
use crate::stack::{RpnFnCallPayload, RpnStackNode, RpnStackNodeVectorValue};
use vstd::prelude::*;

verus! {

/// Whether every column reference in `nodes` names a decoded column of `columns`.
pub open spec fn resolvable<D: DataTypes>(
    nodes: Seq<RpnExpressionNode<D>>,
    columns: Seq<LazyBatchColumn<D>>,
) -> bool {
    forall|i: int|
        0 <= i < nodes.len() ==> (#[trigger] nodes[i] matches RpnExpressionNode::TableColumnRef {
            offset,
            field_type,
        } ==> offset < columns.len() && columns[offset as int] is Decoded)
}

/// The stack node of the column at `offset`, with the field type `field_type`.
pub open spec fn column_node<'a, D: DataTypes>(
    columns: Seq<LazyBatchColumn<D>>,
    offset: usize,
    field_type: FieldType,
) -> RpnStackNode<'a, D> {
    RpnStackNode::Vector {
        value: RpnStackNodeVectorValue::Ref(&columns[offset as int]->Decoded_0),
        field_type: &field_type,
    }
}

/// The stack that a function call leaves: its arguments are gone, and its result, or the error,
/// takes their place.
pub open spec fn returned<'a, D: DataTypes>(
    below: Seq<RpnStackNode<'a, D>>,
    result: Result<VectorValue<D>, Error<D::Error>>,
    field_type: FieldType,
) -> Result<Seq<RpnStackNode<'a, D>>, Error<D::Error>> {
    match result {
        Ok(value) => Ok(
            below.push(
                RpnStackNode::Vector {
                    value: RpnStackNodeVectorValue::Owned(Box::new(value)),
                    field_type: &field_type,
                },
            ),
        ),
        Err(e) => Err(e),
    }
}

/// Whether evaluating `node` on the stack `stack` and in the context `before` may end with the
/// stack or the error `out`, and in the context `after`.
pub open spec fn steps<'a, D: DataTypes>(
    node: RpnExpressionNode<D>,
    rows: usize,
    columns: Seq<LazyBatchColumn<D>>,
    stack: Seq<RpnStackNode<'a, D>>,
    before: D::Context,
    after: D::Context,
    out: Result<Seq<RpnStackNode<'a, D>>, Error<D::Error>>,
) -> bool {
    match node {
        RpnExpressionNode::Constant { value, field_type } => {
            &&& after == before
            &&& out == Ok::<_, Error<D::Error>>(
                stack.push(RpnStackNode::Scalar { value: &value, field_type: &field_type }),
            )
        },
        RpnExpressionNode::TableColumnRef { offset, field_type } => {
            &&& after == before
            &&& out == Ok::<_, Error<D::Error>>(
                stack.push(column_node(columns, offset, field_type)),
            )
        },
        RpnExpressionNode::Fn { func, field_type } => {
            let begin = stack.len() - func.arity();
            exists|result: Result<VectorValue<D>, Error<D::Error>>| #[trigger]
                func.outcome(rows, before, stack.skip(begin), field_type, after, result) && out
                    == returned(stack.take(begin), result, field_type)
        },
    }
}

/// Whether evaluating `nodes`, first node first, starting with the stack `stack` and in the
/// context `before`, may end with the stack or the error `out`, and in the context `after`. An
/// error ends the evaluation.
pub open spec fn runs<'a, D: DataTypes>(
    nodes: Seq<RpnExpressionNode<D>>,
    rows: usize,
    columns: Seq<LazyBatchColumn<D>>,
    stack: Seq<RpnStackNode<'a, D>>,
    before: D::Context,
    after: D::Context,
    out: Result<Seq<RpnStackNode<'a, D>>, Error<D::Error>>,
) -> bool
    decreases nodes.len(),
{
    if nodes.len() == 0 {
        after == before && out == Ok::<_, Error<D::Error>>(stack)
    } else {
        ||| out is Err && runs(nodes.drop_last(), rows, columns, stack, before, after, out)
        ||| exists|mid: D::Context, reached: Seq<RpnStackNode<'a, D>>|
            runs(nodes.drop_last(), rows, columns, stack, before, mid, Ok(reached))
                && #[trigger] steps(nodes.last(), rows, columns, reached, mid, after, out)
    }
}

/// The number of values that an evaluation leaves on the stack goes by the nodes alone.
pub proof fn law_stack_depth<'a, D: DataTypes>(
    nodes: Seq<RpnExpressionNode<D>>,
    rows: usize,
    columns: Seq<LazyBatchColumn<D>>,
    stack: Seq<RpnStackNode<'a, D>>,
    before: D::Context,
    after: D::Context,
    reached: Seq<RpnStackNode<'a, D>>,
)
    requires
        supplied(nodes),
        runs(nodes, rows, columns, stack, before, after, Ok(reached)),
    ensures
        reached.len() == stack.len() + depth(nodes),
    decreases nodes.len(),
{
    if nodes.len() > 0 {
        let (mid, prior) = choose|mid: D::Context, prior: Seq<RpnStackNode<'a, D>>|
            runs(nodes.drop_last(), rows, columns, stack, before, mid, Ok(prior))
                && #[trigger] steps(nodes.last(), rows, columns, prior, mid, after, Ok(reached));
        lemma_supplied_prefix(nodes, nodes.len() - 1);
        law_stack_depth(nodes.drop_last(), rows, columns, stack, before, mid, prior);
        assert(nodes[nodes.len() - 1].takes() <= depth(nodes.take(nodes.len() - 1)));
        assert(nodes.take(nodes.len() - 1) =~= nodes.drop_last());
    }
}

/// Whether `node` finds what it needs: a function its arguments on the stack `stack`, a column
/// reference a decoded column of `columns`.
pub open spec fn ready<'a, D: DataTypes>(
    node: RpnExpressionNode<D>,
    columns: Seq<LazyBatchColumn<D>>,
    stack: Seq<RpnStackNode<'a, D>>,
) -> bool {
    match node {
        RpnExpressionNode::Constant { value, field_type } => true,
        RpnExpressionNode::TableColumnRef { offset, field_type } => offset < columns.len()
            && columns[offset as int] is Decoded,
        RpnExpressionNode::Fn { func, field_type } => func.arity() <= stack.len(),
    }
}

/// Whether no evaluation of `nodes` gets stuck: every node that is reached finds what it needs,
/// and one value is left when all have been evaluated.
pub open spec fn runnable<D: DataTypes>(
    nodes: Seq<RpnExpressionNode<D>>,
    rows: usize,
    columns: Seq<LazyBatchColumn<D>>,
    before: D::Context,
) -> bool {
    &&& forall|i: int, mid: D::Context, reached: Seq<RpnStackNode<'_, D>>|
        #![trigger runs(nodes.take(i), rows, columns, Seq::empty(), before, mid, Ok(reached))]
        0 <= i < nodes.len() && runs(
            nodes.take(i),
            rows,
            columns,
            Seq::empty(),
            before,
            mid,
            Ok(reached),
        ) ==> ready(nodes[i], columns, reached)
    &&& forall|after: D::Context, reached: Seq<RpnStackNode<'_, D>>|
        #![trigger runs(nodes, rows, columns, Seq::empty(), before, after, Ok(reached))]
        runs(nodes, rows, columns, Seq::empty(), before, after, Ok(reached)) ==> reached.len() == 1
}

/// An expression in Reverse Polish notation whose columns are decoded never gets stuck.
pub proof fn law_expression_is_runnable<D: DataTypes>(
    nodes: Seq<RpnExpressionNode<D>>,
    rows: usize,
    columns: Seq<LazyBatchColumn<D>>,
    before: D::Context,
)
    requires
        well_formed(nodes),
        resolvable(nodes, columns),
    ensures
        runnable(nodes, rows, columns, before),
{
    assert forall|i: int, mid: D::Context, reached: Seq<RpnStackNode<'_, D>>|
        #![trigger runs(nodes.take(i), rows, columns, Seq::empty(), before, mid, Ok(reached))]
        0 <= i < nodes.len() && runs(
            nodes.take(i),
            rows,
            columns,
            Seq::empty(),
            before,
            mid,
            Ok(reached),
        ) implies ready(nodes[i], columns, reached) by {
        lemma_supplied_prefix(nodes, i);
        law_stack_depth(nodes.take(i), rows, columns, Seq::empty(), before, mid, reached);
        assert(nodes[i].takes() <= depth(nodes.take(i)));
    }
    assert forall|after: D::Context, reached: Seq<RpnStackNode<'_, D>>|
        #![trigger runs(nodes, rows, columns, Seq::empty(), before, after, Ok(reached))]
        runs(nodes, rows, columns, Seq::empty(), before, after, Ok(reached)) implies reached.len()
        == 1 by {
        law_stack_depth(nodes, rows, columns, Seq::empty(), before, after, reached);
    }
}

/// An error in a prefix of a list ends the evaluation of the whole list.
proof fn lemma_error_ends_run<'a, D: DataTypes>(
    nodes: Seq<RpnExpressionNode<D>>,
    n: int,
    rows: usize,
    columns: Seq<LazyBatchColumn<D>>,
    stack: Seq<RpnStackNode<'a, D>>,
    before: D::Context,
    after: D::Context,
    out: Result<Seq<RpnStackNode<'a, D>>, Error<D::Error>>,
)
    requires
        0 <= n <= nodes.len(),
        out is Err,
        runs(nodes.take(n), rows, columns, stack, before, after, out),
    ensures
        runs(nodes, rows, columns, stack, before, after, out),
    decreases nodes.len() - n,
{
    if n == nodes.len() {
        assert(nodes.take(n) =~= nodes);
    } else {
        assert(nodes.take(n + 1).drop_last() =~= nodes.take(n));
        lemma_error_ends_run(nodes, n + 1, rows, columns, stack, before, after, out);
    }
}

impl<D: DataTypes> RpnExpressionNodeVec<D> {
    /// Evaluates the expression into a vector.
    ///
    /// The list must be an expression, and every column that it refers to must be decoded; only
    /// what comes after a failing function may be otherwise.
    pub fn eval<'a>(
        &'a self,
        context: &mut D::Context,
        rows: usize,
        columns: &'a LazyBatchColumnVec<D>,
    ) -> (r: Result<RpnStackNode<'a, D>, Error<D::Error>>)
        requires
            well_formed(self@) && resolvable(self@, columns@) || runnable(
                self@,
                rows,
                columns@,
                *old(context),
            ),
        ensures
            match r {
                Ok(node) => runs(
                    self@,
                    rows,
                    columns@,
                    Seq::empty(),
                    *old(context),
                    *final(context),
                    Ok(seq![node]),
                ),
                Err(e) => runs::<D>(
                    self@,
                    rows,
                    columns@,
                    Seq::empty(),
                    *old(context),
                    *final(context),
                    Err(e),
                ),
            },
    {
        proof {
            if well_formed(self@) && resolvable(self@, columns@) {
                law_expression_is_runnable(self@, rows, columns@, *context);
            }
        }
        let nodes = &**self;
        let mut stack: Vec<RpnStackNode<'a, D>> = Vec::with_capacity(nodes.len());
        assert(nodes@.take(0) =~= Seq::empty());
        for i in 0..nodes.len()
            invariant
                nodes@ == self@,
                runnable(nodes@, rows, columns@, *old(context)),
                runs(
                    nodes@.take(i as int),
                    rows,
                    columns@,
                    Seq::empty(),
                    *old(context),
                    *context,
                    Ok(stack@),
                ),
        {
            let ghost prior = stack@;
            let ghost mid = *context;
            proof {
                assert(nodes@.take(i + 1).drop_last() =~= nodes@.take(i as int));
                assert(ready(nodes@[i as int], columns@, stack@));
            }
            match &nodes[i] {
                RpnExpressionNode::Constant { value, field_type } => {
                    stack.push(RpnStackNode::Scalar { value, field_type });
                },
                RpnExpressionNode::TableColumnRef { offset, field_type } => {
                    let decoded_column = std::ops::Index::index(columns, *offset).decoded();
                    stack.push(
                        RpnStackNode::Vector {
                            value: RpnStackNodeVectorValue::Ref(decoded_column),
                            field_type,
                        },
                    );
                },
                RpnExpressionNode::Fn { func, field_type } => {
                    // Suppose that we have function call `Foo(A, B, C)`, the RPN nodes looks like
                    // `[A, B, C, Foo]`.
                    // Now we receives a function call `Foo`, so there are `[A, B, C]` in the stack
                    // as the last several elements. We will directly use the last N (N = number of
                    // arguments) elements in the stack as function arguments.
                    let stack_slice_begin = stack.len() - func.args_len();
                    let stack_slice = vstd::slice::slice_subrange(
                        stack.as_slice(),
                        stack_slice_begin,
                        stack.len(),
                    );
                    assert(stack_slice@ =~= prior.skip(stack_slice_begin as int));
                    let call_info = RpnFnCallPayload::new(stack_slice, field_type);
                    let ret = match func.eval(rows, context, call_info) {
                        Ok(ret) => ret,
                        Err(e) => {
                            proof {
                                assert(steps::<D>(
                                    nodes@.take(i + 1).last(),
                                    rows,
                                    columns@,
                                    prior,
                                    mid,
                                    *context,
                                    Err(e),
                                ));
                                lemma_error_ends_run::<D>(
                                    nodes@,
                                    i + 1,
                                    rows,
                                    columns@,
                                    Seq::empty(),
                                    *old(context),
                                    *context,
                                    Err(e),
                                );
                            }
                            return Err(e);
                        },
                    };
                    stack.truncate(stack_slice_begin);
                    stack.push(
                        RpnStackNode::Vector {
                            value: RpnStackNodeVectorValue::Owned(Box::new(ret)),
                            field_type,
                        },
                    );
                },
            }
            assert(steps(
                nodes@.take(i + 1).last(),
                rows,
                columns@,
                prior,
                mid,
                *context,
                Ok(stack@),
            ));
        }
        assert(nodes@.take(nodes@.len() as int) =~= nodes@);
        let ghost whole = stack@;
        match stack.pop() {
            Some(node) => {
                assert(whole =~= seq![node]);
                Ok(node)
            },
            None => vstd::pervasive::unreached(),
        }
    }
}

/// Whether every vector into which `nodes` may evaluate has `rows` rows.
pub open spec fn fills_rows<D: DataTypes>(
    nodes: Seq<RpnExpressionNode<D>>,
    rows: usize,
    columns: Seq<LazyBatchColumn<D>>,
    before: D::Context,
) -> bool {
    forall|after: D::Context, node: RpnStackNode<'_, D>|
        #![trigger runs(nodes, rows, columns, Seq::empty(), before, after, Ok(seq![node]))]
        runs(nodes, rows, columns, Seq::empty(), before, after, Ok(seq![node])) ==> (
        node matches RpnStackNode::Vector { value, field_type } ==> value.vector().spec_len()
            == rows)
}

/// Whether converting the value of `node` to booleans for `rows` rows may turn the buffer
/// `initial` into `outputs` and end with `res`: a scalar value stands for every row.
pub open spec fn node_converts<'a, D: AsMySQLBool>(
    node: RpnStackNode<'a, D>,
    rows: usize,
    before: D::Context,
    after: D::Context,
    initial: Seq<bool>,
    outputs: Seq<bool>,
    res: Result<(), Error<D::Error>>,
) -> bool {
    match node {
        RpnStackNode::Scalar { value, field_type } => exists|flag: Result<bool, Error<D::Error>>|
            #[trigger] D::bool_outcome(value.spec_value_ref(), before, after, flag) && match flag {
                Ok(b) => res is Ok && outputs == Seq::new(
                    initial.len(),
                    |i: int|
                        if i < rows {
                            b
                        } else {
                            initial[i]
                        },
                ),
                Err(e) => res == Err::<(), Error<D::Error>>(e) && outputs == initial,
            },
        RpnStackNode::Vector { value, field_type } => converts(
            value.vector(),
            rows as nat,
            before,
            after,
            initial,
            outputs,
            res,
        ),
    }
}

impl<D: AsMySQLBool> RpnExpressionNodeVec<D> {
    /// Evaluates the expression into a boolean vector.
    ///
    /// The list must be an expression that evaluates into a scalar or into a vector of `rows`
    /// rows, every column that it refers to must be decoded (only what comes after a failing
    /// function may be otherwise), and the output buffer must be large enough to contain all
    /// values.
    pub fn eval_as_mysql_bools(
        &self,
        context: &mut D::Context,
        rows: usize,
        columns: &LazyBatchColumnVec<D>,
        outputs: &mut [bool],  // modify an existing buffer to avoid repeated allocation
    ) -> (res: Result<(), Error<D::Error>>)
        requires
            well_formed(self@) && resolvable(self@, columns@) || runnable(
                self@,
                rows,
                columns@,
                *old(context),
            ),
            fills_rows(self@, rows, columns@, *old(context)),
            rows <= old(outputs)@.len(),
        ensures
            ({
                ||| res matches Err(e) && final(outputs)@ == old(outputs)@ && runs::<D>(
                    self@,
                    rows,
                    columns@,
                    Seq::empty(),
                    *old(context),
                    *final(context),
                    Err(e),
                )
                ||| exists|mid: D::Context, node: RpnStackNode<'_, D>|
                    runs(
                        self@,
                        rows,
                        columns@,
                        Seq::empty(),
                        *old(context),
                        mid,
                        Ok(seq![node]),
                    ) && #[trigger] node_converts(
                        node,
                        rows,
                        mid,
                        *final(context),
                        old(outputs)@,
                        final(outputs)@,
                        res,
                    )
            }),
            final(outputs)@.len() == old(outputs)@.len(),
            forall|i: int|
                rows <= i < old(outputs)@.len() ==> final(outputs)@[i] == old(outputs)@[i],
    {
        let ghost initial = outputs@;
        let values = match self.eval(context, rows, columns) {
            Ok(values) => values,
            Err(e) => return Err(e),
        };
        let ghost node = values;
        let ghost mid = *context;
        match &values {
            RpnStackNode::Scalar { value, .. } => {
                let b = match value.as_mysql_bool(context) {
                    Ok(b) => b,
                    Err(e) => {
                        assert(node_converts(node, rows, mid, *context, initial, outputs@, Err(e)));
                        return Err(e);
                    },
                };
                for i in 0..rows
                    invariant
                        outputs@.len() == initial.len(),
                        rows <= initial.len(),
                        forall|j: int| 0 <= j < i ==> outputs@[j] == b,
                        forall|j: int| i <= j < initial.len() ==> outputs@[j] == initial[j],
                {
                    outputs[i] = b;
                }
                assert(outputs@ =~= Seq::new(
                    initial.len(),
                    |i: int|
                        if i < rows {
                            b
                        } else {
                            initial[i]
                        },
                ));
                assert(node_converts(node, rows, mid, *context, initial, outputs@, Ok(())));
            },
            RpnStackNode::Vector { value, .. } => {
                let vec_ref = value.as_ref();
                match vec_ref.eval_as_mysql_bools(context, outputs) {
                    Ok(u) => {},
                    Err(e) => {
                        assert(node_converts(node, rows, mid, *context, initial, outputs@, Err(e)));
                        return Err(e);
                    },
                }
                assert(node_converts(node, rows, mid, *context, initial, outputs@, Ok(())));
            },
        }
        Ok(())
    }
}

} // verus!
