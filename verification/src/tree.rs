//! Expression trees: what an expression list stands for.
use crate::batch::LazyBatchColumn;
use crate::data_type::{DataTypes, VectorValue};
use crate::error::Error;
use crate::eval::{column_node, runs, steps};
use crate::field_type::FieldType;
use crate::function::{BoxedFunction, RpnFunction};
use crate::node::RpnExpressionNode;
use crate::stack::{RpnStackNode, RpnStackNodeVectorValue};
use vstd::prelude::*;

verus! {

/// An expression as a tree: a constant, a column reference, or a function call with the
/// expressions of its arguments.
#[verifier::reject_recursive_types(D)]
pub enum RpnTree<D: DataTypes> {
    Leaf(RpnExpressionNode<D>),
    Call { func: BoxedFunction<D>, field_type: FieldType, args: Seq<RpnTree<D>> },
}

/// Names the state between two parts of an evaluation.
pub open spec fn between<C, S>(context: C, values: S) -> bool {
    true
}

impl<D: DataTypes> RpnTree<D> {
    /// The number of arguments of a function call; none for a leaf.
    pub open spec fn arg_count(self) -> nat {
        match self {
            RpnTree::Leaf(node) => 0,
            RpnTree::Call { func, field_type, args } => args.len(),
        }
    }

    /// Whether no leaf is a function, and every function has as many arguments as it takes.
    pub open spec fn proper(self) -> bool
        decreases self,
    {
        match self {
            RpnTree::Leaf(node) => !(node is Fn),
            RpnTree::Call { func, field_type, args } => args.len() == func.arity() && forall|i: int|
                0 <= i < args.len() ==> (#[trigger] args[i]).proper(),
        }
    }

    /// The nodes of the tree in post-order: every argument, first argument first, and then the
    /// function that takes them.
    pub open spec fn flatten(self) -> Seq<RpnExpressionNode<D>>
        decreases self, self.arg_count() + 1,
    {
        match self {
            RpnTree::Leaf(node) => seq![node],
            RpnTree::Call { func, field_type, args } => self.flatten_args(args.len()).push(
                RpnExpressionNode::Fn { func, field_type },
            ),
        }
    }

    /// The nodes of the first `n` arguments of a function call.
    pub open spec fn flatten_args(self, n: nat) -> Seq<RpnExpressionNode<D>>
        decreases self, n,
    {
        if n == 0 || n > self.arg_count() {
            Seq::empty()
        } else {
            self.flatten_args((n - 1) as nat) + self->args[n - 1].flatten()
        }
    }

    /// Whether evaluating the tree in the context `before` may end with the value or the error
    /// `out`, and in the context `after`: the arguments of a function are evaluated first,
    /// first argument first, and an error ends the evaluation.
    pub open spec fn evaluates<'a>(
        self,
        rows: usize,
        columns: Seq<LazyBatchColumn<D>>,
        before: D::Context,
        after: D::Context,
        out: Result<RpnStackNode<'a, D>, Error<D::Error>>,
    ) -> bool
        decreases self, self.arg_count() + 1,
    {
        match self {
            RpnTree::Leaf(node) => after == before && match node {
                RpnExpressionNode::Constant { value, field_type } => out == Ok::<
                    _,
                    Error<D::Error>,
                >(RpnStackNode::Scalar { value: &value, field_type: &field_type }),
                RpnExpressionNode::TableColumnRef { offset, field_type } => out == Ok::<
                    _,
                    Error<D::Error>,
                >(column_node(columns, offset, field_type)),
                RpnExpressionNode::Fn { func, field_type } => false,
            },
            RpnTree::Call { func, field_type, args } => {
                ||| out matches Err(e) && self.evaluates_args(
                    args.len(),
                    rows,
                    columns,
                    before,
                    after,
                    Err::<Seq<RpnStackNode<'a, D>>, _>(e),
                )
                ||| exists|
                    mid: D::Context,
                    values: Seq<RpnStackNode<'a, D>>,
                    result: Result<VectorValue<D>, Error<D::Error>>,
                | #[trigger]
                    func.outcome(rows, mid, values, field_type, after, result)
                        && self.evaluates_args(args.len(), rows, columns, before, mid, Ok(values))
                        && out == match result {
                        Ok(value) => Ok(
                            RpnStackNode::Vector {
                                value: RpnStackNodeVectorValue::Owned(Box::new(value)),
                                field_type: &field_type,
                            },
                        ),
                        Err(e) => Err(e),
                    }
            },
        }
    }

    /// Whether evaluating the first `n` arguments of a function call may end with the values or
    /// the error `out`, and in the context `after`.
    pub open spec fn evaluates_args<'a>(
        self,
        n: nat,
        rows: usize,
        columns: Seq<LazyBatchColumn<D>>,
        before: D::Context,
        after: D::Context,
        out: Result<Seq<RpnStackNode<'a, D>>, Error<D::Error>>,
    ) -> bool
        decreases self, n,
    {
        if n == 0 || n > self.arg_count() {
            after == before && out == Ok::<_, Error<D::Error>>(Seq::<RpnStackNode<'a, D>>::empty())
        } else {
            let arg = self->args[n - 1];
            match out {
                Ok(values) => values.len() > 0 && exists|mid: D::Context| #[trigger]
                    between(mid, values.drop_last()) && self.evaluates_args(
                        (n - 1) as nat,
                        rows,
                        columns,
                        before,
                        mid,
                        Ok(values.drop_last()),
                    ) && arg.evaluates(rows, columns, mid, after, Ok(values.last())),
                Err(e) => {
                    ||| self.evaluates_args((n - 1) as nat, rows, columns, before, after, out)
                    ||| exists|mid: D::Context, values: Seq<RpnStackNode<'a, D>>| #[trigger]
                        between(mid, values) && self.evaluates_args(
                            (n - 1) as nat,
                            rows,
                            columns,
                            before,
                            mid,
                            Ok(values),
                        ) && arg.evaluates(
                            rows,
                            columns,
                            mid,
                            after,
                            Err::<RpnStackNode<'a, D>, _>(e),
                        )
                },
            }
        }
    }
}

/// Whether evaluating `a` and then `b` may end with the stack or the error `out`.
pub open spec fn runs_both<'a, D: DataTypes>(
    a: Seq<RpnExpressionNode<D>>,
    b: Seq<RpnExpressionNode<D>>,
    rows: usize,
    columns: Seq<LazyBatchColumn<D>>,
    stack: Seq<RpnStackNode<'a, D>>,
    before: D::Context,
    after: D::Context,
    out: Result<Seq<RpnStackNode<'a, D>>, Error<D::Error>>,
) -> bool {
    ||| out is Err && runs(a, rows, columns, stack, before, after, out)
    ||| exists|mid: D::Context, reached: Seq<RpnStackNode<'a, D>>| #[trigger]
        between(mid, reached) && runs(a, rows, columns, stack, before, mid, Ok(reached)) && runs(
            b,
            rows,
            columns,
            reached,
            mid,
            after,
            out,
        )
}

/// Two lists, one after the other, are evaluated one after the other.
pub proof fn law_concatenation<'a, D: DataTypes>(
    a: Seq<RpnExpressionNode<D>>,
    b: Seq<RpnExpressionNode<D>>,
    rows: usize,
    columns: Seq<LazyBatchColumn<D>>,
    stack: Seq<RpnStackNode<'a, D>>,
    before: D::Context,
    after: D::Context,
    out: Result<Seq<RpnStackNode<'a, D>>, Error<D::Error>>,
)
    ensures
        runs(a + b, rows, columns, stack, before, after, out) <==> runs_both(
            a,
            b,
            rows,
            columns,
            stack,
            before,
            after,
            out,
        ),
    decreases b.len(),
{
    if b.len() == 0 {
        assert(a + b =~= a);
        if runs(a, rows, columns, stack, before, after, out) && out is Ok {
            assert(out == Ok::<_, Error<D::Error>>(out->Ok_0));
            assert(between(after, out->Ok_0));
        }
    } else {
        let ab = a + b;
        let head = b.drop_last();
        assert(ab.drop_last() =~= a + head);
        assert(ab.last() == b.last());
        law_concatenation(a, head, rows, columns, stack, before, after, out);
        assert forall|mid: D::Context, reached: Seq<RpnStackNode<'a, D>>| runs(
            a + head,
            rows,
            columns,
            stack,
            before,
            mid,
            Ok(reached),
        ) <==> #[trigger] runs_both(
            a,
            head,
            rows,
            columns,
            stack,
            before,
            mid,
            Ok(reached),
        ) by {
            law_concatenation(a, head, rows, columns, stack, before, mid, Ok(reached));
        }
        if runs(ab, rows, columns, stack, before, after, out) {
            if out is Err && runs(a + head, rows, columns, stack, before, after, out) {
                // `a` fails, or `head` does.
            } else {
                let (end, last) = choose|end: D::Context, last: Seq<RpnStackNode<'a, D>>|
                    runs(ab.drop_last(), rows, columns, stack, before, end, Ok(last))
                        && #[trigger] steps(ab.last(), rows, columns, last, end, after, out);
                assert(runs_both(a, head, rows, columns, stack, before, end, Ok(last)));
                let (mid, reached) = choose|mid: D::Context, reached: Seq<RpnStackNode<'a, D>>|
                    #[trigger] between(mid, reached) && runs(
                        a,
                        rows,
                        columns,
                        stack,
                        before,
                        mid,
                        Ok(reached),
                    ) && runs(head, rows, columns, reached, mid, end, Ok(last));
                assert(steps(b.last(), rows, columns, last, end, after, out));
                assert(runs(b, rows, columns, reached, mid, after, out));
            }
            assert(runs_both(a, b, rows, columns, stack, before, after, out));
        }
        if runs_both(a, b, rows, columns, stack, before, after, out) {
            if out is Err && runs(a, rows, columns, stack, before, after, out) {
                assert(runs_both(a, head, rows, columns, stack, before, after, out));
            } else {
                let (mid, reached) = choose|mid: D::Context, reached: Seq<RpnStackNode<'a, D>>|
                    #[trigger] between(mid, reached) && runs(
                        a,
                        rows,
                        columns,
                        stack,
                        before,
                        mid,
                        Ok(reached),
                    ) && runs(b, rows, columns, reached, mid, after, out);
                if out is Err && runs(head, rows, columns, reached, mid, after, out) {
                    assert(between(mid, reached));
                    assert(runs_both(a, head, rows, columns, stack, before, after, out));
                } else {
                    let (end, last) = choose|end: D::Context, last: Seq<RpnStackNode<'a, D>>|
                        runs(head, rows, columns, reached, mid, end, Ok(last))
                            && #[trigger] steps(b.last(), rows, columns, last, end, after, out);
                    assert(between(mid, reached));
                    assert(runs_both(a, head, rows, columns, stack, before, end, Ok(last)));
                    assert(steps(ab.last(), rows, columns, last, end, after, out));
                }
            }
            assert(runs(ab, rows, columns, stack, before, after, out));
        }
    }
}

impl<D: DataTypes> RpnTree<D> {
    /// Whether evaluating the tree may put its value on top of `stack`, which gives the stack
    /// `out`, or may end with the error `out`.
    pub open spec fn pushes<'a>(
        self,
        rows: usize,
        columns: Seq<LazyBatchColumn<D>>,
        stack: Seq<RpnStackNode<'a, D>>,
        before: D::Context,
        after: D::Context,
        out: Result<Seq<RpnStackNode<'a, D>>, Error<D::Error>>,
    ) -> bool {
        match out {
            Ok(end) => end.len() > 0 && end.drop_last() == stack && self.evaluates(
                rows,
                columns,
                before,
                after,
                Ok(end.last()),
            ),
            Err(e) => self.evaluates(
                rows,
                columns,
                before,
                after,
                Err::<RpnStackNode<'a, D>, _>(e),
            ),
        }
    }

    /// Whether evaluating the first `n` arguments of a function call may put their values on top
    /// of `stack`, which gives the stack `out`, or may end with the error `out`.
    pub open spec fn pushes_args<'a>(
        self,
        n: nat,
        rows: usize,
        columns: Seq<LazyBatchColumn<D>>,
        stack: Seq<RpnStackNode<'a, D>>,
        before: D::Context,
        after: D::Context,
        out: Result<Seq<RpnStackNode<'a, D>>, Error<D::Error>>,
    ) -> bool {
        match out {
            Ok(end) => end.len() == stack.len() + n && end.take(stack.len() as int) == stack
                && self.evaluates_args(
                n,
                rows,
                columns,
                before,
                after,
                Ok(end.skip(stack.len() as int)),
            ),
            Err(e) => self.evaluates_args(n, rows, columns, before, after, out),
        }
    }
}

/// Evaluating the list of a tree is evaluating the tree: whatever lies on the stack stays there,
/// the value of the tree is put on top, and errors and contexts are the same.
pub proof fn law_list_evaluates_like_tree<'a, D: DataTypes>(
    tree: RpnTree<D>,
    rows: usize,
    columns: Seq<LazyBatchColumn<D>>,
    stack: Seq<RpnStackNode<'a, D>>,
    before: D::Context,
    after: D::Context,
    out: Result<Seq<RpnStackNode<'a, D>>, Error<D::Error>>,
)
    requires
        tree.proper(),
    ensures
        runs(tree.flatten(), rows, columns, stack, before, after, out) <==> tree.pushes(
            rows,
            columns,
            stack,
            before,
            after,
            out,
        ),
    decreases tree, tree.arg_count() + 1,
{
    let nodes = tree.flatten();
    match tree {
        RpnTree::Leaf(node) => {
            reveal_with_fuel(runs, 2);
            assert(nodes.drop_last() =~= Seq::empty());
            if runs(nodes, rows, columns, stack, before, after, out) {
                assert(out is Ok ==> out->Ok_0.drop_last() =~= stack);
            }
            if tree.pushes(rows, columns, stack, before, after, out) {
                assert(out->Ok_0 =~= stack.push(out->Ok_0.last()));
                assert(steps(nodes.last(), rows, columns, stack, before, after, out));
            }
        },
        RpnTree::Call { func, field_type, args } => {
            let n = args.len();
            let head = tree.flatten_args(n);
            assert(nodes.drop_last() =~= head);
            lemma_args_evaluate_like_tree(tree, n, rows, columns, stack, before, after, out);
            if runs(nodes, rows, columns, stack, before, after, out) {
                if out is Err && runs(head, rows, columns, stack, before, after, out) {
                } else {
                    let (mid, reached) = choose|mid: D::Context, reached: Seq<RpnStackNode<'a, D>>|
                        runs(nodes.drop_last(), rows, columns, stack, before, mid, Ok(reached))
                            && #[trigger] steps(
                            nodes.last(),
                            rows,
                            columns,
                            reached,
                            mid,
                            after,
                            out,
                        );
                    lemma_args_evaluate_like_tree(
                        tree,
                        n,
                        rows,
                        columns,
                        stack,
                        before,
                        mid,
                        Ok(reached),
                    );
                    assert(reached.len() - func.arity() == stack.len());
                    assert(out is Ok ==> out->Ok_0.drop_last() =~= stack);
                }
            }
            if tree.pushes(rows, columns, stack, before, after, out) {
                if out is Err && tree.evaluates_args(n, rows, columns, before, after, out) {
                } else {
                    let value: Result<RpnStackNode<'a, D>, Error<D::Error>> = match out {
                        Ok(end) => Ok(end.last()),
                        Err(e) => Err(e),
                    };
                    assert(tree.evaluates(rows, columns, before, after, value));
                    let (mid, values, result) = choose|
                        mid: D::Context,
                        values: Seq<RpnStackNode<'a, D>>,
                        result: Result<VectorValue<D>, Error<D::Error>>,
                    | #[trigger]
                        func.outcome(rows, mid, values, field_type, after, result)
                            && tree.evaluates_args(n, rows, columns, before, mid, Ok(values))
                            && value == match result {
                            Ok(value) => Ok(
                                RpnStackNode::Vector {
                                    value: RpnStackNodeVectorValue::Owned(Box::new(value)),
                                    field_type: &field_type,
                                },
                            ),
                            Err(e) => Err(e),
                        };
                    let reached = stack + values;
                    lemma_args_len(tree, n, rows, columns, before, mid, values);
                    assert(reached.take(stack.len() as int) =~= stack);
                    assert(reached.skip(stack.len() as int) =~= values);
                    lemma_args_evaluate_like_tree(
                        tree,
                        n,
                        rows,
                        columns,
                        stack,
                        before,
                        mid,
                        Ok(reached),
                    );
                    if out is Ok {
                        assert(out->Ok_0 =~= stack.push(out->Ok_0.last()));
                    }
                    assert(steps(nodes.last(), rows, columns, reached, mid, after, out));
                }
            }
        },
    }
}

/// Evaluating the first `n` arguments gives `n` values.
proof fn lemma_args_len<'a, D: DataTypes>(
    tree: RpnTree<D>,
    n: nat,
    rows: usize,
    columns: Seq<LazyBatchColumn<D>>,
    before: D::Context,
    after: D::Context,
    values: Seq<RpnStackNode<'a, D>>,
)
    requires
        n <= tree.arg_count(),
        tree.evaluates_args(n, rows, columns, before, after, Ok(values)),
    ensures
        values.len() == n,
    decreases n,
{
    if n > 0 {
        let mid = choose|mid: D::Context| #[trigger]
            between(mid, values.drop_last()) && tree.evaluates_args(
                (n - 1) as nat,
                rows,
                columns,
                before,
                mid,
                Ok(values.drop_last()),
            ) && tree->args[n - 1].evaluates(rows, columns, mid, after, Ok(values.last()));
        lemma_args_len(tree, (n - 1) as nat, rows, columns, before, mid, values.drop_last());
    }
}

/// Evaluating the list of the first `n` arguments is evaluating these arguments.
proof fn lemma_args_evaluate_like_tree<'a, D: DataTypes>(
    tree: RpnTree<D>,
    n: nat,
    rows: usize,
    columns: Seq<LazyBatchColumn<D>>,
    stack: Seq<RpnStackNode<'a, D>>,
    before: D::Context,
    after: D::Context,
    out: Result<Seq<RpnStackNode<'a, D>>, Error<D::Error>>,
)
    requires
        tree.proper(),
        n <= tree.arg_count(),
    ensures
        runs(tree.flatten_args(n), rows, columns, stack, before, after, out) <==> tree.pushes_args(
            n,
            rows,
            columns,
            stack,
            before,
            after,
            out,
        ),
    decreases tree, n,
{
    if n == 0 {
        if tree.pushes_args(n, rows, columns, stack, before, after, out) {
            assert(out is Ok);
            assert(out->Ok_0 =~= stack);
        }
        if runs(tree.flatten_args(n), rows, columns, stack, before, after, out) {
            assert(stack.take(stack.len() as int) =~= stack);
            assert(stack.skip(stack.len() as int) =~= Seq::empty());
        }
    } else {
        let head = tree.flatten_args((n - 1) as nat);
        let arg = tree->args[n - 1];
        let tail = arg.flatten();
        law_concatenation(head, tail, rows, columns, stack, before, after, out);
        lemma_args_evaluate_like_tree(
            tree,
            (n - 1) as nat,
            rows,
            columns,
            stack,
            before,
            after,
            out,
        );
        if runs(head + tail, rows, columns, stack, before, after, out) {
            if out is Err && runs(head, rows, columns, stack, before, after, out) {
            } else {
                let (mid, reached) = choose|mid: D::Context, reached: Seq<RpnStackNode<'a, D>>|
                    #[trigger] between(mid, reached) && runs(
                        head,
                        rows,
                        columns,
                        stack,
                        before,
                        mid,
                        Ok(reached),
                    ) && runs(tail, rows, columns, reached, mid, after, out);
                lemma_args_evaluate_like_tree(
                    tree,
                    (n - 1) as nat,
                    rows,
                    columns,
                    stack,
                    before,
                    mid,
                    Ok(reached),
                );
                law_list_evaluates_like_tree(arg, rows, columns, reached, mid, after, out);
                let values = reached.skip(stack.len() as int);
                assert(between(mid, values));
                if out is Ok {
                    let end = out->Ok_0;
                    let all = end.skip(stack.len() as int);
                    assert(end.take(stack.len() as int) =~= reached.take(stack.len() as int));
                    assert(all.drop_last() =~= values);
                    assert(all.last() == end.last());
                    assert(between(mid, all.drop_last()));
                    assert(tree.evaluates_args(
                        (n - 1) as nat,
                        rows,
                        columns,
                        before,
                        mid,
                        Ok(all.drop_last()),
                    ));
                    assert(arg.evaluates(rows, columns, mid, after, Ok(all.last())));
                    assert(tree.evaluates_args(n, rows, columns, before, after, Ok(all)));
                }
            }
            assert(tree.pushes_args(n, rows, columns, stack, before, after, out));
        }
        if tree.pushes_args(n, rows, columns, stack, before, after, out) {
            match out {
                Ok(end) => {
                    let all = end.skip(stack.len() as int);
                    let mid = choose|mid: D::Context| #[trigger]
                        between(mid, all.drop_last()) && tree.evaluates_args(
                            (n - 1) as nat,
                            rows,
                            columns,
                            before,
                            mid,
                            Ok(all.drop_last()),
                        ) && arg.evaluates(rows, columns, mid, after, Ok(all.last()));
                    let reached = end.drop_last();
                    assert(reached.take(stack.len() as int) =~= stack);
                    assert(reached.skip(stack.len() as int) =~= all.drop_last());
                    lemma_args_evaluate_like_tree(
                        tree,
                        (n - 1) as nat,
                        rows,
                        columns,
                        stack,
                        before,
                        mid,
                        Ok(reached),
                    );
                    law_list_evaluates_like_tree(arg, rows, columns, reached, mid, after, out);
                    assert(between(mid, reached));
                },
                Err(e) => {
                    if tree.evaluates_args((n - 1) as nat, rows, columns, before, after, out) {
                    } else {
                        let (mid, values) = choose|
                            mid: D::Context,
                            values: Seq<RpnStackNode<'a, D>>,
                        | #[trigger]
                            between(mid, values) && tree.evaluates_args(
                                (n - 1) as nat,
                                rows,
                                columns,
                                before,
                                mid,
                                Ok(values),
                            ) && arg.evaluates(
                                rows,
                                columns,
                                mid,
                                after,
                                Err::<RpnStackNode<'a, D>, _>(e),
                            );
                        let reached = stack + values;
                        lemma_args_len(
                            tree,
                            (n - 1) as nat,
                            rows,
                            columns,
                            before,
                            mid,
                            values,
                        );
                        assert(reached.take(stack.len() as int) =~= stack);
                        assert(reached.skip(stack.len() as int) =~= values);
                        lemma_args_evaluate_like_tree(
                            tree,
                            (n - 1) as nat,
                            rows,
                            columns,
                            stack,
                            before,
                            mid,
                            Ok(reached),
                        );
                        law_list_evaluates_like_tree(arg, rows, columns, reached, mid, after, out);
                        assert(between(mid, reached));
                    }
                },
            }
            assert(runs(head + tail, rows, columns, stack, before, after, out));
        }
        assert(tree.flatten_args(n) == head + tail);
    }
}

} // verus!
