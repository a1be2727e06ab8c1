//! What holds of building an expression list from a definition.
use crate::batch::LazyBatchColumn;
use crate::builder::{
    emits, emits_args, law_emitted_list_is_well_formed, leaf_outcome, Mapping,
};
use crate::data_type::DataTypes;
use crate::error::Error;
use crate::eval::{law_expression_is_runnable, resolvable, runnable, runs};
use crate::expr::{Expr, ScalarFuncSig};
use crate::field_type::{EvalType, FieldTypeTp};
use crate::function::{BoxedFunction, RpnFunction};
use crate::laws::literals::has_eval_type;
use crate::node::{well_formed, RpnExpressionNode};
use crate::stack::RpnStackNode;
use crate::tree::{law_list_evaluates_like_tree, RpnTree};
use vstd::prelude::*;

verus! {

/// Whether `tree` is the expression that `def` defines: a function call is one with the function
/// to which its signature maps, and with the expressions of its arguments; every other definition
/// is a leaf.
pub open spec fn represents<D: DataTypes>(
    def: Expr,
    time_zone: D::Tz,
    mapping: Mapping<D>,
    tree: RpnTree<D>,
) -> bool
    decreases def,
{
    exists|eval_type: EvalType| #[trigger]
        call_ensures(
            D::eval_type,
            (def.field_type.tp,),
            Ok::<EvalType, D::Error>(eval_type),
        ) && match tree {
            RpnTree::Leaf(node) => !(def.tp is ScalarFunc) && leaf_outcome::<D>(
                def,
                eval_type,
                time_zone,
                Ok(node),
            ),
            RpnTree::Call { func, field_type, args } => {
                &&& def.tp is ScalarFunc
                &&& mapping(def.sig, Ok::<BoxedFunction<D>, Error<D::Error>>(func))
                &&& field_type == def.field_type
                &&& args.len() == def.children@.len()
                &&& forall|i: int|
                    0 <= i < def.children@.len() ==> represents(
                        #[trigger] def.children@[i],
                        time_zone,
                        mapping,
                        args[i],
                    )
            },
        }
}

/// The list that is built from a definition is the post-order of the expression tree that the
/// definition defines.
pub proof fn law_built_list_is_post_order<D: DataTypes>(
    def: Expr,
    time_zone: D::Tz,
    mapping: Mapping<D>,
    out: Seq<RpnExpressionNode<D>>,
) -> (tree: RpnTree<D>)
    requires
        emits(def, time_zone, mapping, out, Ok(())),
    ensures
        represents(def, time_zone, mapping, tree),
        tree.proper(),
        tree.flatten() == out,
    decreases def, def.children@.len() + 1,
{
    let res: Result<(), Error<D::Error>> = Ok(());
    let eval_type = choose|eval_type: Result<EvalType, D::Error>| #[trigger]
        call_ensures(D::eval_type, (def.field_type.tp,), eval_type) && eval_type is Ok && (!(
        def.tp is ScalarFunc) ==> leaf_outcome::<D>(
            def,
            eval_type->Ok_0,
            time_zone,
            Ok(out[0]),
        ));
    assert(eval_type == Ok::<EvalType, D::Error>(eval_type->Ok_0));
    if def.tp is ScalarFunc {
        let n = def.children@.len();
        let func = choose|func: Result<BoxedFunction<D>, Error<D::Error>>| #[trigger]
            mapping(def.sig, func) && func is Ok && func->Ok_0.arity() == n
                && out.len() > 0 && out.last() == (RpnExpressionNode::Fn {
                func: func->Ok_0,
                field_type: def.field_type,
            }) && emits_args(def, n, time_zone, mapping, out.drop_last(), res);
        assert(func == Ok::<BoxedFunction<D>, Error<D::Error>>(func->Ok_0));
        let args = lemma_built_args(def, n, time_zone, mapping, out.drop_last(), func->Ok_0);
        let tree = RpnTree::Call { func: func->Ok_0, field_type: def.field_type, args };
        assert(out.drop_last().push(out.last()) =~= out);
        tree
    } else {
        assert(out =~= seq![out[0]]);
        RpnTree::Leaf(out[0])
    }
}

/// The trees of the first `n` arguments of a definition, for any function.
proof fn lemma_built_args<D: DataTypes>(
    def: Expr,
    n: nat,
    time_zone: D::Tz,
    mapping: Mapping<D>,
    out: Seq<RpnExpressionNode<D>>,
    func: BoxedFunction<D>,
) -> (args: Seq<RpnTree<D>>)
    requires
        n <= def.children@.len(),
        emits_args(def, n, time_zone, mapping, out, Ok(())),
    ensures
        args.len() == n,
        forall|i: int|
            0 <= i < n ==> (#[trigger] args[i]).proper() && represents(
                def.children@[i],
                time_zone,
                mapping,
                args[i],
            ),
        (RpnTree::Call { func, field_type: def.field_type, args }).flatten_args(n) == out,
    decreases def, n,
{
    if n == 0 {
        assert(out =~= Seq::empty());
        Seq::empty()
    } else {
        let k = choose|k: int|
            0 <= k <= out.len() && emits_args(
                def,
                (n - 1) as nat,
                time_zone,
                mapping,
                #[trigger] out.take(k),
                Ok(()),
            ) && emits(def.children@[n - 1], time_zone, mapping, out.skip(k), Ok(()));
        let before = lemma_built_args(
            def,
            (n - 1) as nat,
            time_zone,
            mapping,
            out.take(k),
            func,
        );
        let last = law_built_list_is_post_order(
            def.children@[n - 1],
            time_zone,
            mapping,
            out.skip(k),
        );
        let args = before.push(last);
        let short = RpnTree::Call { func, field_type: def.field_type, args: before };
        let tree = RpnTree::Call { func, field_type: def.field_type, args };
        lemma_same_first_args(short, tree, (n - 1) as nat);
        assert(out.take(k) + out.skip(k) =~= out);
        args
    }
}

/// The list of the first `n` arguments goes by these arguments alone.
proof fn lemma_same_first_args<D: DataTypes>(a: RpnTree<D>, b: RpnTree<D>, n: nat)
    requires
        n <= a.arg_count(),
        n <= b.arg_count(),
        forall|i: int| 0 <= i < n ==> #[trigger] a->args[i] == b->args[i],
    ensures
        a.flatten_args(n) == b.flatten_args(n),
    decreases n,
{
    if n > 0 {
        lemma_same_first_args(a, b, (n - 1) as nat);
        assert(a->args[n - 1] == b->args[n - 1]);
    }
}

/// The post-order of the expression tree that a definition defines may be built from it.
pub proof fn law_post_order_is_built<D: DataTypes>(
    def: Expr,
    time_zone: D::Tz,
    mapping: Mapping<D>,
    tree: RpnTree<D>,
)
    requires
        represents(def, time_zone, mapping, tree),
        tree.proper(),
    ensures
        emits(def, time_zone, mapping, tree.flatten(), Ok(())),
    decreases def, def.children@.len() + 1,
{
    let out = tree.flatten();
    let eval_type = choose|eval_type: EvalType| #[trigger]
        call_ensures(
            D::eval_type,
            (def.field_type.tp,),
            Ok::<EvalType, D::Error>(eval_type),
        ) && (tree matches RpnTree::Leaf(node) ==> leaf_outcome::<D>(
            def,
            eval_type,
            time_zone,
            Ok(node),
        ));
    assert(call_ensures(
        D::eval_type,
        (def.field_type.tp,),
        Ok::<EvalType, D::Error>(eval_type),
    ));
    match tree {
        RpnTree::Leaf(node) => {
            assert(out[0] == node);
        },
        RpnTree::Call { func, field_type, args } => {
            lemma_post_order_of_args_is_built(def, args.len(), time_zone, mapping, tree);
            assert(out.drop_last() =~= tree.flatten_args(args.len()));
            assert(mapping(def.sig, Ok::<BoxedFunction<D>, Error<D::Error>>(func)));
        },
    }
}

/// The nodes of the first `n` arguments may be built from these arguments.
proof fn lemma_post_order_of_args_is_built<D: DataTypes>(
    def: Expr,
    n: nat,
    time_zone: D::Tz,
    mapping: Mapping<D>,
    tree: RpnTree<D>,
)
    requires
        represents(def, time_zone, mapping, tree),
        tree is Call,
        tree.proper(),
        n <= tree.arg_count(),
    ensures
        emits_args(def, n, time_zone, mapping, tree.flatten_args(n), Ok(())),
    decreases def, n,
{
    if n > 0 {
        let head = tree.flatten_args((n - 1) as nat);
        let tail = tree->args[n - 1].flatten();
        let out = tree.flatten_args(n);
        lemma_post_order_of_args_is_built(def, (n - 1) as nat, time_zone, mapping, tree);
        assert(represents(def.children@[n - 1], time_zone, mapping, tree->args[n - 1]));
        law_post_order_is_built(def.children@[n - 1], time_zone, mapping, tree->args[n - 1]);
        assert(out.take(head.len() as int) =~= head);
        assert(out.skip(head.len() as int) =~= tail);
    }
}

/// Evaluating the list that is built from a definition is evaluating the expression tree that the
/// definition defines.
pub proof fn law_built_list_evaluates_definition<D: DataTypes>(
    def: Expr,
    time_zone: D::Tz,
    mapping: Mapping<D>,
    out: Seq<RpnExpressionNode<D>>,
) -> (tree: RpnTree<D>)
    requires
        emits(def, time_zone, mapping, out, Ok(())),
    ensures
        represents(def, time_zone, mapping, tree),
        forall|
            rows: usize,
            columns: Seq<LazyBatchColumn<D>>,
            before: D::Context,
            after: D::Context,
            end: Result<Seq<RpnStackNode<'_, D>>, Error<D::Error>>,
        | #[trigger]
            runs(out, rows, columns, Seq::empty(), before, after, end) <==> tree.pushes(
                rows,
                columns,
                Seq::empty(),
                before,
                after,
                end,
            ),
{
    let tree = law_built_list_is_post_order(def, time_zone, mapping, out);
    assert forall|
        rows: usize,
        columns: Seq<LazyBatchColumn<D>>,
        before: D::Context,
        after: D::Context,
        end: Result<Seq<RpnStackNode<'_, D>>, Error<D::Error>>,
    | #[trigger]
        runs(out, rows, columns, Seq::empty(), before, after, end) <==> tree.pushes(
            rows,
            columns,
            Seq::empty(),
            before,
            after,
            end,
        ) by {
        law_list_evaluates_like_tree(tree, rows, columns, Seq::empty(), before, after, end);
    }
    tree
}

/// Whether nothing in `def` can be refused: every field type has an evaluation type, every
/// literal decodes, and every function is known and has as many arguments as it takes.
pub open spec fn acceptable<D: DataTypes>(
    def: Expr,
    time_zone: D::Tz,
    mapping: Mapping<D>,
) -> bool
    decreases def,
{
    &&& forall|eval_type: Result<EvalType, D::Error>| #[trigger]
        call_ensures(D::eval_type, (def.field_type.tp,), eval_type) ==> eval_type is Ok && (!(
        def.tp is ScalarFunc) ==> forall|leaf: Result<RpnExpressionNode<D>, Error<D::Error>>|
            #[trigger]
            leaf_outcome::<D>(def, eval_type->Ok_0, time_zone, leaf) ==> leaf is Ok)
    &&& def.tp is ScalarFunc ==> {
        &&& forall|func: Result<BoxedFunction<D>, Error<D::Error>>| #[trigger]
            mapping(def.sig, func) ==> func is Ok && func->Ok_0.arity()
                == def.children@.len()
        &&& forall|i: int|
            0 <= i < def.children@.len() ==> acceptable(
                #[trigger] def.children@[i],
                time_zone,
                mapping,
            )
    }
}

/// A definition in which nothing can be refused is built.
pub proof fn law_acceptable_definition_is_built<D: DataTypes>(
    def: Expr,
    time_zone: D::Tz,
    mapping: Mapping<D>,
    out: Seq<RpnExpressionNode<D>>,
    res: Result<(), Error<D::Error>>,
)
    requires
        acceptable(def, time_zone, mapping),
        emits(def, time_zone, mapping, out, res),
    ensures
        res is Ok,
    decreases def, def.children@.len() + 1,
{
    if def.tp is ScalarFunc && res is Err {
        lemma_acceptable_args_are_built(
            def,
            def.children@.len(),
            time_zone,
            mapping,
            out,
            res,
        );
    }
}

/// The arguments of a definition in which nothing can be refused are built.
proof fn lemma_acceptable_args_are_built<D: DataTypes>(
    def: Expr,
    n: nat,
    time_zone: D::Tz,
    mapping: Mapping<D>,
    out: Seq<RpnExpressionNode<D>>,
    res: Result<(), Error<D::Error>>,
)
    requires
        def.tp is ScalarFunc,
        n <= def.children@.len(),
        acceptable(def, time_zone, mapping),
        emits_args(def, n, time_zone, mapping, out, res),
    ensures
        res is Ok,
    decreases def, n,
{
    if n > 0 {
        let (k, mid) = lemma_first_args(def, n, time_zone, mapping, out, res);
        lemma_acceptable_args_are_built(
            def,
            (n - 1) as nat,
            time_zone,
            mapping,
            out.take(k),
            mid,
        );
        law_acceptable_definition_is_built(
            def.children@[n - 1],
            time_zone,
            mapping,
            out.skip(k),
            res,
        );
    }
}

/// Whether every conversion and every function lookup has one outcome only.
pub open spec fn settled<D: DataTypes>(mapping: Mapping<D>) -> bool {
    &&& forall|tp: FieldTypeTp, a: Result<EvalType, D::Error>, b: Result<EvalType, D::Error>|
        #[trigger] call_ensures(D::eval_type, (tp,), a) && #[trigger] call_ensures(
            D::eval_type,
            (tp,),
            b,
        ) ==> a == b
    &&& forall|tp: FieldTypeTp, a: Result<D::TimeType, D::Error>, b: Result<D::TimeType, D::Error>|
        #[trigger] call_ensures(D::time_type, (tp,), a) && #[trigger] call_ensures(
            D::time_type,
            (tp,),
            b,
        ) ==> a == b
    &&& forall|
        packed: u64,
        time_type: D::TimeType,
        fsp: i8,
        time_zone: D::Tz,
        a: Result<D::Time, D::Error>,
        b: Result<D::Time, D::Error>,
    |
        #[trigger] call_ensures(D::time_from_packed_u64, (packed, time_type, fsp, time_zone), a)
            && #[trigger] call_ensures(
            D::time_from_packed_u64,
            (packed, time_type, fsp, time_zone),
            b,
        ) ==> a == b
    &&& forall|
        nanos: i64,
        fsp: i8,
        a: Result<D::Duration, D::Error>,
        b: Result<D::Duration, D::Error>,
    |
        #[trigger] call_ensures(D::duration_from_nanos, (nanos, fsp), a)
            && #[trigger] call_ensures(D::duration_from_nanos, (nanos, fsp), b) ==> a == b
    &&& forall|data: &Vec<u8>, a: Result<D::Decimal, D::Error>, b: Result<D::Decimal, D::Error>|
        #[trigger] call_ensures(D::decode_decimal, (data,), a) && #[trigger] call_ensures(
            D::decode_decimal,
            (data,),
            b,
        ) ==> a == b
    &&& forall|data: &Vec<u8>, a: Result<D::Json, D::Error>, b: Result<D::Json, D::Error>|
        #[trigger] call_ensures(D::decode_json, (data,), a) && #[trigger] call_ensures(
            D::decode_json,
            (data,),
            b,
        ) ==> a == b
    &&& forall|
        sig: ScalarFuncSig,
        a: Result<BoxedFunction<D>, Error<D::Error>>,
        b: Result<BoxedFunction<D>, Error<D::Error>>,
    |
        #[trigger] mapping(sig, a) && #[trigger] mapping(sig, b) ==> a == b
}

/// When every conversion and every function lookup has one outcome, a definition is built into
/// one list, or refused with one error.
pub proof fn law_building_is_determined<D: DataTypes>(
    def: Expr,
    time_zone: D::Tz,
    mapping: Mapping<D>,
    out_a: Seq<RpnExpressionNode<D>>,
    res_a: Result<(), Error<D::Error>>,
    out_b: Seq<RpnExpressionNode<D>>,
    res_b: Result<(), Error<D::Error>>,
)
    requires
        settled(mapping),
        emits(def, time_zone, mapping, out_a, res_a),
        emits(def, time_zone, mapping, out_b, res_b),
    ensures
        out_a == out_b,
        res_a == res_b,
    decreases def, def.children@.len() + 1,
{
    if def.tp is ScalarFunc {
        let n = def.children@.len();
        let args_a = if res_a is Ok {
            out_a.drop_last()
        } else {
            out_a
        };
        let args_b = if res_b is Ok {
            out_b.drop_last()
        } else {
            out_b
        };
        if emits_args(def, n, time_zone, mapping, args_a, res_a) && emits_args(
            def,
            n,
            time_zone,
            mapping,
            args_b,
            res_b,
        ) {
            lemma_args_are_determined(
                def,
                n,
                time_zone,
                mapping,
                args_a,
                res_a,
                args_b,
                res_b,
            );
        }
        if res_a is Ok {
            assert(out_a.drop_last().push(out_a.last()) =~= out_a);
            assert(out_b.drop_last().push(out_b.last()) =~= out_b);
        }
    }
    assert(out_a =~= out_b);
    if let (Ok(u), Ok(w)) = (res_a, res_b) {
        assert(u == () && w == ());
    }
}

/// The arguments of a definition are built into one list, or refused with one error.
proof fn lemma_args_are_determined<D: DataTypes>(
    def: Expr,
    n: nat,
    time_zone: D::Tz,
    mapping: Mapping<D>,
    out_a: Seq<RpnExpressionNode<D>>,
    res_a: Result<(), Error<D::Error>>,
    out_b: Seq<RpnExpressionNode<D>>,
    res_b: Result<(), Error<D::Error>>,
)
    requires
        settled(mapping),
        n <= def.children@.len(),
        emits_args(def, n, time_zone, mapping, out_a, res_a),
        emits_args(def, n, time_zone, mapping, out_b, res_b),
    ensures
        out_a == out_b,
        res_a == res_b,
    decreases def, n,
{
    if n == 0 {
        assert(out_a =~= out_b);
    } else {
        let k = (n - 1) as nat;
        let (head_a, mid_a) = lemma_first_args(def, n, time_zone, mapping, out_a, res_a);
        let (head_b, mid_b) = lemma_first_args(def, n, time_zone, mapping, out_b, res_b);
        lemma_args_are_determined(
            def,
            k,
            time_zone,
            mapping,
            out_a.take(head_a),
            mid_a,
            out_b.take(head_b),
            mid_b,
        );
        if mid_a is Ok {
            law_building_is_determined(
                def.children@[n - 1],
                time_zone,
                mapping,
                out_a.skip(head_a),
                res_a,
                out_b.skip(head_b),
                res_b,
            );
            assert(out_a =~= out_a.take(head_a) + out_a.skip(head_a));
            assert(out_b =~= out_b.take(head_b) + out_b.skip(head_b));
        } else {
            assert(out_a =~= out_a.take(head_a));
            assert(out_b =~= out_b.take(head_b));
        }
    }
    if let (Ok(u), Ok(w)) = (res_a, res_b) {
        assert(u == () && w == ());
    }
}

/// How far the first `n - 1` arguments reach in what the first `n` append, and how they end.
proof fn lemma_first_args<D: DataTypes>(
    def: Expr,
    n: nat,
    time_zone: D::Tz,
    mapping: Mapping<D>,
    out: Seq<RpnExpressionNode<D>>,
    res: Result<(), Error<D::Error>>,
) -> (r: (int, Result<(), Error<D::Error>>))
    requires
        0 < n <= def.children@.len(),
        emits_args(def, n, time_zone, mapping, out, res),
    ensures
        0 <= r.0 <= out.len(),
        emits_args(def, (n - 1) as nat, time_zone, mapping, out.take(r.0), r.1),
        match r.1 {
            Ok(u) => emits(def.children@[n - 1], time_zone, mapping, out.skip(r.0), res),
            Err(e) => r.0 == out.len() && r.1 == res,
        },
{
    if res is Err && emits_args(def, (n - 1) as nat, time_zone, mapping, out, res) {
        assert(out.take(out.len() as int) =~= out);
        (out.len() as int, res)
    } else {
        let k = choose|k: int|
            0 <= k <= out.len() && emits_args(
                def,
                (n - 1) as nat,
                time_zone,
                mapping,
                #[trigger] out.take(k),
                Ok(()),
            ) && emits(def.children@[n - 1], time_zone, mapping, out.skip(k), res);
        (k, Ok(()))
    }
}

/// Whether `pieces` are what the first arguments of `def` append, one piece for each of the first
/// `n`; or up to one that ends with the error `res`.
pub open spec fn appended_in_turn<D: DataTypes>(
    def: Expr,
    n: nat,
    time_zone: D::Tz,
    mapping: Mapping<D>,
    pieces: Seq<Seq<RpnExpressionNode<D>>>,
    res: Result<(), Error<D::Error>>,
) -> bool {
    let done = match res {
        Ok(u) => pieces.len() as int,
        Err(e) => pieces.len() - 1,
    };
    &&& forall|i: int|
        0 <= i < done ==> emits(
            def.children@[i],
            time_zone,
            mapping,
            #[trigger] pieces[i],
            Ok(()),
        )
    &&& match res {
        Ok(u) => done == n,
        Err(e) => 0 <= done < n && emits(
            def.children@[done],
            time_zone,
            mapping,
            pieces[done],
            res,
        ),
    }
}

/// A function call is built from what its arguments append, first argument first, and then the
/// function to which its signature maps, under the field type of the call. It is refused when the
/// signature maps to an error, and when the number of arguments is not the one that the function
/// takes. The error of an argument ends it, and what came before stays.
pub proof fn law_call_is_built<D: DataTypes>(
    def: Expr,
    time_zone: D::Tz,
    mapping: Mapping<D>,
    out: Seq<RpnExpressionNode<D>>,
    res: Result<(), Error<D::Error>>,
    eval_type: EvalType,
) -> (r: (Result<BoxedFunction<D>, Error<D::Error>>, Seq<Seq<RpnExpressionNode<D>>>))
    requires
        def.tp is ScalarFunc,
        has_eval_type::<D>(def.field_type.tp, eval_type),
        emits(def, time_zone, mapping, out, res),
    ensures
        mapping(def.sig, r.0),
        match r.0 {
            Err(e) => out.len() == 0 && res == Err::<(), Error<D::Error>>(e),
            Ok(func) => if func.arity() != def.children@.len() {
                out.len() == 0 && (res matches Err(Error::UnexpectedArguments { expect, received })
                    && expect == func.arity() && received == def.children@.len())
            } else {
                appended_in_turn(def, def.children@.len(), time_zone, mapping, r.1, res) && out
                    == match res {
                    Ok(u) => r.1.flatten().push(
                        RpnExpressionNode::Fn { func, field_type: def.field_type },
                    ),
                    Err(e) => r.1.flatten(),
                }
            },
        },
{
    let n = def.children@.len();
    let args = match res {
        Ok(u) => out.drop_last(),
        Err(e) => out,
    };
    let func = choose|func: Result<BoxedFunction<D>, Error<D::Error>>| #[trigger]
        mapping(def.sig, func) && match func {
            Err(e) => out.len() == 0 && res == Err::<(), Error<D::Error>>(e),
            Ok(func) => if func.arity() != n {
                out.len() == 0 && res == Err::<(), Error<D::Error>>(
                    Error::UnexpectedArguments {
                        expect: func.arity(),
                        received: def.children.len(),
                    },
                )
            } else {
                emits_args(def, n, time_zone, mapping, args, res) && (res is Ok ==> out.len() > 0
                    && out.last() == (RpnExpressionNode::Fn { func, field_type: def.field_type }))
            },
        };
    if func is Ok && func->Ok_0.arity() == n {
        let pieces = lemma_pieces(def, n, time_zone, mapping, args, res);
        if res is Ok {
            assert(out =~= args.push(out.last()));
        }
        (func, pieces)
    } else {
        (func, Seq::empty())
    }
}

/// The pieces that the first `n` arguments of a definition append.
proof fn lemma_pieces<D: DataTypes>(
    def: Expr,
    n: nat,
    time_zone: D::Tz,
    mapping: Mapping<D>,
    out: Seq<RpnExpressionNode<D>>,
    res: Result<(), Error<D::Error>>,
) -> (pieces: Seq<Seq<RpnExpressionNode<D>>>)
    requires
        n <= def.children@.len(),
        emits_args(def, n, time_zone, mapping, out, res),
    ensures
        appended_in_turn(def, n, time_zone, mapping, pieces, res),
        out == pieces.flatten(),
    decreases n,
{
    if n == 0 {
        assert(out =~= Seq::empty());
        Seq::empty()
    } else {
        let (k, mid) = lemma_first_args(def, n, time_zone, mapping, out, res);
        let head = lemma_pieces(def, (n - 1) as nat, time_zone, mapping, out.take(k), mid);
        if mid is Err {
            assert(out.take(k) =~= out);
            head
        } else {
            let pieces = head.push(out.skip(k));
            if let Ok(u) = mid {
                assert(u == ());
            }
            if let Ok(u) = res {
                assert(u == ());
            }
            head.lemma_flatten_and_flatten_alt_are_equivalent();
            pieces.lemma_flatten_and_flatten_alt_are_equivalent();
            assert(pieces.drop_last() =~= head);
            assert(out =~= out.take(k) + out.skip(k));
            pieces
        }
    }
}

/// A list that is built from a definition can be evaluated over every batch in which the columns
/// that it refers to are decoded, for any number of rows and in any context.
pub proof fn law_built_list_can_be_evaluated<D: DataTypes>(
    def: Expr,
    time_zone: D::Tz,
    mapping: Mapping<D>,
    out: Seq<RpnExpressionNode<D>>,
    rows: usize,
    columns: Seq<LazyBatchColumn<D>>,
    before: D::Context,
)
    requires
        emits(def, time_zone, mapping, out, Ok(())),
        forall|i: int|
            0 <= i < out.len() ==> match #[trigger] out[i] {
                RpnExpressionNode::TableColumnRef { offset, field_type } => offset < columns.len()
                    && columns[offset as int] is Decoded,
                _ => true,
            },
    ensures
        well_formed(out) && resolvable(out, columns),
        runnable(out, rows, columns, before),
{
    law_emitted_list_is_well_formed(def, time_zone, mapping, out, Ok(()));
    law_expression_is_runnable(out, rows, columns, before);
}

} // verus!
