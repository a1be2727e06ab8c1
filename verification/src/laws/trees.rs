//! What holds of expression lists and the trees that they stand for.
use crate::data_type::DataTypes;
use crate::function::RpnFunction;
use crate::node::{
    depth, lemma_depth_concat, lemma_supplied_concat, lemma_supplied_prefix, lemma_supplied_push,
    supplied, well_formed, RpnExpressionNode,
};
use crate::tree::RpnTree;
use vstd::prelude::*;

verus! {

/// A list stands for one tree only: two proper trees with the same nodes in post-order are the
/// same tree.
pub proof fn law_list_has_one_tree<D: DataTypes>(a: RpnTree<D>, b: RpnTree<D>)
    requires
        a.proper(),
        b.proper(),
        a.flatten() == b.flatten(),
    ensures
        a == b,
{
    assert(Seq::empty() + a.flatten() =~= Seq::empty() + b.flatten());
    lemma_last_tree(a, b, Seq::empty(), Seq::empty());
}

/// Two lists that end with the list of a tree, and are the same, end with the same tree.
proof fn lemma_last_tree<D: DataTypes>(
    a: RpnTree<D>,
    b: RpnTree<D>,
    before_a: Seq<RpnExpressionNode<D>>,
    before_b: Seq<RpnExpressionNode<D>>,
)
    requires
        a.proper(),
        b.proper(),
        before_a + a.flatten() == before_b + b.flatten(),
    ensures
        a == b,
        before_a == before_b,
    decreases a, a.arg_count() + 1,
{
    let whole_a = before_a + a.flatten();
    let whole_b = before_b + b.flatten();
    assert(whole_a.last() == a.flatten().last());
    assert(whole_b.last() == b.flatten().last());
    match a {
        RpnTree::Leaf(node) => {
            assert(b is Leaf);
            assert(whole_a.drop_last() =~= before_a);
            assert(whole_b.drop_last() =~= before_b);
        },
        RpnTree::Call { func, field_type, args } => {
            assert(b is Call);
            let n = args.len();
            assert(b.arg_count() == n);
            assert(whole_a.drop_last() =~= before_a + a.flatten_args(n));
            assert(whole_b.drop_last() =~= before_b + b.flatten_args(n));
            lemma_last_args(a, b, n, before_a, before_b);
            assert(a->args =~= b->args);
        },
    }
}

/// Two lists that end with the lists of `n` arguments, and are the same, end with the same
/// arguments.
proof fn lemma_last_args<D: DataTypes>(
    a: RpnTree<D>,
    b: RpnTree<D>,
    n: nat,
    before_a: Seq<RpnExpressionNode<D>>,
    before_b: Seq<RpnExpressionNode<D>>,
)
    requires
        a.proper(),
        b.proper(),
        n <= a.arg_count(),
        n <= b.arg_count(),
        before_a + a.flatten_args(n) == before_b + b.flatten_args(n),
    ensures
        forall|i: int| 0 <= i < n ==> #[trigger] a->args[i] == b->args[i],
        before_a == before_b,
    decreases a, n,
{
    if n == 0 {
        assert(before_a + a.flatten_args(n) =~= before_a);
        assert(before_b + b.flatten_args(n) =~= before_b);
    } else {
        let k = (n - 1) as nat;
        let head_a = before_a + a.flatten_args(k);
        let head_b = before_b + b.flatten_args(k);
        assert(before_a + a.flatten_args(n) =~= head_a + a->args[n - 1].flatten());
        assert(before_b + b.flatten_args(n) =~= head_b + b->args[n - 1].flatten());
        lemma_last_tree(a->args[n - 1], b->args[n - 1], head_a, head_b);
        lemma_last_args(a, b, k, before_a, before_b);
    }
}

/// The list of a proper tree is an expression in Reverse Polish notation.
pub proof fn law_tree_list_is_well_formed<D: DataTypes>(tree: RpnTree<D>)
    requires
        tree.proper(),
    ensures
        well_formed(tree.flatten()),
    decreases tree, tree.arg_count() + 1,
{
    match tree {
        RpnTree::Leaf(node) => {
            reveal_with_fuel(depth, 2);
            assert(tree.flatten().take(0) =~= Seq::empty());
            assert(tree.flatten().drop_last() =~= Seq::empty());
        },
        RpnTree::Call { func, field_type, args } => {
            lemma_args_list_is_supplied(tree, args.len());
            lemma_supplied_push(
                tree.flatten_args(args.len()),
                RpnExpressionNode::Fn { func, field_type },
            );
        },
    }
}

/// The list of the first `n` arguments leaves one value for each of them.
proof fn lemma_args_list_is_supplied<D: DataTypes>(tree: RpnTree<D>, n: nat)
    requires
        tree.proper(),
        n <= tree.arg_count(),
    ensures
        supplied(tree.flatten_args(n)),
        depth(tree.flatten_args(n)) == n,
    decreases tree, n,
{
    if n > 0 {
        let head = tree.flatten_args((n - 1) as nat);
        let tail = tree->args[n - 1].flatten();
        lemma_args_list_is_supplied(tree, (n - 1) as nat);
        law_tree_list_is_well_formed(tree->args[n - 1]);
        lemma_supplied_concat(head, tail);
        lemma_depth_concat(head, tail);
    }
}

/// Every expression in Reverse Polish notation is the list of a proper tree.
pub proof fn law_well_formed_list_is_a_tree<D: DataTypes>(
    nodes: Seq<RpnExpressionNode<D>>,
) -> (tree: RpnTree<D>)
    requires
        well_formed(nodes),
    ensures
        tree.proper(),
        tree.flatten() == nodes,
{
    let trees = lemma_supplied_list_is_trees(nodes);
    reveal_with_fuel(flatten_all, 2);
    assert(flatten_all(trees.drop_last()) + trees.last().flatten() =~= trees.last().flatten());
    trees.last()
}

/// A list in which every function finds its arguments is the list of some proper trees, one for
/// each value that it leaves.
proof fn lemma_supplied_list_is_trees<D: DataTypes>(
    nodes: Seq<RpnExpressionNode<D>>,
) -> (trees: Seq<RpnTree<D>>)
    requires
        supplied(nodes),
    ensures
        trees.len() == depth(nodes),
        flatten_all(trees) == nodes,
        forall|i: int| 0 <= i < trees.len() ==> (#[trigger] trees[i]).proper(),
    decreases nodes.len(),
{
    if nodes.len() == 0 {
        assert(nodes =~= Seq::empty());
        Seq::empty()
    } else {
        let head = nodes.drop_last();
        let last = nodes.last();
        lemma_supplied_prefix(nodes, nodes.len() - 1);
        let prior = lemma_supplied_list_is_trees(head);
        assert(nodes[nodes.len() - 1].takes() <= depth(nodes.take(nodes.len() - 1)));
        assert(nodes.take(nodes.len() - 1) =~= head);
        assert(head.push(last) =~= nodes);
        match last {
            RpnExpressionNode::Fn { func, field_type } => {
                let begin = prior.len() - func.arity();
                let below = prior.take(begin);
                let args = prior.skip(begin);
                let tree = RpnTree::Call { func, field_type, args };
                assert forall|i: int| 0 <= i < args.len() implies (#[trigger] args[i]).proper() by {
                    assert(args[i] == prior[begin + i]);
                }
                lemma_flatten_args(tree, args.len());
                assert(args.take(args.len() as int) =~= args);
                lemma_flatten_concat(below, args);
                assert(below + args =~= prior);
                let trees = below.push(tree);
                assert(trees.drop_last() =~= below);
                assert(flatten_all(below) + flatten_all(args).push(last) =~= nodes);
                assert forall|i: int| 0 <= i < trees.len() implies (
                #[trigger] trees[i]).proper() by {
                    if i < below.len() {
                        assert(trees[i] == prior[i]);
                    }
                }
                trees
            },
            _ => {
                let tree = RpnTree::Leaf(last);
                let trees = prior.push(tree);
                assert(trees.drop_last() =~= prior);
                assert(flatten_all(prior) + seq![last] =~= nodes);
                assert forall|i: int| 0 <= i < trees.len() implies (
                #[trigger] trees[i]).proper() by {
                    if i < prior.len() {
                        assert(trees[i] == prior[i]);
                    }
                }
                trees
            },
        }
    }
}

/// The nodes of `trees`, one tree after the other, each in post-order.
pub open spec fn flatten_all<D: DataTypes>(trees: Seq<RpnTree<D>>) -> Seq<RpnExpressionNode<D>>
    decreases trees.len(),
{
    if trees.len() == 0 {
        Seq::empty()
    } else {
        flatten_all(trees.drop_last()) + trees.last().flatten()
    }
}

/// The nodes of two rows of trees follow each other.
proof fn lemma_flatten_concat<D: DataTypes>(a: Seq<RpnTree<D>>, b: Seq<RpnTree<D>>)
    ensures
        flatten_all(a + b) == flatten_all(a) + flatten_all(b),
    decreases b.len(),
{
    if b.len() == 0 {
        assert(a + b =~= a);
    } else {
        assert((a + b).drop_last() =~= a + b.drop_last());
        lemma_flatten_concat(a, b.drop_last());
    }
}

/// The nodes of the first `n` arguments are the nodes of these trees.
proof fn lemma_flatten_args<D: DataTypes>(tree: RpnTree<D>, n: nat)
    requires
        tree is Call,
        n <= tree.arg_count(),
    ensures
        tree.flatten_args(n) == flatten_all(tree->args.take(n as int)),
    decreases n,
{
    if n > 0 {
        lemma_flatten_args(tree, (n - 1) as nat);
        assert(tree->args.take(n as int).drop_last() =~= tree->args.take(n - 1));
    }
}

} // verus!
