//! Expression lists in Reverse Polish notation.
use crate::data_type::{DataTypes, ScalarValue};
use crate::field_type::FieldType;
use crate::function::{BoxedFunction, RpnFunction};
use vstd::prelude::*;

verus! {

/// A type for each node in the RPN expression list.
#[derive(Debug)]
#[verifier::reject_recursive_types(D)]
pub enum RpnExpressionNode<D: DataTypes> {
    /// Represents a function.
    Fn { func: BoxedFunction<D>, field_type: FieldType },
    /// Represents a scalar constant value.
    Constant { value: ScalarValue<D>, field_type: FieldType },
    /// Represents a reference to a table column.
    TableColumnRef { offset: usize, field_type: FieldType },
}

impl<D: DataTypes> RpnExpressionNode<D> {
    /// The field type of the node.
    pub open spec fn spec_field_type(self) -> FieldType {
        match self {
            RpnExpressionNode::Fn { func, field_type } => field_type,
            RpnExpressionNode::Constant { value, field_type } => field_type,
            RpnExpressionNode::TableColumnRef { offset, field_type } => field_type,
        }
    }

    /// The number of values that evaluating the node takes from the stack.
    pub open spec fn takes(self) -> nat {
        match self {
            RpnExpressionNode::Fn { func, field_type } => func.arity() as nat,
            _ => 0,
        }
    }

    /// Gets the field type.
    pub fn field_type(&self) -> (field_type: &FieldType)
        ensures
            *field_type == self.spec_field_type(),
    {
        match self {
            RpnExpressionNode::Fn { field_type, .. } => field_type,
            RpnExpressionNode::Constant { field_type, .. } => field_type,
            RpnExpressionNode::TableColumnRef { field_type, .. } => field_type,
        }
    }

    /// Borrows the function instance for `Fn` variant.
    pub fn fn_func(&self) -> (r: Option<&BoxedFunction<D>>)
        ensures
            r == (match *self {
                RpnExpressionNode::Fn { func, field_type } => Some(&func),
                _ => None,
            }),
    {
        match self {
            RpnExpressionNode::Fn { func, .. } => Some(func),
            _ => None,
        }
    }

    /// Borrows the constant value for `Constant` variant.
    pub fn constant_value(&self) -> (r: Option<&ScalarValue<D>>)
        ensures
            r == (match *self {
                RpnExpressionNode::Constant { value, field_type } => Some(&value),
                _ => None,
            }),
    {
        match self {
            RpnExpressionNode::Constant { value, .. } => Some(value),
            _ => None,
        }
    }

    /// Gets the column offset for `TableColumnRef` variant.
    pub fn table_column_ref_offset(&self) -> (r: Option<usize>)
        ensures
            r == (match *self {
                RpnExpressionNode::TableColumnRef { offset, field_type } => Some(offset),
                _ => None,
            }),
    {
        match self {
            RpnExpressionNode::TableColumnRef { offset, .. } => Some(*offset),
            _ => None,
        }
    }
}

/// An RPN expression node list which represents an expression in Reverse Polish notation.
#[derive(Debug)]
#[verifier::reject_recursive_types(D)]
pub struct RpnExpressionNodeVec<D: DataTypes>(Vec<RpnExpressionNode<D>>);

impl<D: DataTypes> View for RpnExpressionNodeVec<D> {
    type V = Seq<RpnExpressionNode<D>>;

    closed spec fn view(&self) -> Seq<RpnExpressionNode<D>> {
        self.0@
    }
}

impl<D: DataTypes> RpnExpressionNodeVec<D> {
    /// The list of these nodes.
    pub(crate) fn from_nodes(nodes: Vec<RpnExpressionNode<D>>) -> (list: Self)
        ensures
            list@ == nodes@,
    {
        RpnExpressionNodeVec(nodes)
    }
}

impl<D: DataTypes> std::ops::Deref for RpnExpressionNodeVec<D> {
    type Target = Vec<RpnExpressionNode<D>>;

    fn deref(&self) -> (nodes: &Vec<RpnExpressionNode<D>>)
        ensures
            nodes@ == self@,
    {
        &self.0
    }
}

impl<D: DataTypes> std::ops::DerefMut for RpnExpressionNodeVec<D> {
    fn deref_mut(&mut self) -> (nodes: &mut Vec<RpnExpressionNode<D>>)
        ensures
            nodes@ == old(self)@,
            final(self)@ == final(nodes)@,
    {
        &mut self.0
    }
}

/// The number of values on the stack when the nodes in `nodes` have been evaluated, starting with
/// an empty stack: every node takes its arguments away and puts one value there.
pub open spec fn depth<D: DataTypes>(nodes: Seq<RpnExpressionNode<D>>) -> int
    decreases nodes.len(),
{
    if nodes.len() == 0 {
        0
    } else {
        depth(nodes.drop_last()) - nodes.last().takes() + 1
    }
}

/// Whether every function in `nodes` finds its arguments on the stack, when evaluation starts with
/// an empty stack.
pub open spec fn supplied<D: DataTypes>(nodes: Seq<RpnExpressionNode<D>>) -> bool {
    forall|i: int|
        0 <= i < nodes.len() ==> (#[trigger] nodes[i]).takes() <= depth(nodes.take(i))
}

/// Whether `nodes` is an expression in Reverse Polish notation: every function finds its arguments
/// on the stack, and exactly one value is left there.
pub open spec fn well_formed<D: DataTypes>(nodes: Seq<RpnExpressionNode<D>>) -> bool {
    supplied(nodes) && depth(nodes) == 1
}

/// The values that two lists leave on the stack add up.
pub proof fn lemma_depth_concat<D: DataTypes>(
    a: Seq<RpnExpressionNode<D>>,
    b: Seq<RpnExpressionNode<D>>,
)
    ensures
        depth(a + b) == depth(a) + depth(b),
    decreases b.len(),
{
    if b.len() == 0 {
        assert(a + b =~= a);
    } else {
        assert((a + b).drop_last() =~= a + b.drop_last());
        lemma_depth_concat(a, b.drop_last());
    }
}

/// A list whose functions find their arguments leaves no fewer than no values on the stack.
pub proof fn lemma_depth_nonnegative<D: DataTypes>(nodes: Seq<RpnExpressionNode<D>>)
    requires
        supplied(nodes),
    ensures
        depth(nodes) >= 0,
{
    if nodes.len() > 0 {
        assert(nodes[nodes.len() - 1].takes() <= depth(nodes.take(nodes.len() - 1)));
        assert(nodes.take(nodes.len() - 1) =~= nodes.drop_last());
    }
}

/// Functions still find their arguments when another list is evaluated first.
pub proof fn lemma_supplied_concat<D: DataTypes>(
    a: Seq<RpnExpressionNode<D>>,
    b: Seq<RpnExpressionNode<D>>,
)
    requires
        supplied(a),
        supplied(b),
    ensures
        supplied(a + b),
{
    assert forall|i: int| 0 <= i < (a + b).len() implies (#[trigger] (a + b)[i]).takes() <= depth(
        (a + b).take(i),
    ) by {
        if i < a.len() {
            assert((a + b).take(i) =~= a.take(i));
            assert(a[i].takes() <= depth(a.take(i)));
        } else {
            let j = i - a.len();
            assert((a + b).take(i) =~= a + b.take(j));
            lemma_depth_concat(a, b.take(j));
            lemma_depth_nonnegative(a);
            assert(b[j].takes() <= depth(b.take(j)));
        }
    }
}

/// A function may follow a list that leaves its arguments on the stack.
pub proof fn lemma_supplied_push<D: DataTypes>(
    nodes: Seq<RpnExpressionNode<D>>,
    node: RpnExpressionNode<D>,
)
    requires
        supplied(nodes),
        node.takes() <= depth(nodes),
    ensures
        supplied(nodes.push(node)),
        depth(nodes.push(node)) == depth(nodes) - node.takes() + 1,
{
    assert(nodes.push(node).drop_last() =~= nodes);
    assert forall|i: int| 0 <= i < nodes.push(node).len() implies (#[trigger] nodes.push(
        node,
    )[i]).takes() <= depth(nodes.push(node).take(i)) by {
        assert(nodes.push(node).take(i) =~= nodes.take(i));
        if i == nodes.len() {
            assert(nodes.take(i) =~= nodes);
        } else {
            assert(nodes[i].takes() <= depth(nodes.take(i)));
        }
    }
}

/// Functions find their arguments in every prefix of a list in which they all do.
pub proof fn lemma_supplied_prefix<D: DataTypes>(nodes: Seq<RpnExpressionNode<D>>, n: int)
    requires
        supplied(nodes),
        0 <= n <= nodes.len(),
    ensures
        supplied(nodes.take(n)),
        n == nodes.len() - 1 ==> supplied(nodes.drop_last()),
{
    assert forall|i: int| 0 <= i < n implies (#[trigger] nodes.take(n)[i]).takes() <= depth(
        nodes.take(n).take(i),
    ) by {
        assert(nodes.take(n).take(i) =~= nodes.take(i));
        assert(nodes[i].takes() <= depth(nodes.take(i)));
    }
    if n == nodes.len() - 1 {
        assert(nodes.take(n) =~= nodes.drop_last());
    }
}

} // verus!
