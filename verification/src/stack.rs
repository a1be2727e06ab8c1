//! The evaluation stack: its nodes, and the arguments that a function call takes from it.
use crate::data_type::{DataTypes, ScalarValue, VectorLikeValueRef, VectorValue};
use crate::field_type::FieldType;
use vstd::prelude::*;

verus! {

/// Represents a vector value node in the RPN stack.
///
/// It can be either an owned node or a reference node.
///
/// When node comes from a column reference, it is a reference node (both value and field_type
/// are references).
///
/// When nodes comes from an evaluated result, it is an owned node.
pub enum RpnStackNodeVectorValue<'a, D: DataTypes> {
    /// There can be frequent stack push & pops, so we wrap this field in a `Box` to reduce move
    /// cost.
    Owned(Box<VectorValue<D>>),
    Ref(&'a VectorValue<D>),
}

impl<'a, D: DataTypes> RpnStackNodeVectorValue<'a, D> {
    /// The vector value, owned or not.
    pub open spec fn vector(self) -> VectorValue<D> {
        match self {
            RpnStackNodeVectorValue::Owned(value) => *value,
            RpnStackNodeVectorValue::Ref(value) => *value,
        }
    }
}

impl<'a, D: DataTypes> AsRef<VectorValue<D>> for RpnStackNodeVectorValue<'a, D> {
    fn as_ref(&self) -> (value: &VectorValue<D>)
        ensures
            *value == self.vector(),
    {
        match self {
            RpnStackNodeVectorValue::Owned(value) => value,
            RpnStackNodeVectorValue::Ref(value) => value,
        }
    }
}

/// A type for each node in the RPN evaluation stack. It can be one of a scalar value node or a
/// vector value node. The vector value node can be either an owned vector value or a reference.
#[allow(inconsistent_fields)]
pub enum RpnStackNode<'a, D: DataTypes> {
    /// Represents a scalar value. Comes from a constant node in expression list.
    Scalar { value: &'a ScalarValue<D>, field_type: &'a FieldType },
    /// Represents a vector value. Comes from a column reference or evaluated result.
    Vector { value: RpnStackNodeVectorValue<'a, D>, field_type: &'a FieldType },
}

impl<'a, D: DataTypes> RpnStackNode<'a, D> {
    /// The field type of the node.
    pub open spec fn spec_field_type(self) -> FieldType {
        match self {
            RpnStackNode::Scalar { value, field_type } => *field_type,
            RpnStackNode::Vector { value, field_type } => *field_type,
        }
    }

    /// Gets the field type.
    pub fn field_type(&self) -> (field_type: &FieldType)
        ensures
            *field_type == self.spec_field_type(),
    {
        match self {
            RpnStackNode::Scalar { field_type, .. } => field_type,
            RpnStackNode::Vector { field_type, .. } => field_type,
        }
    }

    /// Borrows the inner scalar value for `Scalar` variant.
    pub fn scalar_value(&self) -> (r: Option<&ScalarValue<D>>)
        ensures
            r == (match *self {
                RpnStackNode::Scalar { value, field_type } => Some(value),
                RpnStackNode::Vector { value, field_type } => None,
            }),
    {
        match self {
            RpnStackNode::Scalar { value, .. } => Some(*value),
            RpnStackNode::Vector { .. } => None,
        }
    }

    /// Borrows the inner vector value for `Vector` variant.
    pub fn vector_value(&self) -> (r: Option<&VectorValue<D>>)
        ensures
            r == (match *self {
                RpnStackNode::Scalar { value, field_type } => None,
                RpnStackNode::Vector { value, field_type } => Some(&value.vector()),
            }),
    {
        match self {
            RpnStackNode::Scalar { .. } => None,
            RpnStackNode::Vector { value, .. } => Some(value.as_ref()),
        }
    }

    /// Borrows the inner scalar or vector value as a vector like value.
    pub fn as_vector_like(&self) -> (r: VectorLikeValueRef<'_, D>)
        ensures
            r == (match *self {
                RpnStackNode::Scalar { value, field_type } => VectorLikeValueRef::Scalar(value),
                RpnStackNode::Vector { value, field_type } => VectorLikeValueRef::Vector(
                    &value.vector(),
                ),
            }),
    {
        match self {
            RpnStackNode::Scalar { value, .. } => value.as_vector_like(),
            RpnStackNode::Vector { value, .. } => value.as_ref().as_vector_like(),
        }
    }

    /// Whether this is a `Scalar` variant.
    pub fn is_scalar(&self) -> (b: bool)
        ensures
            b == (*self is Scalar),
    {
        match self {
            RpnStackNode::Scalar { .. } => true,
            _ => false,
        }
    }

    /// Whether this is a `Vector` variant.
    pub fn is_vector(&self) -> (b: bool)
        ensures
            b == (*self is Vector),
    {
        match self {
            RpnStackNode::Vector { .. } => true,
            _ => false,
        }
    }
}

/// A structure for holding argument values and type information of arguments and return values.
///
/// It can simplify function signatures without losing performance where only argument values are
/// needed in most cases.
///
/// NOTE: This structure must be very fast to copy because it will be passed by value directly
/// (i.e. Copy), instead of by reference, for **EACH** function invocation.
pub struct RpnFnCallPayload<'a, D: DataTypes> {
    raw_args: &'a [RpnStackNode<'a, D>],
    ret_field_type: &'a FieldType,
}

impl<'a, D: DataTypes> Clone for RpnFnCallPayload<'a, D> {
    fn clone(&self) -> (r: Self)
        ensures
            r == *self,
    {
        *self
    }
}

impl<'a, D: DataTypes> Copy for RpnFnCallPayload<'a, D> {

}

impl<'a, D: DataTypes> RpnFnCallPayload<'a, D> {
    /// The arguments, first argument first.
    pub closed spec fn args(self) -> Seq<RpnStackNode<'a, D>> {
        self.raw_args@
    }

    /// The field type of the return value.
    pub closed spec fn ret_type(self) -> FieldType {
        *self.ret_field_type
    }

    /// The payload of a call with these arguments and this return type.
    pub(crate) fn new(
        raw_args: &'a [RpnStackNode<'a, D>],
        ret_field_type: &'a FieldType,
    ) -> (payload: Self)
        ensures
            payload.args() == raw_args@,
            payload.ret_type() == *ret_field_type,
    {
        RpnFnCallPayload { raw_args, ret_field_type }
    }

    /// The number of arguments.
    pub fn args_len(&'a self) -> (n: usize)
        ensures
            n == self.args().len(),
    {
        self.raw_args.len()
    }

    /// Gets the raw argument at specific position.
    pub fn raw_arg_at(&'a self, position: usize) -> (node: &'a RpnStackNode<'a, D>)
        requires
            position < self.args().len(),
        ensures
            *node == self.args()[position as int],
    {
        &self.raw_args[position]
    }

    /// Gets the field type of the argument at specific position.
    pub fn field_type_at(&'a self, position: usize) -> (field_type: &'a FieldType)
        requires
            position < self.args().len(),
        ensures
            *field_type == self.args()[position as int].spec_field_type(),
    {
        self.raw_args[position].field_type()
    }

    /// Gets the field type of the return value.
    pub fn return_field_type(&'a self) -> (field_type: &'a FieldType)
        ensures
            *field_type == self.ret_type(),
    {
        self.ret_field_type
    }
}

} // verus!
