//! What holds of values and columns: a borrowed value is the value, and the value of a row is the
//! element of the column there.
use crate::data_type::{DataTypes, ScalarValue, ScalarValueRef, VectorValue};
use crate::node::RpnExpressionNode;
use crate::stack::{RpnStackNode, RpnStackNodeVectorValue};
use vstd::prelude::*;

verus! {

/// The value of a column in a row is the element of the column at that index.
pub proof fn law_row_value_is_the_element<D: DataTypes>(column: VectorValue<D>, row: int)
    requires
        0 <= row < column.spec_len(),
    ensures
        match column {
            VectorValue::Int(v) => row < v@.len() && column.spec_value_at(row)
                == ScalarValueRef::<D>::Int(&v@[row]),
            VectorValue::Real(v) => row < v@.len() && column.spec_value_at(row)
                == ScalarValueRef::<D>::Real(&v@[row]),
            VectorValue::Decimal(v) => row < v@.len() && column.spec_value_at(row)
                == ScalarValueRef::<D>::Decimal(&v@[row]),
            VectorValue::Bytes(v) => row < v@.len() && column.spec_value_at(row)
                == ScalarValueRef::<D>::Bytes(&v@[row]),
            VectorValue::DateTime(v) => row < v@.len() && column.spec_value_at(row)
                == ScalarValueRef::<D>::DateTime(&v@[row]),
            VectorValue::Duration(v) => row < v@.len() && column.spec_value_at(row)
                == ScalarValueRef::<D>::Duration(&v@[row]),
            VectorValue::Json(v) => row < v@.len() && column.spec_value_at(row)
                == ScalarValueRef::<D>::Json(&v@[row]),
        },
{
}

/// A column has as many rows as elements.
pub proof fn law_rows_are_elements<D: DataTypes>(column: VectorValue<D>)
    ensures
        match column {
            VectorValue::Int(v) => column.spec_len() == v@.len(),
            VectorValue::Real(v) => column.spec_len() == v@.len(),
            VectorValue::Decimal(v) => column.spec_len() == v@.len(),
            VectorValue::Bytes(v) => column.spec_len() == v@.len(),
            VectorValue::DateTime(v) => column.spec_len() == v@.len(),
            VectorValue::Duration(v) => column.spec_len() == v@.len(),
            VectorValue::Json(v) => column.spec_len() == v@.len(),
        },
{
}

/// A borrowed value is the value that it was borrowed from.
pub proof fn law_borrowed_value<D: DataTypes>(value: ScalarValue<D>)
    ensures
        match value {
            ScalarValue::Int(v) => value.spec_value_ref() == ScalarValueRef::<D>::Int(&v),
            ScalarValue::Real(v) => value.spec_value_ref() == ScalarValueRef::<D>::Real(&v),
            ScalarValue::Decimal(v) => value.spec_value_ref() == ScalarValueRef::<D>::Decimal(&v),
            ScalarValue::Bytes(v) => value.spec_value_ref() == ScalarValueRef::<D>::Bytes(&v),
            ScalarValue::DateTime(v) => value.spec_value_ref() == ScalarValueRef::<D>::DateTime(&v),
            ScalarValue::Duration(v) => value.spec_value_ref() == ScalarValueRef::<D>::Duration(&v),
            ScalarValue::Json(v) => value.spec_value_ref() == ScalarValueRef::<D>::Json(&v),
        },
{
}

/// The column of a stack node is the one that it owns or refers to.
pub proof fn law_stack_column<'a, D: DataTypes>(value: RpnStackNodeVectorValue<'a, D>)
    ensures
        match value {
            RpnStackNodeVectorValue::Owned(column) => value.vector() == *column,
            RpnStackNodeVectorValue::Ref(column) => value.vector() == *column,
        },
{
}

/// The field type of a node is the one that it was made with.
pub proof fn law_field_types<'a, D: DataTypes>(
    node: RpnExpressionNode<D>,
    stack_node: RpnStackNode<'a, D>,
)
    ensures
        match node {
            RpnExpressionNode::Fn { func, field_type } => node.spec_field_type() == field_type,
            RpnExpressionNode::Constant { value, field_type } => node.spec_field_type()
                == field_type,
            RpnExpressionNode::TableColumnRef { offset, field_type } => node.spec_field_type()
                == field_type,
        },
        match stack_node {
            RpnStackNode::Scalar { value, field_type } => stack_node.spec_field_type()
                == *field_type,
            RpnStackNode::Vector { value, field_type } => stack_node.spec_field_type()
                == *field_type,
        },
{
}

} // verus!
