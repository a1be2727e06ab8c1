//! What holds of functions in boxes and in tables.
use crate::builder::table;
use crate::data_type::{DataTypes, VectorValue};
use crate::error::Error;
use crate::expr::ScalarFuncSig;
use crate::field_type::FieldType;
use crate::function::{BoxedFunction, FunctionTable, RpnFunction};
use crate::stack::RpnStackNode;
use vstd::prelude::*;

verus! {

/// A function in a box has the arity, the names and the outcomes of the function.
pub proof fn law_boxed_function<'a, D: DataTypes>(
    boxed: BoxedFunction<D>,
    name: Seq<char>,
    rows: usize,
    before: D::Context,
    args: Seq<RpnStackNode<'a, D>>,
    ret_type: FieldType,
    after: D::Context,
    result: Result<VectorValue<D>, Error<D::Error>>,
)
    ensures
        boxed.arity() == boxed.0.arity(),
        boxed.is_named(name) == boxed.0.is_named(name),
        boxed.outcome(rows, before, args, ret_type, after, result) == boxed.0.outcome(
            rows,
            before,
            args,
            ret_type,
            after,
            result,
        ),
{
}

/// A definition is built with the functions that the system's table gives for its signatures.
pub proof fn law_table<D: FunctionTable>(
    sig: ScalarFuncSig,
    func: Result<BoxedFunction<D>, Error<D::Error>>,
)
    ensures
        table::<D>()(sig, func) <==> call_ensures(D::map_pb_sig_to_rpn_func, (sig,), func),
{
}

} // verus!
