//! The functions that expressions call.
use crate::data_type::{DataTypes, VectorValue};
use crate::error::Error;
use crate::expr::ScalarFuncSig;
use crate::field_type::FieldType;
use crate::stack::{RpnFnCallPayload, RpnStackNode};
use vstd::prelude::*;

verus! {

/// A function that expressions call.
pub trait RpnFunction<D: DataTypes>: std::fmt::Debug {
    /// The number of arguments that the function takes.
    spec fn arity(&self) -> usize;

    /// Whether a call may end with `result` and leave `after` in the place of the context
    /// `before`, when it is made for `rows` rows, with these arguments and this return type.
    ///
    /// A function may leave open which of several outcomes comes about. One that states nothing
    /// leaves all of them open.
    open spec fn outcome<'a>(
        &self,
        rows: usize,
        before: D::Context,
        args: Seq<RpnStackNode<'a, D>>,
        ret_type: FieldType,
        after: D::Context,
        result: Result<VectorValue<D>, Error<D::Error>>,
    ) -> bool {
        true
    }

    /// Whether the function may go by the name `name`. One that states nothing may go by any.
    open spec fn is_named(&self, name: Seq<char>) -> bool {
        true
    }

    /// The display name of the function.
    fn name(&self) -> (name: &'static str)
        ensures
            self.is_named(name@),
    ;

    /// The accurate number of arguments.
    fn args_len(&self) -> (n: usize)
        ensures
            n == self.arity(),
    ;

    /// Evaluates the function for `rows` rows according to the arguments in the payload.
    fn eval<'a>(
        &self,
        rows: usize,
        context: &mut D::Context,
        payload: RpnFnCallPayload<'a, D>,
    ) -> (result: Result<VectorValue<D>, Error<D::Error>>)
        requires
            payload.args().len() == self.arity(),
        ensures
            self.outcome(
                rows,
                *old(context),
                payload.args(),
                payload.ret_type(),
                *final(context),
                result,
            ),
    ;
}

/// A function of any type.
#[derive(Debug)]
#[verifier::reject_recursive_types(D)]
pub struct BoxedFunction<D: DataTypes>(pub Box<dyn RpnFunction<D>>);

impl<D: DataTypes> RpnFunction<D> for BoxedFunction<D> {
    open spec fn arity(&self) -> usize {
        self.0.arity()
    }

    open spec fn outcome<'a>(
        &self,
        rows: usize,
        before: D::Context,
        args: Seq<RpnStackNode<'a, D>>,
        ret_type: FieldType,
        after: D::Context,
        result: Result<VectorValue<D>, Error<D::Error>>,
    ) -> bool {
        self.0.outcome(rows, before, args, ret_type, after, result)
    }

    open spec fn is_named(&self, name: Seq<char>) -> bool {
        self.0.is_named(name)
    }

    fn name(&self) -> (name: &'static str) {
        self.0.name()
    }

    fn args_len(&self) -> (n: usize) {
        self.0.args_len()
    }

    fn eval<'a>(
        &self,
        rows: usize,
        context: &mut D::Context,
        payload: RpnFnCallPayload<'a, D>,
    ) -> (result: Result<VectorValue<D>, Error<D::Error>>) {
        self.0.eval(rows, context, payload)
    }
}

/// The functions that a system offers, by their signature codes.
pub trait FunctionTable: DataTypes {
    /// The function with the signature `sig`.
    fn map_pb_sig_to_rpn_func(sig: ScalarFuncSig) -> Result<
        BoxedFunction<Self>,
        Error<Self::Error>,
    >;
}

} // verus!
