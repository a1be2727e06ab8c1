//! What holds of converting a column to booleans.
use crate::batch::LazyBatchColumn;
use crate::data_type::{converts, AsMySQLBool, ScalarValue, ScalarValueRef, VectorValue};
use crate::error::Error;
use crate::eval::{node_converts, runs};
use crate::field_type::FieldType;
use crate::node::RpnExpressionNode;
use crate::stack::{RpnStackNode, RpnStackNodeVectorValue};
use crate::tree::between;
use vstd::prelude::*;

verus! {

/// When a column is converted to booleans, the boolean of every row is a conversion of the value
/// of that row.
pub proof fn law_every_row_is_converted<D: AsMySQLBool>(
    column: VectorValue<D>,
    n: nat,
    before: D::Context,
    after: D::Context,
    initial: Seq<bool>,
    outputs: Seq<bool>,
    row: int,
)
    requires
        0 <= row < n <= initial.len(),
        converts(column, n, before, after, initial, outputs, Ok(())),
    ensures
        exists|from: D::Context, to: D::Context| #[trigger]
            D::bool_outcome(column.spec_value_at(row), from, to, Ok(outputs[row])),
    decreases n,
{
    let last = lemma_last_row(column, n, before, after, initial, outputs, Ok(()));
    let (mid, flag) = last->0;
    assert(flag == Ok::<_, Error<D::Error>>(outputs[n - 1]));
    if row < n - 1 {
        let prior = outputs.update(n - 1, initial[n - 1]);
        law_every_row_is_converted(column, (n - 1) as nat, before, mid, initial, prior, row);
        assert(prior[row] == outputs[row]);
    }
}

/// When every conversion of a value has one outcome, the conversion of a column has one too.
pub proof fn law_conversion_is_determined<D: AsMySQLBool>(
    column: VectorValue<D>,
    n: nat,
    before: D::Context,
    initial: Seq<bool>,
    after_a: D::Context,
    outputs_a: Seq<bool>,
    res_a: Result<(), Error<D::Error>>,
    after_b: D::Context,
    outputs_b: Seq<bool>,
    res_b: Result<(), Error<D::Error>>,
)
    requires
        forall|
            value: ScalarValueRef<'_, D>,
            from: D::Context,
            to_a: D::Context,
            flag_a: Result<bool, Error<D::Error>>,
            to_b: D::Context,
            flag_b: Result<bool, Error<D::Error>>,
        |
            #[trigger] D::bool_outcome(value, from, to_a, flag_a) && #[trigger] D::bool_outcome(
                value,
                from,
                to_b,
                flag_b,
            ) ==> to_a == to_b && flag_a == flag_b,
        n <= initial.len(),
        converts(column, n, before, after_a, initial, outputs_a, res_a),
        converts(column, n, before, after_b, initial, outputs_b, res_b),
    ensures
        after_a == after_b,
        outputs_a == outputs_b,
        res_a == res_b,
    decreases n,
{
    if n > 0 {
        let row = n - 1;
        let last_a = lemma_last_row(column, n, before, after_a, initial, outputs_a, res_a);
        let last_b = lemma_last_row(column, n, before, after_b, initial, outputs_b, res_b);
        let (mid_a, prior_a, end_a) = match last_a {
            None => (after_a, outputs_a, res_a),
            Some((mid, Ok(b))) => (mid, outputs_a.update(row, initial[row]), Ok(())),
            Some((mid, Err(e))) => (mid, outputs_a, Ok(())),
        };
        let (mid_b, prior_b, end_b) = match last_b {
            None => (after_b, outputs_b, res_b),
            Some((mid, Ok(b))) => (mid, outputs_b.update(row, initial[row]), Ok(())),
            Some((mid, Err(e))) => (mid, outputs_b, Ok(())),
        };
        law_conversion_is_determined(
            column,
            row as nat,
            before,
            initial,
            mid_a,
            prior_a,
            end_a,
            mid_b,
            prior_b,
            end_b,
        );
        if res_a is Ok {
            assert(outputs_a =~= prior_a.update(row, outputs_a[row]));
            assert(outputs_b =~= prior_b.update(row, outputs_b[row]));
        }
    }
    if let (Ok(u), Ok(w)) = (res_a, res_b) {
        assert(u == () && w == ());
    }
}

/// What the last row of a conversion starts from: the context after the rows before it, what
/// these rows left in the buffer, and how the conversion of the last row ended; `None` when one
/// of the rows before it ended the conversion.
proof fn lemma_last_row<D: AsMySQLBool>(
    column: VectorValue<D>,
    n: nat,
    before: D::Context,
    after: D::Context,
    initial: Seq<bool>,
    outputs: Seq<bool>,
    res: Result<(), Error<D::Error>>,
) -> (r: Option<(D::Context, Result<bool, Error<D::Error>>)>)
    requires
        n > 0,
        converts(column, n, before, after, initial, outputs, res),
    ensures
        match r {
            None => res is Err && converts(
                column,
                (n - 1) as nat,
                before,
                after,
                initial,
                outputs,
                res,
            ),
            Some((mid, flag)) => D::bool_outcome(column.spec_value_at(n - 1), mid, after, flag)
                && match flag {
                Ok(b) => outputs.len() == initial.len() && outputs[n - 1] == b && res is Ok
                    && converts(
                    column,
                    (n - 1) as nat,
                    before,
                    mid,
                    initial,
                    outputs.update(n - 1, initial[n - 1]),
                    Ok(()),
                ),
                Err(e) => res == Err::<(), Error<D::Error>>(e) && converts(
                    column,
                    (n - 1) as nat,
                    before,
                    mid,
                    initial,
                    outputs,
                    Ok(()),
                ),
            },
        },
{
    let row = n - 1;
    if res is Err && converts(column, row as nat, before, after, initial, outputs, res) {
        None
    } else {
        let (mid, flag) = choose|mid: D::Context, flag: Result<bool, Error<D::Error>>| #[trigger]
            D::bool_outcome(column.spec_value_at(row), mid, after, flag) && match flag {
                Ok(b) => outputs.len() == initial.len() && outputs[row] == b && res is Ok
                    && converts(
                    column,
                    row as nat,
                    before,
                    mid,
                    initial,
                    outputs.update(row, initial[row]),
                    Ok(()),
                ),
                Err(e) => res == Err::<(), Error<D::Error>>(e) && converts(
                    column,
                    row as nat,
                    before,
                    mid,
                    initial,
                    outputs,
                    Ok(()),
                ),
            };
        Some((mid, flag))
    }
}

/// Whether the element of `column` at the index `row` may convert to `flag`, and leave `to` in the
/// place of the context `from`.
pub open spec fn element_converts<D: AsMySQLBool>(
    column: VectorValue<D>,
    row: int,
    from: D::Context,
    to: D::Context,
    flag: Result<bool, Error<D::Error>>,
) -> bool {
    match column {
        VectorValue::Int(v) => D::bool_outcome(ScalarValueRef::Int(&v@[row]), from, to, flag),
        VectorValue::Real(v) => D::bool_outcome(ScalarValueRef::Real(&v@[row]), from, to, flag),
        VectorValue::Decimal(v) => D::bool_outcome(
            ScalarValueRef::Decimal(&v@[row]),
            from,
            to,
            flag,
        ),
        VectorValue::Bytes(v) => D::bool_outcome(ScalarValueRef::Bytes(&v@[row]), from, to, flag),
        VectorValue::DateTime(v) => D::bool_outcome(
            ScalarValueRef::DateTime(&v@[row]),
            from,
            to,
            flag,
        ),
        VectorValue::Duration(v) => D::bool_outcome(
            ScalarValueRef::Duration(&v@[row]),
            from,
            to,
            flag,
        ),
        VectorValue::Json(v) => D::bool_outcome(ScalarValueRef::Json(&v@[row]), from, to, flag),
    }
}

/// Whether `value` may convert to `flag`, and leave `to` in the place of the context `from`.
pub open spec fn scalar_converts<D: AsMySQLBool>(
    value: ScalarValue<D>,
    from: D::Context,
    to: D::Context,
    flag: Result<bool, Error<D::Error>>,
) -> bool {
    match value {
        ScalarValue::Int(v) => D::bool_outcome(ScalarValueRef::Int(&v), from, to, flag),
        ScalarValue::Real(v) => D::bool_outcome(ScalarValueRef::Real(&v), from, to, flag),
        ScalarValue::Decimal(v) => D::bool_outcome(ScalarValueRef::Decimal(&v), from, to, flag),
        ScalarValue::Bytes(v) => D::bool_outcome(ScalarValueRef::Bytes(&v), from, to, flag),
        ScalarValue::DateTime(v) => D::bool_outcome(ScalarValueRef::DateTime(&v), from, to, flag),
        ScalarValue::Duration(v) => D::bool_outcome(ScalarValueRef::Duration(&v), from, to, flag),
        ScalarValue::Json(v) => D::bool_outcome(ScalarValueRef::Json(&v), from, to, flag),
    }
}

/// Whether the elements of `column` at the first `n` indices convert one after the other, from
/// one of the contexts `states` to the next, into the booleans at the same places of `outputs`. An
/// error ends the conversion. What has not been converted is as in `initial`.
pub open spec fn converted_in_turn<D: AsMySQLBool>(
    column: VectorValue<D>,
    n: nat,
    states: Seq<D::Context>,
    initial: Seq<bool>,
    outputs: Seq<bool>,
    res: Result<(), Error<D::Error>>,
) -> bool {
    let done = match res {
        Ok(u) => states.len() - 1,
        Err(e) => states.len() - 2,
    };
    &&& outputs.len() == initial.len()
    &&& forall|i: int|
        0 <= i < done ==> element_converts(
            column,
            i,
            states[i],
            states[i + 1],
            Ok(#[trigger] outputs[i]),
        )
    &&& forall|i: int| done <= i < initial.len() ==> outputs[i] == initial[i]
    &&& match res {
        Ok(u) => done == n,
        Err(e) => 0 <= done < n && element_converts(
            column,
            done,
            states[done],
            states[done + 1],
            Err(e),
        ),
    }
}

/// The elements of a column are converted one after the other, each into the boolean at its own
/// place.
pub proof fn law_elements_convert_in_turn<D: AsMySQLBool>(
    column: VectorValue<D>,
    n: nat,
    before: D::Context,
    after: D::Context,
    initial: Seq<bool>,
    outputs: Seq<bool>,
    res: Result<(), Error<D::Error>>,
) -> (states: Seq<D::Context>)
    requires
        n <= initial.len(),
        converts(column, n, before, after, initial, outputs, res),
    ensures
        states.len() > 0,
        states.first() == before,
        states.last() == after,
        converted_in_turn(column, n, states, initial, outputs, res),
    decreases n,
{
    if n == 0 {
        seq![before]
    } else {
        let row = n - 1;
        match lemma_last_row(column, n, before, after, initial, outputs, res) {
            None => law_elements_convert_in_turn(
                column,
                row as nat,
                before,
                after,
                initial,
                outputs,
                res,
            ),
            Some((mid, flag)) => {
                let prior = match flag {
                    Ok(b) => outputs.update(row, initial[row]),
                    Err(e) => outputs,
                };
                let head = law_elements_convert_in_turn(
                    column,
                    row as nat,
                    before,
                    mid,
                    initial,
                    prior,
                    Ok(()),
                );
                let states = head.push(after);
                assert(states.first() == head.first());
                assert(element_converts(column, row, mid, after, flag));
                assert forall|i: int| 0 <= i < row implies element_converts(
                    column,
                    i,
                    states[i],
                    states[i + 1],
                    Ok(#[trigger] outputs[i]),
                ) by {
                    assert(prior[i] == outputs[i]);
                }
                assert forall|i: int| n <= i < initial.len() implies outputs[i] == initial[i] by {
                    assert(prior[i] == outputs[i]);
                }
                states
            },
        }
    }
}

/// A condition that evaluates into a scalar, of whatever type, gives the boolean of that scalar in
/// every row. When the scalar does not convert, no row changes.
pub proof fn law_scalar_condition<D: AsMySQLBool>(
    nodes: Seq<RpnExpressionNode<D>>,
    value: ScalarValue<D>,
    field_type: FieldType,
    rows: usize,
    columns: Seq<LazyBatchColumn<D>>,
    before: D::Context,
    mid: D::Context,
    after: D::Context,
    initial: Seq<bool>,
    outputs: Seq<bool>,
    res: Result<(), Error<D::Error>>,
)
    requires
        rows <= initial.len(),
        runs(
            nodes,
            rows,
            columns,
            Seq::empty(),
            before,
            mid,
            Ok(seq![RpnStackNode::Scalar { value: &value, field_type: &field_type }]),
        ),
        node_converts(
            RpnStackNode::Scalar { value: &value, field_type: &field_type },
            rows,
            mid,
            after,
            initial,
            outputs,
            res,
        ),
    ensures
        outputs.len() == initial.len(),
        match res {
            Ok(u) => exists|b: bool| #[trigger]
                scalar_converts(value, mid, after, Ok(b)) && (forall|i: int|
                    0 <= i < rows ==> outputs[i] == b) && (forall|i: int|
                    rows <= i < initial.len() ==> outputs[i] == initial[i]),
            Err(e) => scalar_converts(value, mid, after, Err(e)) && outputs == initial,
        },
{
    let flag = choose|flag: Result<bool, Error<D::Error>>| #[trigger]
        D::bool_outcome(value.spec_value_ref(), mid, after, flag) && match flag {
            Ok(b) => res is Ok && outputs.len() == initial.len() && forall|i: int|
                0 <= i < initial.len() ==> #[trigger] outputs[i] == (if i < rows {
                    b
                } else {
                    initial[i]
                }),
            Err(e) => res == Err::<(), Error<D::Error>>(e) && outputs == initial,
        };
    assert(scalar_converts(value, mid, after, flag));
    if flag is Ok {
        assert(flag == Ok::<_, Error<D::Error>>(flag->Ok_0));
    } else {
        assert(flag == Err::<bool, _>(res->Err_0));
    }
}

/// A condition that evaluates into a column, of whatever type, gives in every row the boolean of
/// the element of that column there.
pub proof fn law_column_condition<'a, D: AsMySQLBool>(
    nodes: Seq<RpnExpressionNode<D>>,
    value: RpnStackNodeVectorValue<'a, D>,
    field_type: FieldType,
    rows: usize,
    columns: Seq<LazyBatchColumn<D>>,
    before: D::Context,
    mid: D::Context,
    after: D::Context,
    initial: Seq<bool>,
    outputs: Seq<bool>,
    res: Result<(), Error<D::Error>>,
) -> (states: Seq<D::Context>)
    requires
        rows <= initial.len(),
        runs(
            nodes,
            rows,
            columns,
            Seq::empty(),
            before,
            mid,
            Ok(seq![RpnStackNode::Vector { value, field_type: &field_type }]),
        ),
        node_converts(
            RpnStackNode::Vector { value, field_type: &field_type },
            rows,
            mid,
            after,
            initial,
            outputs,
            res,
        ),
    ensures
        states.len() > 0,
        states.first() == mid,
        states.last() == after,
        match value {
            RpnStackNodeVectorValue::Owned(column) => converted_in_turn(
                *column,
                rows as nat,
                states,
                initial,
                outputs,
                res,
            ),
            RpnStackNodeVectorValue::Ref(column) => converted_in_turn(
                *column,
                rows as nat,
                states,
                initial,
                outputs,
                res,
            ),
        },
{
    law_elements_convert_in_turn(
        value.vector(),
        rows as nat,
        mid,
        after,
        initial,
        outputs,
        res,
    )
}

/// Whether the value on the stack `node` gives these booleans: a scalar its own boolean in every
/// row, a column the boolean of its element there.
pub open spec fn condition_gives<'a, D: AsMySQLBool>(
    node: RpnStackNode<'a, D>,
    rows: usize,
    before: D::Context,
    after: D::Context,
    initial: Seq<bool>,
    outputs: Seq<bool>,
) -> bool {
    &&& outputs.len() == initial.len()
    &&& forall|i: int| rows <= i < initial.len() ==> outputs[i] == initial[i]
    &&& match node {
        RpnStackNode::Scalar { value, field_type } => exists|b: bool| #[trigger]
            scalar_converts(*value, before, after, Ok(b)) && forall|i: int|
                0 <= i < rows ==> outputs[i] == b,
        RpnStackNode::Vector { value, field_type } => {
            let column = match value {
                RpnStackNodeVectorValue::Owned(column) => *column,
                RpnStackNodeVectorValue::Ref(column) => *column,
            };
            exists|states: Seq<D::Context>| #[trigger]
                between(before, states) && states.len() == rows + 1 && states.first() == before
                    && states.last() == after && forall|i: int|
                    0 <= i < rows ==> element_converts(
                        column,
                        i,
                        states[i],
                        states[i + 1],
                        Ok(#[trigger] outputs[i]),
                    )
        },
    }
}

/// When a list has been evaluated into booleans, they are those of a value into which the list
/// evaluates.
pub proof fn law_condition<D: AsMySQLBool>(
    nodes: Seq<RpnExpressionNode<D>>,
    rows: usize,
    columns: Seq<LazyBatchColumn<D>>,
    before: D::Context,
    after: D::Context,
    initial: Seq<bool>,
    outputs: Seq<bool>,
)
    requires
        rows <= initial.len(),
        exists|mid: D::Context, node: RpnStackNode<'_, D>|
            runs(nodes, rows, columns, Seq::empty(), before, mid, Ok(seq![node])) && #[trigger]
                node_converts(node, rows, mid, after, initial, outputs, Ok(())),
    ensures
        exists|mid: D::Context, node: RpnStackNode<'_, D>|
            runs(nodes, rows, columns, Seq::empty(), before, mid, Ok(seq![node])) && #[trigger]
                condition_gives(node, rows, mid, after, initial, outputs),
{
    let (mid, node) = choose|mid: D::Context, node: RpnStackNode<'_, D>|
        runs(nodes, rows, columns, Seq::empty(), before, mid, Ok(seq![node])) && #[trigger]
            node_converts(node, rows, mid, after, initial, outputs, Ok(()));
    match node {
        RpnStackNode::Scalar { value, field_type } => {
            law_scalar_condition(
                nodes,
                *value,
                *field_type,
                rows,
                columns,
                before,
                mid,
                after,
                initial,
                outputs,
                Ok(()),
            );
        },
        RpnStackNode::Vector { value, field_type } => {
            let states = law_column_condition(
                nodes,
                value,
                *field_type,
                rows,
                columns,
                before,
                mid,
                after,
                initial,
                outputs,
                Ok(()),
            );
            assert(between(mid, states));
        },
    }
    assert(condition_gives(node, rows, mid, after, initial, outputs));
}

} // verus!
