//! What holds of the texts that describe errors.
use crate::error::{decimal_digits, digit, Error};
use crate::expr::ExprType;
use crate::field_type::EvalType;
use vstd::prelude::*;

verus! {

/// The number that the decimal digits `text` denote.
pub open spec fn read_decimal(text: Seq<char>) -> int
    decreases text.len(),
{
    if text.len() == 0 {
        0
    } else {
        10 * read_decimal(text.drop_last()) + (text.last() as int - '0' as int)
    }
}

/// Whether `text` holds nothing but decimal digits.
pub open spec fn all_digits(text: Seq<char>) -> bool {
    forall|i: int| 0 <= i < text.len() ==> '0' <= #[trigger] text[i] <= '9'
}

/// A number is written in decimal digits that denote it, without a zero in front.
pub proof fn law_decimal_digits(n: usize)
    ensures
        all_digits(decimal_digits(n)),
        read_decimal(decimal_digits(n)) == n,
        decimal_digits(n).len() > 0,
        decimal_digits(n)[0] == '0' <==> n == 0,
    decreases n,
{
    reveal_with_fuel(read_decimal, 2);
    lemma_digit(n % 10);
    let last = digit(n % 10);
    if n >= 10 {
        law_decimal_digits(n / 10);
        assert(decimal_digits(n).drop_last() =~= decimal_digits(n / 10));
    } else {
        assert(decimal_digits(n).drop_last() =~= Seq::empty());
    }
}

/// A decimal digit is one character, as far behind `0` as the digit says.
proof fn lemma_digit(d: usize)
    requires
        d < 10,
    ensures
        digit(d).len() == 1,
        digit(d)[0] as int == '0' as int + d,
{
    reveal_strlit("0");
    reveal_strlit("1");
    reveal_strlit("2");
    reveal_strlit("3");
    reveal_strlit("4");
    reveal_strlit("5");
    reveal_strlit("6");
    reveal_strlit("7");
    reveal_strlit("8");
    reveal_strlit("9");
}

/// Evaluation types go by their own names.
pub proof fn law_eval_type_names()
    ensures
        EvalType::Int.spec_name() == "Int"@,
        EvalType::Real.spec_name() == "Real"@,
        EvalType::Decimal.spec_name() == "Decimal"@,
        EvalType::Bytes.spec_name() == "Bytes"@,
        EvalType::DateTime.spec_name() == "DateTime"@,
        EvalType::Duration.spec_name() == "Duration"@,
        EvalType::Json.spec_name() == "Json"@,
{
}

/// Kinds of definitions go by their own names, and any other kind by the one that it came with.
pub proof fn law_expr_type_names(name: String)
    ensures
        ExprType::Null.spec_name() == "Null"@,
        ExprType::Int64.spec_name() == "Int64"@,
        ExprType::Uint64.spec_name() == "Uint64"@,
        ExprType::Float32.spec_name() == "Float32"@,
        ExprType::Float64.spec_name() == "Float64"@,
        ExprType::String.spec_name() == "String"@,
        ExprType::Bytes.spec_name() == "Bytes"@,
        ExprType::MysqlTime.spec_name() == "MysqlTime"@,
        ExprType::MysqlDuration.spec_name() == "MysqlDuration"@,
        ExprType::MysqlDecimal.spec_name() == "MysqlDecimal"@,
        ExprType::MysqlJson.spec_name() == "MysqlJson"@,
        ExprType::ScalarFunc.spec_name() == "ScalarFunc"@,
        ExprType::ColumnRef.spec_name() == "ColumnRef"@,
        ExprType::Other(name).spec_name() == name@,
{
}

/// Every error that the library finds says what was found, and where numbers were found, both of
/// them, the wanted one first. Other errors describe themselves.
pub proof fn law_messages<E>(
    inner: E,
    eval_type: EvalType,
    expr_type: ExprType,
    expect: usize,
    received: usize,
)
    ensures
        Error::UnsupportedFieldType(inner).spec_message() is None,
        Error::External(inner).spec_message() is None,
        Error::<E>::Decode(eval_type).spec_message() == Some(
            "Unable to decode "@ + eval_type.spec_name() + " from the request"@,
        ),
        Error::<E>::DecodeColumnOffset.spec_message() == Some(
            "Unable to decode column reference offset from the request"@,
        ),
        (Error::<E>::UnexpectedEvalType { eval_type, expr_type }).spec_message() == Some(
            "Unexpected eval type "@ + eval_type.spec_name() + " for ExprType "@
                + expr_type.spec_name(),
        ),
        (Error::<E>::UnexpectedArguments { expect, received }).spec_message() matches Some(text)
            && exists|a: Seq<char>, b: Seq<char>|
            text == "Unexpected arguments, expect "@ + a + ", received "@ + b && #[trigger]
                all_digits(a) && #[trigger] all_digits(b) && read_decimal(a) == expect
                && read_decimal(b) == received,
        Error::<E>::UnexpectedExprType(expr_type).spec_message() == Some(
            "Unexpected ExprType "@ + expr_type.spec_name(),
        ),
{
    law_decimal_digits(expect);
    law_decimal_digits(received);
}

} // verus!
