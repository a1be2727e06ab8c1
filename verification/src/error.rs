//! Errors of building and evaluating expressions.
use crate::expr::ExprType;
use crate::field_type::EvalType;
use vstd::prelude::*;

verus! {

/// An error of building or evaluating an expression. `E` is the error type of the surrounding
/// system.
#[derive(Debug)]
pub enum Error<E> {
    /// The field type of a definition has no evaluation type, for the reason inside.
    UnsupportedFieldType(E),
    /// A literal of this evaluation type could not be decoded.
    Decode(EvalType),
    /// The offset of a column reference could not be decoded.
    DecodeColumnOffset,
    /// A literal of this kind cannot have this evaluation type.
    UnexpectedEvalType { eval_type: EvalType, expr_type: ExprType },
    /// A function call has another number of arguments than the function takes.
    UnexpectedArguments { expect: usize, received: usize },
    /// A definition of this kind has no counterpart in an expression list.
    UnexpectedExprType(ExprType),
    /// An error of the surrounding system, as it was reported.
    External(E),
}

/// The character of the decimal digit `d`.
pub open spec fn digit(d: usize) -> Seq<char> {
    match d {
        0 => "0"@,
        1 => "1"@,
        2 => "2"@,
        3 => "3"@,
        4 => "4"@,
        5 => "5"@,
        6 => "6"@,
        7 => "7"@,
        8 => "8"@,
        _ => "9"@,
    }
}

/// The decimal digits of `n`, without leading zeros.
pub open spec fn decimal_digits(n: usize) -> Seq<char>
    decreases n,
{
    if n < 10 {
        digit(n)
    } else {
        decimal_digits(n / 10) + digit(n % 10)
    }
}

/// Appends the decimal digits of `n` to `text`.
fn append_number(text: &mut String, n: usize)
    ensures
        final(text)@ == old(text)@ + decimal_digits(n),
    decreases n,
{
    if n >= 10 {
        append_number(text, n / 10);
    }
    let last = match n % 10 {
        0 => "0",
        1 => "1",
        2 => "2",
        3 => "3",
        4 => "4",
        5 => "5",
        6 => "6",
        7 => "7",
        8 => "8",
        _ => "9",
    };
    text.append(last);
}

impl<E> Error<E> {
    /// The text that describes the error; `None` when the error inside describes itself.
    pub open spec fn spec_message(self) -> Option<Seq<char>> {
        match self {
            Error::UnsupportedFieldType(_) | Error::External(_) => None,
            Error::Decode(eval_type) => Some(
                "Unable to decode "@ + eval_type.spec_name() + " from the request"@,
            ),
            Error::DecodeColumnOffset => Some(
                "Unable to decode column reference offset from the request"@,
            ),
            Error::UnexpectedEvalType { eval_type, expr_type } => Some(
                "Unexpected eval type "@ + eval_type.spec_name() + " for ExprType "@
                    + expr_type.spec_name(),
            ),
            Error::UnexpectedArguments { expect, received } => Some(
                "Unexpected arguments, expect "@ + decimal_digits(expect) + ", received "@
                    + decimal_digits(received),
            ),
            Error::UnexpectedExprType(expr_type) => Some(
                "Unexpected ExprType "@ + expr_type.spec_name(),
            ),
        }
    }

    /// Describes the error; `None` when the error inside describes itself.
    pub fn message(&self) -> (r: Option<String>)
        ensures
            match r {
                Some(text) => self.spec_message() == Some(text@),
                None => self.spec_message() is None,
            },
    {
        let mut text = String::new();
        match self {
            Error::UnsupportedFieldType(_) | Error::External(_) => {
                return None;
            },
            Error::Decode(eval_type) => {
                text.append("Unable to decode ");
                text.append(eval_type.name());
                text.append(" from the request");
            },
            Error::DecodeColumnOffset => {
                text.append("Unable to decode column reference offset from the request");
            },
            Error::UnexpectedEvalType { eval_type, expr_type } => {
                text.append("Unexpected eval type ");
                text.append(eval_type.name());
                text.append(" for ExprType ");
                text.append(expr_type.name());
            },
            Error::UnexpectedArguments { expect, received } => {
                text.append("Unexpected arguments, expect ");
                append_number(&mut text, *expect);
                text.append(", received ");
                append_number(&mut text, *received);
            },
            Error::UnexpectedExprType(expr_type) => {
                text.append("Unexpected ExprType ");
                text.append(expr_type.name());
            },
        }
        Some(text)
    }
}

} // verus!
