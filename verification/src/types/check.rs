//! The type of an expression of literals and sums.

use vstd::prelude::*;
use crate::parse::ast::{Expression, ExpressionKind};
use crate::share::text::same_text;
use crate::types::error::{TypeError, TypeErrorType};
use crate::types::operator::FormulaOperator;
use crate::types::types::FormulaValueType;

verus! {

/// What a type check gives: the type, or the kind of the error.
pub open spec fn checked(r: Result<FormulaValueType, TypeError>) -> Result<
    FormulaValueType,
    TypeErrorType,
> {
    match r {
        Ok(t) => Ok(t),
        Err(e) => Err(e.type_),
    }
}

/// The type of an expression: a number literal is a number, a string literal
/// a string, a factorial has the type of its argument and a sum the type of
/// the sum of its operands. The first operand that fails decides; any other
/// expression is an unknown error.
pub open spec fn type_of(e: Expression) -> Result<FormulaValueType, TypeErrorType>
    decreases e,
{
    match e {
        Expression::Number { .. } => Ok(FormulaValueType::Number),
        Expression::Text { .. } => Ok(FormulaValueType::String),
        Expression::Unary { prefix, argument, .. } => if prefix {
            Err(TypeErrorType::UnknownError)
        } else {
            type_of(*argument)
        },
        Expression::Binary { left, operator, right, .. } => if operator.1 == "+"@ {
            match type_of(*left) {
                Err(e) => Err(e),
                Ok(l) => match type_of(*right) {
                    Err(e) => Err(e),
                    Ok(r) => match l.sum(r) {
                        Some(t) => Ok(t),
                        None => Err(
                            TypeErrorType::OperatorMismatchError(FormulaOperator::Add, l, Some(r)),
                        ),
                    },
                },
            }
        } else {
            Err(TypeErrorType::UnknownError)
        },
        _ => Err(TypeErrorType::UnknownError),
    }
}

/// Checks the type of an expression.
pub fn type_check(expression: &ExpressionKind) -> (r: Result<FormulaValueType, TypeError>)
    ensures
        checked(r) == type_of(expression@),
        r matches Err(e) ==> e.message is None,
    decreases expression,
{
    match expression {
        ExpressionKind::NumberLiteralKind(_, _) => Ok(FormulaValueType::Number),
        ExpressionKind::StringLiteralKind(_, _) => Ok(FormulaValueType::String),
        ExpressionKind::UnaryExpressionKind(_, unary) => {
            if unary.prefix {
                Err(TypeError::unknown())
            } else {
                type_check(&unary.argument.1)
            }
        },
        ExpressionKind::BinaryExpressionKind(_, binary) => {
            if same_text(binary.operator.1.as_str(), "+") {
                match type_check(&binary.left.1) {
                    Err(e) => Err(e),
                    Ok(l) => match type_check(&binary.right.1) {
                        Err(e) => Err(e),
                        Ok(r) => l.add(r),
                    },
                }
            } else {
                Err(TypeError::unknown())
            }
        },
        _ => Err(TypeError::unknown()),
    }
}

} // verus!
