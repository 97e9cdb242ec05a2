//! What can go wrong with a formula: in its types or in its numbers.

use vstd::prelude::*;
use crate::types::operator::FormulaOperator;
use crate::types::types::FormulaValueType;

verus! {

/// The kind of a formula error.
#[derive(Clone, Copy, Debug, PartialEq, Eq, Structural)]
pub enum FormulaErrorType {
    DefaultError,
    /// A value has another type than was asked for.
    TypeMismatchError,
    /// An operator was applied to types it does not accept.
    OperatorMismatchError(FormulaOperator, FormulaValueType, Option<FormulaValueType>),
    DivideByZero,
    NumberConversionError,
    PowNotRational,
    FactorialNotInteger,
    FactorialNotNegative,
}

/// A formula error: its kind and, where there is one, a message.
#[derive(Clone, Debug, PartialEq)]
pub struct FormulaError {
    pub type_: FormulaErrorType,
    pub message: Option<String>,
}

impl FormulaError {
    /// An error of the given kind with no message.
    pub fn new(type_: FormulaErrorType) -> (r: Self)
        ensures
            r.type_ == type_,
            r.message is None,
    {
        Self { type_, message: None }
    }

    /// An error of no stated kind.
    pub fn default_error() -> (r: Self)
        ensures
            r.type_ == FormulaErrorType::DefaultError,
            r.message is None,
    {
        Self::new(FormulaErrorType::DefaultError)
    }

    /// The same error with `msg` as its message.
    pub fn with_message(self, msg: String) -> (r: Self)
        ensures
            r.type_ == self.type_,
            r.message == Some(msg),
    {
        Self { type_: self.type_, message: Some(msg) }
    }

    /// The error of an operator on types that it does not accept.
    pub fn operator_mismatch_error(operator: FormulaOperator, lhs: FormulaValueType, rhs: Option<FormulaValueType>) -> (r:
        Self)
        ensures
            r.type_ == FormulaErrorType::OperatorMismatchError(operator, lhs, rhs),
            r.message is None,
    {
        Self::new(FormulaErrorType::OperatorMismatchError(operator, lhs, rhs))
    }

    /// The error of a division by zero.
    pub fn divide_by_zero() -> (r: Self)
        ensures
            r.type_ == FormulaErrorType::DivideByZero,
            r.message is None,
    {
        Self::new(FormulaErrorType::DivideByZero)
    }

    /// The error of a number that the machine's integers cannot hold.
    pub fn number_conversion_error() -> (r: Self)
        ensures
            r.type_ == FormulaErrorType::NumberConversionError,
            r.message is None,
    {
        Self::new(FormulaErrorType::NumberConversionError)
    }

    /// The error of an exponent that is no integer.
    pub fn pow_not_rational() -> (r: Self)
        ensures
            r.type_ == FormulaErrorType::PowNotRational,
            r.message is None,
    {
        Self::new(FormulaErrorType::PowNotRational)
    }

    /// The error of the factorial of a number that is no integer.
    pub fn factorial_not_integer() -> (r: Self)
        ensures
            r.type_ == FormulaErrorType::FactorialNotInteger,
            r.message is None,
    {
        Self::new(FormulaErrorType::FactorialNotInteger)
    }

    /// The error of the factorial of a negative number.
    pub fn factorial_not_negative() -> (r: Self)
        ensures
            r.type_ == FormulaErrorType::FactorialNotNegative,
            r.message is None,
    {
        Self::new(FormulaErrorType::FactorialNotNegative)
    }

    /// The error of a value of another type than was asked for.
    pub fn type_mismatch_error() -> (r: Self)
        ensures
            r.type_ == FormulaErrorType::TypeMismatchError,
            r.message is None,
    {
        Self::new(FormulaErrorType::TypeMismatchError)
    }
}

} // verus!
