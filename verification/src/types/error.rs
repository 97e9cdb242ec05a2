//! Errors of the type check.

use vstd::prelude::*;
use crate::types::operator::FormulaOperator;
use crate::types::types::FormulaValueType;

verus! {

/// The kind of a type error.
#[derive(Clone, Copy, Debug, PartialEq, Eq, Structural)]
pub enum TypeErrorType {
    UnknownError,
    /// An operator was applied to types it does not accept.
    OperatorMismatchError(FormulaOperator, FormulaValueType, Option<FormulaValueType>),
}

/// A type error: its kind and, where there is one, a message.
#[derive(Clone, Debug, PartialEq)]
pub struct TypeError {
    pub type_: TypeErrorType,
    pub message: Option<String>,
}

impl TypeError {
    /// An error of the given kind with no message.
    pub fn new(type_: TypeErrorType) -> (r: Self)
        ensures
            r.type_ == type_,
            r.message is None,
    {
        Self { type_, message: None }
    }

    /// An error of no stated kind.
    pub fn unknown() -> (r: Self)
        ensures
            r.type_ == TypeErrorType::UnknownError,
            r.message is None,
    {
        Self::new(TypeErrorType::UnknownError)
    }

    /// The same error with `msg` as its message.
    pub fn with_message(self, msg: String) -> (r: Self)
        ensures
            r.type_ == self.type_,
            r.message == Some(msg),
    {
        Self { type_: self.type_, message: Some(msg) }
    }

    /// The error of an operator on types that it does not accept.
    pub fn operator_mismatch(operator: FormulaOperator, lhs: FormulaValueType, rhs: Option<FormulaValueType>) -> (r:
        Self)
        ensures
            r.type_ == TypeErrorType::OperatorMismatchError(operator, lhs, rhs),
            r.message is None,
    {
        Self::new(TypeErrorType::OperatorMismatchError(operator, lhs, rhs))
    }
}

} // verus!
