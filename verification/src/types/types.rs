//! The types of values.

use vstd::prelude::*;
use crate::types::error::{TypeError, TypeErrorType};
use crate::types::operator::FormulaOperator;

verus! {

/// The type of a value.
#[derive(Clone, Copy, Debug, PartialEq, Eq, Structural)]
pub enum FormulaValueType {
    Error,
    Bool,
    Number,
    String,
    DateTime,
    Duration,
    Array,
    Object,
    Function,
    Null,
}

impl FormulaValueType {
    /// The type of the sum of two values of the given types, if they can be
    /// added.
    pub open spec fn sum(self, rhs: FormulaValueType) -> Option<FormulaValueType> {
        match (self, rhs) {
            (FormulaValueType::Number, FormulaValueType::Number) => Some(FormulaValueType::Number),
            (FormulaValueType::String, FormulaValueType::String) => Some(FormulaValueType::String),
            (FormulaValueType::Number, FormulaValueType::String) => Some(FormulaValueType::String),
            (FormulaValueType::String, FormulaValueType::Number) => Some(FormulaValueType::String),
            (FormulaValueType::DateTime, FormulaValueType::Duration) => Some(
                FormulaValueType::DateTime,
            ),
            (FormulaValueType::Duration, FormulaValueType::DateTime) => Some(
                FormulaValueType::DateTime,
            ),
            (FormulaValueType::Duration, FormulaValueType::Duration) => Some(
                FormulaValueType::Duration,
            ),
            _ => None,
        }
    }

    /// The type of `self + rhs`, or the error of types that cannot be added.
    pub fn add(self, rhs: FormulaValueType) -> (r: Result<FormulaValueType, TypeError>)
        ensures
            match self.sum(rhs) {
                Some(t) => r == Ok::<FormulaValueType, TypeError>(t),
                None => r matches Err(e) && e.type_ == TypeErrorType::OperatorMismatchError(
                    FormulaOperator::Add,
                    self,
                    Some(rhs),
                ) && e.message is None,
            },
    {
        match (self, rhs) {
            (FormulaValueType::Number, FormulaValueType::Number) => Ok(FormulaValueType::Number),
            (FormulaValueType::String, FormulaValueType::String) => Ok(FormulaValueType::String),
            (FormulaValueType::Number, FormulaValueType::String) => Ok(FormulaValueType::String),
            (FormulaValueType::String, FormulaValueType::Number) => Ok(FormulaValueType::String),
            (FormulaValueType::DateTime, FormulaValueType::Duration) => Ok(
                FormulaValueType::DateTime,
            ),
            (FormulaValueType::Duration, FormulaValueType::DateTime) => Ok(
                FormulaValueType::DateTime,
            ),
            (FormulaValueType::Duration, FormulaValueType::Duration) => Ok(
                FormulaValueType::Duration,
            ),
            _ => Err(TypeError::operator_mismatch(FormulaOperator::Add, self, Some(rhs))),
        }
    }
}

} // verus!
