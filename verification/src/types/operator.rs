//! The operators of the language.

use vstd::prelude::*;

verus! {

/// An operator of the formula language.
#[derive(Clone, Copy, Debug, PartialEq, Eq, Structural)]
pub enum FormulaOperator {
    Add,
    Sub,
    Mul,
    Div,
    Pow,
    Factorial,
    Rem,
    Neg,
    And,
    Or,
    Not,
    Eq,
    Ne,
    Gt,
    Ge,
    Lt,
    Le,
    Dot,
    Call,
}

} // verus!
