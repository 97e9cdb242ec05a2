//! The instructions of the virtual machine.

use vstd::prelude::*;
use crate::share::rational::Rational;

verus! {

/// One instruction of a compiled formula.
#[derive(Debug, PartialEq)]
pub enum OperatorCode {
    Add,
    Subtract,
    Multiply,
    Divide,
    Modulo,
    Factorial,
    Power,
    /// Pushes a number.
    PushNumber(Rational),
    /// Pushes a string.
    PushString(String),
    /// Pushes the value of a variable.
    LoadIdentifier(String),
    /// Replaces an array of objects by the array of one field of each.
    LoadPropertyAccess(String),
    /// Replaces an array of objects by those whose field compares as stated:
    /// the field, the comparison and the text of the literal.
    FilterExpression(String, String, String),
    /// Calls a function with the given number of arguments.
    Call(u8),
}

/// What an instruction is.
pub enum OperatorView {
    Add,
    Subtract,
    Multiply,
    Divide,
    Modulo,
    Factorial,
    Power,
    PushNumber(Rational),
    PushString(Seq<char>),
    LoadIdentifier(Seq<char>),
    LoadPropertyAccess(Seq<char>),
    FilterExpression(Seq<char>, Seq<char>, Seq<char>),
    Call(u8),
}

impl View for OperatorCode {
    type V = OperatorView;

    open spec fn view(&self) -> OperatorView {
        match self {
            OperatorCode::Add => OperatorView::Add,
            OperatorCode::Subtract => OperatorView::Subtract,
            OperatorCode::Multiply => OperatorView::Multiply,
            OperatorCode::Divide => OperatorView::Divide,
            OperatorCode::Modulo => OperatorView::Modulo,
            OperatorCode::Factorial => OperatorView::Factorial,
            OperatorCode::Power => OperatorView::Power,
            OperatorCode::PushNumber(n) => OperatorView::PushNumber(*n),
            OperatorCode::PushString(s) => OperatorView::PushString(s@),
            OperatorCode::LoadIdentifier(n) => OperatorView::LoadIdentifier(n@),
            OperatorCode::LoadPropertyAccess(f) => OperatorView::LoadPropertyAccess(f@),
            OperatorCode::FilterExpression(f, o, l) => OperatorView::FilterExpression(f@, o@, l@),
            OperatorCode::Call(n) => OperatorView::Call(*n),
        }
    }
}

impl Clone for OperatorCode {
    fn clone(&self) -> (r: OperatorCode)
        ensures
            r@ == self@,
    {
        match self {
            OperatorCode::Add => OperatorCode::Add,
            OperatorCode::Subtract => OperatorCode::Subtract,
            OperatorCode::Multiply => OperatorCode::Multiply,
            OperatorCode::Divide => OperatorCode::Divide,
            OperatorCode::Modulo => OperatorCode::Modulo,
            OperatorCode::Factorial => OperatorCode::Factorial,
            OperatorCode::Power => OperatorCode::Power,
            OperatorCode::PushNumber(n) => OperatorCode::PushNumber(*n),
            OperatorCode::PushString(s) => OperatorCode::PushString(s.clone()),
            OperatorCode::LoadIdentifier(n) => OperatorCode::LoadIdentifier(n.clone()),
            OperatorCode::LoadPropertyAccess(f) => OperatorCode::LoadPropertyAccess(f.clone()),
            OperatorCode::FilterExpression(f, o, l) => OperatorCode::FilterExpression(
                f.clone(),
                o.clone(),
                l.clone(),
            ),
            OperatorCode::Call(n) => OperatorCode::Call(*n),
        }
    }
}

/// The views of a program's instructions.
pub open spec fn program_view(codes: Seq<OperatorCode>) -> Seq<OperatorView> {
    codes.map_values(|c: OperatorCode| c@)
}

} // verus!
