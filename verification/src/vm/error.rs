//! Errors of the virtual machine.

use vstd::prelude::*;
use vstd::string::StringExecFns;
use crate::share::text::{int_text, push_decimal};
use crate::types::operator::FormulaOperator;
use crate::types::types::FormulaValueType;

verus! {

/// The kind of an evaluation error.
#[derive(Clone, Copy, Debug, PartialEq, Eq, Structural)]
pub enum ExecuteErrorType {
    UnknownError,
    /// The program did not leave exactly one value.
    ResultCountMismatchError,
    /// An operator was applied to values it does not accept: the operator,
    /// the type of its left operand and, where it has one, of its right.
    OperatorMismatchError(FormulaOperator, FormulaValueType, Option<FormulaValueType>),
    DivideByZero,
    /// A number does not fit the machine's integers.
    NumberConversionError,
    PowNotRational,
    FactorialNotInteger,
    FactorialNotNegative,
    IdentifierNotFound,
    /// The stack held values when the program started.
    StackNotEmpty,
    NotAFunction,
    FunctionNotFound,
    FunctionInvalidArgument,
    DotInputNotAObjectArray,
    DotNotFountProperty,
}

/// An evaluation error: its kind and, for some kinds, a message.
#[derive(Clone, Debug, PartialEq)]
pub struct ExecuteError {
    pub type_: ExecuteErrorType,
    pub message: Option<String>,
}

/// What an error is: its kind and the text of its message.
pub struct ErrorView {
    pub type_: ExecuteErrorType,
    pub message: Option<Seq<char>>,
}

impl View for ExecuteError {
    type V = ErrorView;

    open spec fn view(&self) -> ErrorView {
        ErrorView {
            type_: self.type_,
            message: match self.message {
                Some(m) => Some(m@),
                None => None,
            },
        }
    }
}

impl ErrorView {
    /// An error of the given kind with no message.
    pub open spec fn plain(type_: ExecuteErrorType) -> ErrorView {
        ErrorView { type_, message: None }
    }

    /// An error of the given kind with a message.
    pub open spec fn with_text(type_: ExecuteErrorType, text: Seq<char>) -> ErrorView {
        ErrorView { type_, message: Some(text) }
    }

    /// The error of an operator applied to operands of types that it does
    /// not accept.
    pub open spec fn mismatch(operator: FormulaOperator, lhs: FormulaValueType, rhs: Option<
        FormulaValueType,
    >) -> ErrorView {
        ErrorView::plain(ExecuteErrorType::OperatorMismatchError(operator, lhs, rhs))
    }
}

/// The items of `parts` with `sep` between them.
pub open spec fn joined(parts: Seq<Seq<char>>, sep: Seq<char>) -> Seq<char>
    decreases parts.len(),
{
    if parts.len() == 0 {
        Seq::empty()
    } else if parts.len() == 1 {
        parts[0]
    } else {
        joined(parts.drop_last(), sep) + sep + parts.last()
    }
}

/// The text that the standard library's `{:?}` gives for a string: the string
/// in double quotes, with its special characters escaped.
pub uninterp spec fn debug_text(s: Seq<char>) -> Seq<char>;

/// `format!("{:?}", s)` on a string.
#[verifier::external_body]
fn debug_quoted(s: &str) -> (r: String)
    ensures
        r@ == debug_text(s@),
{
    format!("{:?}", s)
}

/// The views of a vector of string slices.
pub open spec fn views(v: Seq<&str>) -> Seq<Seq<char>> {
    v.map_values(|s: &str| s@)
}

fn join_with_comma(parts: &Vec<&str>) -> (r: String)
    ensures
        r@ == joined(views(parts@), ","@),
{
    let mut out = String::new();
    let mut i: usize = 0;
    while i < parts.len()
        invariant
            i <= parts.len(),
            out@ == joined(views(parts@.take(i as int)), ","@),
        decreases parts.len() - i,
    {
        proof {
            let next = views(parts@.take(i + 1));
            assert(next.drop_last() =~= views(parts@.take(i as int)));
            assert(next.last() == parts@[i as int]@);
        }
        if i > 0 {
            out.append(",");
        }
        out.append(parts[i]);
        i = i + 1;
    }
    assert(parts@.take(parts.len() as int) =~= parts@);
    out
}

impl ExecuteError {
    /// The message of a program that left `actual` values.
    pub open spec fn result_count_text(actual: nat) -> Seq<char> {
        "result count expect 1, actual: "@ + int_text(actual as int)
    }

    /// The message of a builtin that was called with arguments it does not
    /// accept: what it accepts and what it got, each list in quotes.
    pub open spec fn invalid_argument_text(except: Seq<Seq<char>>, actual: Seq<Seq<char>>) -> Seq<
        char,
    > {
        "function invalid argument, except: "@ + debug_text(joined(except, ","@)) + ", actual: "@
            + debug_text(joined(actual, ","@))
    }

    /// An error of the given kind with no message.
    pub fn new(type_: ExecuteErrorType) -> (r: Self)
        ensures
            r.type_ == type_,
            r.message is None,
    {
        Self { type_, message: None }
    }

    /// An error of no stated kind.
    pub fn unknown() -> (r: Self)
        ensures
            r.type_ == ExecuteErrorType::UnknownError,
            r.message is None,
    {
        Self::new(ExecuteErrorType::UnknownError)
    }

    /// The same error with `msg` as its message.
    pub fn with_message(self, msg: String) -> (r: Self)
        ensures
            r.type_ == self.type_,
            r.message == Some(msg),
    {
        Self { type_: self.type_, message: Some(msg) }
    }

    /// The error of an operator on operands of types that it does not
    /// accept: it carries the operator and the types.
    pub fn operator_mismatch(operator: FormulaOperator, lhs: FormulaValueType, rhs: Option<FormulaValueType>) -> (r:
        Self)
        ensures
            r.type_ == ExecuteErrorType::OperatorMismatchError(operator, lhs, rhs),
            r.message is None,
            r@ == ErrorView::mismatch(operator, lhs, rhs),
    {
        Self::new(ExecuteErrorType::OperatorMismatchError(operator, lhs, rhs))
    }

    /// The error of a division by zero.
    pub fn divide_by_zero() -> (r: Self)
        ensures
            r.type_ == ExecuteErrorType::DivideByZero,
            r.message is None,
    {
        Self::new(ExecuteErrorType::DivideByZero)
    }

    /// The error of a number that the machine's integers cannot hold.
    pub fn number_conversion_error() -> (r: Self)
        ensures
            r.type_ == ExecuteErrorType::NumberConversionError,
            r.message is None,
    {
        Self::new(ExecuteErrorType::NumberConversionError)
    }

    /// The error of an exponent that is no integer.
    pub fn pow_not_rational() -> (r: Self)
        ensures
            r.type_ == ExecuteErrorType::PowNotRational,
            r.message is None,
    {
        Self::new(ExecuteErrorType::PowNotRational)
    }

    /// The error of the factorial of a number that is no integer.
    pub fn factorial_not_integer() -> (r: Self)
        ensures
            r.type_ == ExecuteErrorType::FactorialNotInteger,
            r.message is None,
    {
        Self::new(ExecuteErrorType::FactorialNotInteger)
    }

    /// The error of the factorial of a negative number.
    pub fn factorial_not_negative() -> (r: Self)
        ensures
            r.type_ == ExecuteErrorType::FactorialNotNegative,
            r.message is None,
    {
        Self::new(ExecuteErrorType::FactorialNotNegative)
    }

    /// The error of a program that left `actual` values in place of one.
    pub fn result_count_mismatch(actual: usize) -> (r: Self)
        ensures
            r.type_ == ExecuteErrorType::ResultCountMismatchError,
            r.message matches Some(m) && m@ == Self::result_count_text(actual as nat),
    {
        let mut msg = String::from_str("result count expect 1, actual: ");
        push_decimal(&mut msg, actual as u64);
        Self::new(ExecuteErrorType::ResultCountMismatchError).with_message(msg)
    }

    /// The error of a variable that is not bound.
    pub fn identifier_not_found(identifier: &String) -> (r: Self)
        ensures
            r.type_ == ExecuteErrorType::IdentifierNotFound,
            r.message matches Some(m) && m@ == "identifier not found: "@ + identifier@,
    {
        let mut msg = String::from_str("identifier not found: ");
        msg.append(identifier.as_str());
        Self::new(ExecuteErrorType::IdentifierNotFound).with_message(msg)
    }

    /// The error of a stack that held values when the program started.
    pub fn stack_not_empty() -> (r: Self)
        ensures
            r.type_ == ExecuteErrorType::StackNotEmpty,
            r.message is None,
    {
        Self::new(ExecuteErrorType::StackNotEmpty)
    }

    /// The error of a call of what is no function.
    pub fn not_a_function() -> (r: Self)
        ensures
            r.type_ == ExecuteErrorType::NotAFunction,
            r.message is None,
    {
        Self::new(ExecuteErrorType::NotAFunction)
    }

    /// The error of a call of a function that the machine does not have.
    pub fn function_not_found(name: &String) -> (r: Self)
        ensures
            r.type_ == ExecuteErrorType::FunctionNotFound,
            r.message matches Some(m) && m@ == "function not found: "@ + name@,
    {
        let mut msg = String::from_str("function not found: ");
        msg.append(name.as_str());
        Self::new(ExecuteErrorType::FunctionNotFound).with_message(msg)
    }

    /// The error of a builtin that was called with arguments it does not
    /// accept.
    pub fn function_invalid_argument(except: Vec<&str>, actual: Vec<&str>) -> (r: Self)
        ensures
            r.type_ == ExecuteErrorType::FunctionInvalidArgument,
            r.message matches Some(m) && m@ == Self::invalid_argument_text(
                views(except@),
                views(actual@),
            ),
    {
        let mut msg = String::from_str("function invalid argument, except: ");
        let expected = debug_quoted(join_with_comma(&except).as_str());
        msg.append(expected.as_str());
        msg.append(", actual: ");
        let found = debug_quoted(join_with_comma(&actual).as_str());
        msg.append(found.as_str());
        Self::new(ExecuteErrorType::FunctionInvalidArgument).with_message(msg)
    }

    /// The error of a projection or a filter on what is no array of objects;
    /// the message is the field.
    pub fn dot_input_not_object_array(field: &String) -> (r: Self)
        ensures
            r.type_ == ExecuteErrorType::DotInputNotAObjectArray,
            r.message == Some(*field),
    {
        Self::new(ExecuteErrorType::DotInputNotAObjectArray).with_message(field.clone())
    }

    /// The error of a property that an object lacks.
    pub fn dot_not_found_property() -> (r: Self)
        ensures
            r.type_ == ExecuteErrorType::DotNotFountProperty,
            r.message is None,
    {
        Self::new(ExecuteErrorType::DotNotFountProperty)
    }
}

} // verus!
