//! The values that the machine computes with, and their arithmetic.
//!
//! Numbers are exact: no operation rounds, wraps or saturates. Where a result
//! cannot be held in 64 bits, the operation fails with
//! `NumberConversionError`. An operator on values that it does not accept
//! fails with `OperatorMismatchError`, which carries the operator and the
//! types of the operands.

use vstd::prelude::*;
use vstd::string::StringExecFns;
use crate::share::rational::{
    difference_fits, exact_difference, exact_power, exact_product, exact_quotient,
    exact_remainder, exact_sum, power_fits, product_fits, quotient_fits, sum_fits,
    ratio_checked_add, ratio_checked_div, ratio_checked_mul, ratio_checked_pow, ratio_checked_sub,
    ratio_decimal_text, ratio_difference, ratio_lt, ratio_power, ratio_product, ratio_quotient,
    ratio_recip, ratio_rem, ratio_remainder, ratio_sum, ratio_to_decimal_text, rem_in_range,
    wide_product, Rational,
};
use crate::share::text::{
    int_text, int_to_string, push_decimal, push_int, same_text, text_less, text_lt,
};
use vstd::arithmetic::div_mod::{lemma_fundamental_div_mod, lemma_fundamental_div_mod_converse_div};
use crate::types::operator::FormulaOperator;
use crate::types::types::FormulaValueType;
use crate::vm::error::{joined, ErrorView, ExecuteError, ExecuteErrorType};
use crate::vm::object::ValueMap;

verus! {

/// A runtime value.
#[derive(Debug, PartialEq)]
pub enum Value {
    Bool(bool),
    /// An exact rational number.
    Number(Rational),
    String(String),
    /// An instant, in milliseconds since the epoch.
    DateTime(u64),
    /// A signed span of milliseconds.
    Duration(i64),
    Array(Vec<Value>),
    Object(ValueMap),
    /// A builtin function, by the name under which it is dispatched.
    Function(String),
    Null,
}

/// What a value is: the mathematical model that the contracts speak of.
pub enum ValueView {
    Bool(bool),
    Number(Rational),
    String(Seq<char>),
    DateTime(u64),
    Duration(i64),
    Array(Seq<ValueView>),
    Object(Map<Seq<char>, ValueView>),
    Function(Seq<char>),
    Null,
}

impl View for Value {
    type V = ValueView;

    open spec fn view(&self) -> ValueView
        decreases self,
    {
        match self {
            Value::Bool(b) => ValueView::Bool(*b),
            Value::Number(n) => ValueView::Number(*n),
            Value::String(s) => ValueView::String(s@),
            Value::DateTime(t) => ValueView::DateTime(*t),
            Value::Duration(d) => ValueView::Duration(*d),
            Value::Array(a) => ValueView::Array(views_of(a@)),
            Value::Object(m) => ValueView::Object(m@),
            Value::Function(name) => ValueView::Function(name@),
            Value::Null => ValueView::Null,
        }
    }
}

/// The views of the items of a vector.
pub open spec fn views_of(items: Seq<Value>) -> Seq<ValueView>
    decreases items,
{
    if items.len() == 0 {
        Seq::empty()
    } else {
        views_of(items.drop_last()).push(items.last().view())
    }
}

/// `views_of` goes item by item.
pub proof fn lemma_views_of(items: Seq<Value>)
    ensures
        views_of(items).len() == items.len(),
        forall|i: int| 0 <= i < items.len() ==> (#[trigger] views_of(items)[i]) == items[i]@,
    decreases items.len(),
{
    if items.len() > 0 {
        lemma_views_of(items.drop_last());
        assert(views_of(items) == views_of(items.drop_last()).push(items.last().view()));
    } else {
        assert(views_of(items) == Seq::<ValueView>::empty());
    }
}

/// The views of the first `i + 1` items, from those of the first `i`.
pub proof fn lemma_views_of_take(items: Seq<Value>, i: int)
    requires
        0 <= i < items.len(),
    ensures
        views_of(items.take(i + 1)) == views_of(items.take(i)).push(items[i]@),
        views_of(items.take(i + 1)).drop_last() == views_of(items.take(i)),
        views_of(items.take(i + 1)).last() == items[i]@,
        views_of(items.take(i + 1)).len() == i + 1,
{
    assert(items.take(i + 1).drop_last() =~= items.take(i));
    assert(items.take(i + 1).last() == items[i]);
    assert(views_of(items.take(i)).push(items[i]@).drop_last() =~= views_of(items.take(i)));
    lemma_views_of(items.take(i + 1));
}

/// The views of a longer vector, from those of a shorter one.
pub proof fn lemma_views_of_push(items: Seq<Value>, item: Value)
    ensures
        views_of(items.push(item)) == views_of(items).push(item@),
{
    assert(items.push(item).drop_last() =~= items);
}

/// The product of the integers from one to `n`.
pub open spec fn factorial_of(n: nat) -> nat
    decreases n,
{
    if n == 0 {
        1
    } else {
        n * factorial_of((n - 1) as nat)
    }
}

/// `x / y` rounded towards minus infinity.
pub open spec fn floor_quotient(x: int, y: int) -> int
    recommends
        y != 0,
{
    if y > 0 {
        x / y
    } else {
        (-x) / (-y)
    }
}

/// The text of a number where it is joined to a string: the numerator, and
/// after a stroke the denominator where the number is no integer.
pub open spec fn ratio_text(n: Rational) -> Seq<char> {
    if n.den() == 1 {
        int_text(n.num())
    } else {
        int_text(n.num()) + "/"@ + int_text(n.den())
    }
}

/// The error of a result that the machine's integers cannot hold.
pub open spec fn out_of_range() -> ErrorView {
    ErrorView::plain(ExecuteErrorType::NumberConversionError)
}

/// A number, where the arithmetic gave one.
pub open spec fn number_or_error(r: Option<Rational>) -> Result<ValueView, ErrorView> {
    match r {
        Some(v) => Ok(ValueView::Number(v)),
        None => Err(out_of_range()),
    }
}

/// The instant `d` milliseconds after `t`, where it can be held.
pub open spec fn instant_or_error(t: int) -> Result<ValueView, ErrorView> {
    if 0 <= t <= u64::MAX {
        Ok(ValueView::DateTime(t as u64))
    } else {
        Err(out_of_range())
    }
}

/// A span of `d` milliseconds, where it can be held.
pub open spec fn span_or_error(d: int) -> Result<ValueView, ErrorView> {
    if i64::MIN <= d <= i64::MAX {
        Ok(ValueView::Duration(d as i64))
    } else {
        Err(out_of_range())
    }
}

/// Two numbers whose cross products and their sum fit in 64 bits give a
/// number; and where two numbers give a number, it is their exact sum.
pub open spec fn sum_is_exact(lhs: ValueView, rhs: ValueView, r: Result<ValueView, ErrorView>) -> bool {
    match (lhs, rhs) {
        (ValueView::Number(a), ValueView::Number(b)) => (sum_fits(a, b) ==> r is Ok) && (
        r matches Ok(ValueView::Number(v)) ==> exact_sum(a, b, v)),
        _ => true,
    }
}

/// Two numbers whose cross products and their difference fit in 64 bits
/// give a number; and where two numbers give a number, it is their exact
/// difference.
pub open spec fn difference_is_exact(lhs: ValueView, rhs: ValueView, r: Result<
    ValueView,
    ErrorView,
>) -> bool {
    match (lhs, rhs) {
        (ValueView::Number(a), ValueView::Number(b)) => (difference_fits(a, b) ==> r is Ok) && (
        r matches Ok(ValueView::Number(v)) ==> exact_difference(a, b, v)),
        _ => true,
    }
}

/// Two numbers whose products of numerators and of denominators fit in 64
/// bits give a number; and where two numbers give a number, it is their
/// exact product.
pub open spec fn product_is_exact(lhs: ValueView, rhs: ValueView, r: Result<
    ValueView,
    ErrorView,
>) -> bool {
    match (lhs, rhs) {
        (ValueView::Number(a), ValueView::Number(b)) => (product_fits(a, b) ==> r is Ok) && (
        r matches Ok(ValueView::Number(v)) ==> exact_product(a, b, v)),
        _ => true,
    }
}

/// A number and a divisor other than zero whose cross products fit in 64
/// bits with either sign give a number; and where two numbers give a number,
/// it is their exact quotient.
pub open spec fn quotient_is_exact(lhs: ValueView, rhs: ValueView, r: Result<
    ValueView,
    ErrorView,
>) -> bool {
    match (lhs, rhs) {
        (ValueView::Number(a), ValueView::Number(b)) => (b.num() != 0 && quotient_fits(a, b)
            ==> r is Ok) && (r matches Ok(ValueView::Number(v)) ==> exact_quotient(a, b, v)),
        _ => true,
    }
}

/// Where two numbers give a number, it is the exact remainder.
pub open spec fn remainder_is_exact(lhs: ValueView, rhs: ValueView, r: Result<
    ValueView,
    ErrorView,
>) -> bool {
    match (lhs, rhs, r) {
        (
            ValueView::Number(a),
            ValueView::Number(b),
            Ok(ValueView::Number(v)),
        ) => exact_remainder(a, b, v),
        _ => true,
    }
}

/// The number that is raised: the base for an exponent that is not negative,
/// else its reciprocal.
pub open spec fn raised(a: Rational, exponent: int) -> Rational {
    if exponent >= 0 {
        a
    } else {
        a.recip()
    }
}

/// The exponent without its sign.
pub open spec fn exponent_size(exponent: int) -> nat {
    if exponent >= 0 {
        exponent as nat
    } else {
        (-exponent) as nat
    }
}

/// A number and an integer exponent of 32 bits give a number where the
/// powers of numerator and denominator fit in 64 bits, and for a negative
/// exponent the base has a reciprocal; and where two numbers give a number,
/// it is the exact power.
pub open spec fn power_is_exact(lhs: ValueView, rhs: ValueView, r: Result<ValueView, ErrorView>) -> bool {
    match (lhs, rhs) {
        (ValueView::Number(a), ValueView::Number(b)) => {
            let base = raised(a, b.num());
            let size = exponent_size(b.num());
            &&& b.den() == 1 && i32::MIN <= b.num() <= i32::MAX && (b.num() < 0 ==> a.num() != 0
                && a.num() > i64::MIN) && power_fits(base, size) ==> r is Ok
            &&& r matches Ok(ValueView::Number(v)) ==> exact_power(base, size, v)
        },
        _ => true,
    }
}

/// The view of a result.
pub open spec fn result_view(r: Result<Value, ExecuteError>) -> Result<ValueView, ErrorView> {
    match r {
        Ok(v) => Ok(v@),
        Err(e) => Err(e@),
    }
}

/// The view of the result of a comparison.
pub open spec fn verdict_view(r: Result<bool, ExecuteError>) -> Result<bool, ErrorView> {
    match r {
        Ok(b) => Ok(b),
        Err(e) => Err(e@),
    }
}

impl ValueView {
    /// The type of the value.
    pub open spec fn value_type(self) -> FormulaValueType {
        match self {
            ValueView::Bool(_) => FormulaValueType::Bool,
            ValueView::Number(_) => FormulaValueType::Number,
            ValueView::String(_) => FormulaValueType::String,
            ValueView::DateTime(_) => FormulaValueType::DateTime,
            ValueView::Duration(_) => FormulaValueType::Duration,
            ValueView::Array(_) => FormulaValueType::Array,
            ValueView::Object(_) => FormulaValueType::Object,
            ValueView::Function(_) => FormulaValueType::Function,
            ValueView::Null => FormulaValueType::Null,
        }
    }

    /// The error of a binary operator that does not accept operands of these
    /// types.
    pub open spec fn mismatch(self, operator: FormulaOperator, rhs: ValueView) -> ErrorView {
        ErrorView::mismatch(operator, self.value_type(), Some(rhs.value_type()))
    }

    /// The comparison that an operator text writes; `=` and `==` are the
    /// same.
    pub open spec fn comparison_of(op: Seq<char>) -> Option<FormulaOperator> {
        if op == "="@ || op == "=="@ {
            Some(FormulaOperator::Eq)
        } else if op == "!="@ {
            Some(FormulaOperator::Ne)
        } else if op == "<"@ {
            Some(FormulaOperator::Lt)
        } else if op == "<="@ {
            Some(FormulaOperator::Le)
        } else if op == ">"@ {
            Some(FormulaOperator::Gt)
        } else if op == ">="@ {
            Some(FormulaOperator::Ge)
        } else {
            None
        }
    }

    /// The error of a comparison that is written with a text that the
    /// machine does not know: the text is its message.
    pub open spec fn unknown_comparison(op: Seq<char>) -> ErrorView {
        ErrorView::with_text(ExecuteErrorType::UnknownError, op)
    }

    /// `self + rhs`: the sum of numbers and of spans, a string joined to a
    /// string or a number, an instant moved by a span.
    pub open spec fn add(self, rhs: ValueView) -> Result<ValueView, ErrorView> {
        match (self, rhs) {
            (ValueView::Number(a), ValueView::Number(b)) => number_or_error(ratio_sum(a, b)),
            (ValueView::String(a), ValueView::String(b)) => Ok(ValueView::String(a + b)),
            (ValueView::Number(a), ValueView::String(b)) => Ok(
                ValueView::String(ratio_text(a) + b),
            ),
            (ValueView::String(a), ValueView::Number(b)) => Ok(
                ValueView::String(a + ratio_text(b)),
            ),
            (ValueView::DateTime(a), ValueView::Duration(b)) => instant_or_error(a + b),
            (ValueView::Duration(a), ValueView::DateTime(b)) => instant_or_error(a + b),
            (ValueView::Duration(a), ValueView::Duration(b)) => span_or_error(a + b),
            _ => Err(self.mismatch(FormulaOperator::Add, rhs)),
        }
    }

    /// `self - rhs`: the difference of numbers and of spans, an instant moved
    /// back by a span.
    pub open spec fn sub(self, rhs: ValueView) -> Result<ValueView, ErrorView> {
        match (self, rhs) {
            (ValueView::Number(a), ValueView::Number(b)) => number_or_error(
                ratio_difference(a, b),
            ),
            (ValueView::DateTime(a), ValueView::Duration(b)) => instant_or_error(a - b),
            (ValueView::Duration(a), ValueView::Duration(b)) => span_or_error(a - b),
            _ => Err(self.mismatch(FormulaOperator::Sub, rhs)),
        }
    }

    /// `self * rhs`: the product of numbers, or a span scaled by a number and
    /// rounded down.
    pub open spec fn mul(self, rhs: ValueView) -> Result<ValueView, ErrorView> {
        match (self, rhs) {
            (ValueView::Number(a), ValueView::Number(b)) => number_or_error(ratio_product(a, b)),
            (ValueView::Duration(a), ValueView::Number(b)) => span_or_error(
                floor_quotient(a * b.num(), b.den()),
            ),
            _ => Err(self.mismatch(FormulaOperator::Mul, rhs)),
        }
    }

    /// `self / rhs`: the quotient of numbers, or a span divided by a number
    /// and rounded down. A zero divisor is an error.
    pub open spec fn div(self, rhs: ValueView) -> Result<ValueView, ErrorView> {
        match (self, rhs) {
            (ValueView::Number(a), ValueView::Number(b)) => if b.num() == 0 {
                Err(ErrorView::plain(ExecuteErrorType::DivideByZero))
            } else if a.num() == 0 {
                Ok(ValueView::Number(a))
            } else {
                number_or_error(ratio_quotient(a, b))
            },
            (ValueView::Duration(a), ValueView::Number(b)) => if b.num() == 0 {
                Err(ErrorView::plain(ExecuteErrorType::DivideByZero))
            } else {
                span_or_error(floor_quotient(a * b.den(), b.num()))
            },
            _ => Err(self.mismatch(FormulaOperator::Div, rhs)),
        }
    }

    /// `self % rhs` on numbers. A zero divisor is an error, and so are
    /// operands whose cross products do not fit in 64 bits.
    pub open spec fn modulo(self, rhs: ValueView) -> Result<ValueView, ErrorView> {
        match (self, rhs) {
            (ValueView::Number(a), ValueView::Number(b)) => if b.num() == 0 {
                Err(ErrorView::plain(ExecuteErrorType::DivideByZero))
            } else if !rem_in_range(a, b) {
                Err(out_of_range())
            } else {
                Ok(ValueView::Number(ratio_remainder(a, b)))
            },
            _ => Err(self.mismatch(FormulaOperator::Rem, rhs)),
        }
    }

    /// `self ^ rhs` on numbers, for an integer exponent of 32 bits. A
    /// negative exponent raises the reciprocal, which zero does not have.
    pub open spec fn pow(self, rhs: ValueView) -> Result<ValueView, ErrorView> {
        match (self, rhs) {
            (ValueView::Number(a), ValueView::Number(b)) => if b.den() != 1 {
                Err(ErrorView::plain(ExecuteErrorType::PowNotRational))
            } else if !(i32::MIN <= b.num() <= i32::MAX) {
                Err(out_of_range())
            } else if b.num() >= 0 {
                number_or_error(ratio_power(a, b.num() as usize))
            } else if a.num() == 0 {
                Err(ErrorView::plain(ExecuteErrorType::DivideByZero))
            } else if a.num() == i64::MIN {
                Err(out_of_range())
            } else {
                number_or_error(ratio_power(a.recip(), (-b.num()) as usize))
            },
            _ => Err(self.mismatch(FormulaOperator::Pow, rhs)),
        }
    }

    /// `self!` on a number that is an integer and not negative.
    pub open spec fn factorial(self) -> Result<ValueView, ErrorView> {
        match self {
            ValueView::Number(a) => if a.den() != 1 {
                Err(ErrorView::plain(ExecuteErrorType::FactorialNotInteger))
            } else if a.num() < 0 {
                Err(ErrorView::plain(ExecuteErrorType::FactorialNotNegative))
            } else if factorial_of(a.num() as nat) > i64::MAX {
                Err(out_of_range())
            } else {
                Ok(ValueView::Number(Rational::of(factorial_of(a.num() as nat) as i64, 1)))
            },
            _ => Err(ErrorView::mismatch(FormulaOperator::Factorial, self.value_type(), None)),
        }
    }

    /// Whether `op` holds between two orderable items, of which `eq` says
    /// whether they are equal and `lt` whether the first comes first.
    pub open spec fn ordered(op: Seq<char>, eq: bool, lt: bool) -> Option<bool> {
        if op == "="@ || op == "=="@ {
            Some(eq)
        } else if op == "!="@ {
            Some(!eq)
        } else if op == "<"@ {
            Some(lt)
        } else if op == "<="@ {
            Some(lt || eq)
        } else if op == ">"@ {
            Some(!lt && !eq)
        } else if op == ">="@ {
            Some(!lt)
        } else {
            None
        }
    }

    /// The comparison `self op rhs` of two numbers or of two strings. A text
    /// that writes no comparison is an error, and so are operands of other
    /// types.
    pub open spec fn compare(self, op: Seq<char>, rhs: ValueView) -> Result<bool, ErrorView> {
        let verdict = match (self, rhs) {
            (ValueView::String(l), ValueView::String(r)) => ValueView::ordered(
                op,
                l == r,
                text_lt(l, r),
            ),
            (ValueView::Number(l), ValueView::Number(r)) => ValueView::ordered(
                op,
                l == r,
                l.num() * r.den() < r.num() * l.den(),
            ),
            _ => None,
        };
        match verdict {
            Some(b) => Ok(b),
            None => match ValueView::comparison_of(op) {
                Some(operator) => Err(self.mismatch(operator, rhs)),
                None => Err(ValueView::unknown_comparison(op)),
            },
        }
    }

    /// The text shown for a value.
    ///
    /// An integer is shown in decimal, any other number as the nearest
    /// double-precision number, an array as its items between brackets. An
    /// object is shown without its entries, whose order a hash map does not fix.
    pub open spec fn display(self) -> Seq<char>
        decreases self,
    {
        match self {
            ValueView::Bool(b) => if b { "true"@ } else { "false"@ },
            ValueView::Number(n) => if n.den() == 1 {
                int_text(n.num())
            } else {
                match ratio_decimal_text(n) {
                    Some(text) => text,
                    None => "Error"@,
                }
            },
            ValueView::String(s) => s,
            ValueView::Array(a) => "["@ + joined(ValueView::display_all(a), ", "@) + "]"@,
            ValueView::DateTime(t) => "DateTime("@ + int_text(t as int) + ")"@,
            ValueView::Duration(d) => "Duration("@ + int_text(d as int) + ")"@,
            ValueView::Function(name) => "Func "@ + name + "()"@,
            ValueView::Object(_) => "Object(..)"@,
            ValueView::Null => "null"@,
        }
    }

    /// The texts shown for the items of a sequence.
    pub open spec fn display_all(items: Seq<ValueView>) -> Seq<Seq<char>>
        decreases items,
    {
        if items.len() == 0 {
            Seq::empty()
        } else {
            ValueView::display_all(items.drop_last()).push(items.last().display())
        }
    }

    /// The name of a value's type.
    pub open spec fn kind_name(self) -> Seq<char> {
        match self {
            ValueView::Array(_) => "Array"@,
            ValueView::Bool(_) => "Bool"@,
            ValueView::Number(_) => "Number"@,
            ValueView::String(_) => "String"@,
            ValueView::DateTime(_) => "DateTime"@,
            ValueView::Duration(_) => "Duration"@,
            ValueView::Function(_) => "Function"@,
            ValueView::Object(_) => "Object"@,
            ValueView::Null => "Null"@,
        }
    }
}

/// The factorial does not shrink as its argument grows, and is never zero.
pub proof fn lemma_factorial_monotonic(i: nat, j: nat)
    requires
        i <= j,
    ensures
        1 <= factorial_of(i) <= factorial_of(j),
    decreases j,
{
    if j == 0 {
    } else if i == j {
        lemma_factorial_monotonic((i - 1) as nat, (j - 1) as nat);
        assert(j * factorial_of((j - 1) as nat) >= 1) by (nonlinear_arith)
            requires
                j >= 1,
                factorial_of((j - 1) as nat) >= 1,
        ;
    } else {
        lemma_factorial_monotonic(i, (j - 1) as nat);
        assert(j * factorial_of((j - 1) as nat) >= factorial_of((j - 1) as nat))
            by (nonlinear_arith)
            requires
                j >= 1,
                factorial_of((j - 1) as nat) >= 1,
        ;
    }
}

/// The texts of a longer sequence, from those of a shorter one.
pub proof fn lemma_display_all_step(items: Seq<Value>, i: int)
    requires
        0 <= i < items.len(),
    ensures
        ValueView::display_all(views_of(items.take(i + 1))) == ValueView::display_all(
            views_of(items.take(i)),
        ).push(items[i]@.display()),
        ValueView::display_all(views_of(items.take(i + 1))).len() == ValueView::display_all(
            views_of(items.take(i)),
        ).len() + 1,
{
    let longer = items.take(i + 1);
    assert(longer.drop_last() =~= items.take(i));
    assert(longer.last() == items[i]);
    let shown = views_of(longer);
    assert(shown == views_of(items.take(i)).push(items[i]@));
    assert(shown.drop_last() =~= views_of(items.take(i)));
}

/// `x / y` rounded towards minus infinity, for a positive `y`.
fn floor_div(x: i128, y: i128) -> (q: i128)
    requires
        0 < y <= 0x1_0000_0000_0000_0000,
        -0x4000_0000_0000_0000_0000_0000_0000_0000 <= x
            <= 0x4000_0000_0000_0000_0000_0000_0000_0000,
    ensures
        q == x / y,
{
    if x >= 0 {
        ((x as u128) / (y as u128)) as i128
    } else {
        let m: u128 = (-x) as u128;
        let d: u128 = y as u128;
        let c: u128 = (m + (d - 1)) / d;
        proof {
            let k = m as int / d as int;
            let r = m as int % d as int;
            lemma_fundamental_div_mod(m as int, d as int);
            assert(m as int == d as int * k + r);
            if r == 0 {
                assert(m + (d - 1) == k * d + (d - 1)) by (nonlinear_arith)
                    requires
                        m as int == d as int * k + r,
                        r == 0,
                ;
                lemma_fundamental_div_mod_converse_div(m + (d - 1), d as int, k, d - 1);
                assert(x as int == (-k) * d + 0) by (nonlinear_arith)
                    requires
                        m as int == d as int * k + r,
                        r == 0,
                        x as int == -(m as int),
                ;
                lemma_fundamental_div_mod_converse_div(x as int, d as int, -k, 0);
            } else {
                assert(m + (d - 1) == (k + 1) * d + (r - 1)) by (nonlinear_arith)
                    requires
                        m as int == d as int * k + r,
                ;
                lemma_fundamental_div_mod_converse_div(m + (d - 1), d as int, k + 1, r - 1);
                assert(x as int == (-(k + 1)) * d + (d - r)) by (nonlinear_arith)
                    requires
                        m as int == d as int * k + r,
                        x as int == -(m as int),
                ;
                lemma_fundamental_div_mod_converse_div(x as int, d as int, -(k + 1), d - r);
            }
        }
        -(c as i128)
    }
}

fn number_result(r: Option<Rational>) -> (res: Result<Value, ExecuteError>)
    ensures
        result_view(res) == number_or_error(r),
{
    match r {
        Some(v) => Ok(Value::Number(v)),
        None => Err(ExecuteError::number_conversion_error()),
    }
}

fn instant_result(t: i128) -> (res: Result<Value, ExecuteError>)
    ensures
        result_view(res) == instant_or_error(t as int),
{
    if 0 <= t && t <= 0xffff_ffff_ffff_ffff {
        Ok(Value::DateTime(t as u64))
    } else {
        Err(ExecuteError::number_conversion_error())
    }
}

fn span_result(d: i128) -> (res: Result<Value, ExecuteError>)
    ensures
        result_view(res) == span_or_error(d as int),
{
    if -0x8000_0000_0000_0000 <= d && d <= 0x7fff_ffff_ffff_ffff {
        Ok(Value::Duration(d as i64))
    } else {
        Err(ExecuteError::number_conversion_error())
    }
}

/// The text of a number where it is joined to a string.
pub fn ratio_to_text(n: &Rational) -> (r: String)
    ensures
        r@ == ratio_text(*n),
{
    let mut out = String::new();
    push_int(&mut out, n.numer());
    assert(out@ =~= int_text(n.num()));
    if !n.is_integer() {
        out.append("/");
        push_int(&mut out, n.denom());
    }
    out
}

fn comparison_operator(op: &str) -> (r: Option<FormulaOperator>)
    ensures
        r == ValueView::comparison_of(op@),
{
    if same_text(op, "=") || same_text(op, "==") {
        Some(FormulaOperator::Eq)
    } else if same_text(op, "!=") {
        Some(FormulaOperator::Ne)
    } else if same_text(op, "<") {
        Some(FormulaOperator::Lt)
    } else if same_text(op, "<=") {
        Some(FormulaOperator::Le)
    } else if same_text(op, ">") {
        Some(FormulaOperator::Gt)
    } else if same_text(op, ">=") {
        Some(FormulaOperator::Ge)
    } else {
        None
    }
}

fn ordered(op: &str, eq: bool, lt: bool) -> (r: Option<bool>)
    ensures
        r == ValueView::ordered(op@, eq, lt),
{
    if same_text(op, "=") || same_text(op, "==") {
        Some(eq)
    } else if same_text(op, "!=") {
        Some(!eq)
    } else if same_text(op, "<") {
        Some(lt)
    } else if same_text(op, "<=") {
        Some(lt || eq)
    } else if same_text(op, ">") {
        Some(!lt && !eq)
    } else if same_text(op, ">=") {
        Some(!lt)
    } else {
        None
    }
}

impl Value {
    /// The text shown for the value.
    pub fn to_string(&self) -> (r: String)
        ensures
            r@ == self@.display(),
        decreases self,
    {
        match self {
            Value::Bool(b) => if *b {
                String::from_str("true")
            } else {
                String::from_str("false")
            },
            Value::Number(n) => if n.is_integer() {
                int_to_string(n.numer())
            } else {
                match ratio_to_decimal_text(*n) {
                    Some(text) => text,
                    None => String::from_str("Error"),
                }
            },
            Value::String(s) => s.clone(),
            Value::Array(a) => {
                let mut out = String::from_str("[");
                let mut i: usize = 0;
                assert(a@.take(0) =~= Seq::<Value>::empty());
                assert(out@ =~= "["@ + joined(
                    ValueView::display_all(views_of(a@.take(0))),
                    ", "@,
                ));
                while i < a.len()
                    invariant
                        i <= a.len(),
                        *self == Value::Array(*a),
                        ValueView::display_all(views_of(a@.take(i as int))).len() == i,
                        out@ == "["@ + joined(
                            ValueView::display_all(views_of(a@.take(i as int))),
                            ", "@,
                        ),
                    decreases a.len() - i,
                {
                    proof {
                        broadcast use vstd::std_specs::vec::group_vec_axioms;

                        assert(self->Array_0 == *a);
                        assert(decreases_to!(*self => self->Array_0));
                        assert(decreases_to!(*a => a[i as int]));
                        lemma_display_all_step(a@, i as int);
                    }
                    let ghost before = ValueView::display_all(views_of(a@.take(i as int)));
                    let ghost after = ValueView::display_all(views_of(a@.take(i + 1)));
                    if i > 0 {
                        out.append(", ");
                    }
                    let item = a[i].to_string();
                    out.append(item.as_str());
                    proof {
                        assert(after.drop_last() =~= before);
                        assert(after.last() == item@);
                        if i == 0 {
                            assert(joined(before, ", "@) =~= Seq::<char>::empty());
                            assert(out@ =~= "["@ + joined(after, ", "@));
                        } else {
                            assert(out@ =~= "["@ + joined(after, ", "@));
                        }
                    }
                    i = i + 1;
                }
                assert(a@.take(a.len() as int) =~= a@);
                out.append("]");
                out
            },
            Value::DateTime(t) => {
                let mut out = String::from_str("DateTime(");
                push_decimal(&mut out, *t);
                out.append(")");
                out
            },
            Value::Duration(d) => {
                let mut out = String::from_str("Duration(");
                push_int(&mut out, *d);
                out.append(")");
                out
            },
            Value::Function(name) => {
                let mut out = String::from_str("Func ");
                out.append(name.as_str());
                out.append("()");
                out
            },
            Value::Object(_) => String::from_str("Object(..)"),
            Value::Null => String::from_str("null"),
        }
    }

    /// The type of the value.
    pub fn value_type(&self) -> (r: FormulaValueType)
        ensures
            r == self@.value_type(),
    {
        match self {
            Value::Bool(_) => FormulaValueType::Bool,
            Value::Number(_) => FormulaValueType::Number,
            Value::String(_) => FormulaValueType::String,
            Value::DateTime(_) => FormulaValueType::DateTime,
            Value::Duration(_) => FormulaValueType::Duration,
            Value::Array(_) => FormulaValueType::Array,
            Value::Object(_) => FormulaValueType::Object,
            Value::Function(_) => FormulaValueType::Function,
            Value::Null => FormulaValueType::Null,
        }
    }

    fn mismatch_error(&self, operator: FormulaOperator, rhs: &Value) -> (e: ExecuteError)
        ensures
            e@ == self@.mismatch(operator, rhs@),
    {
        ExecuteError::operator_mismatch(operator, self.value_type(), Some(rhs.value_type()))
    }

    /// Adds two values.
    pub fn add(self, rhs: Value) -> (r: Result<Value, ExecuteError>)
        ensures
            result_view(r) == self@.add(rhs@),
            sum_is_exact(self@, rhs@, result_view(r)),
    {
        match (&self, &rhs) {
            (Value::Number(a), Value::Number(b)) => number_result(ratio_checked_add(*a, *b)),
            (Value::String(a), Value::String(b)) => {
                let mut text = a.clone();
                text.append(b.as_str());
                Ok(Value::String(text))
            },
            (Value::Number(a), Value::String(b)) => {
                let mut text = ratio_to_text(a);
                text.append(b.as_str());
                Ok(Value::String(text))
            },
            (Value::String(a), Value::Number(b)) => {
                let mut text = a.clone();
                text.append(ratio_to_text(b).as_str());
                Ok(Value::String(text))
            },
            (Value::DateTime(a), Value::Duration(b)) => instant_result(*a as i128 + *b as i128),
            (Value::Duration(a), Value::DateTime(b)) => instant_result(*a as i128 + *b as i128),
            (Value::Duration(a), Value::Duration(b)) => span_result(*a as i128 + *b as i128),
            _ => Err(self.mismatch_error(FormulaOperator::Add, &rhs)),
        }
    }

    /// Subtracts `rhs` from the value.
    pub fn sub(self, rhs: Value) -> (r: Result<Value, ExecuteError>)
        ensures
            result_view(r) == self@.sub(rhs@),
            difference_is_exact(self@, rhs@, result_view(r)),
    {
        match (&self, &rhs) {
            (Value::Number(a), Value::Number(b)) => number_result(ratio_checked_sub(*a, *b)),
            (Value::DateTime(a), Value::Duration(b)) => instant_result(*a as i128 - *b as i128),
            (Value::Duration(a), Value::Duration(b)) => span_result(*a as i128 - *b as i128),
            _ => Err(self.mismatch_error(FormulaOperator::Sub, &rhs)),
        }
    }

    /// Multiplies two values.
    pub fn mul(self, rhs: Value) -> (r: Result<Value, ExecuteError>)
        ensures
            result_view(r) == self@.mul(rhs@),
            product_is_exact(self@, rhs@, result_view(r)),
    {
        match (&self, &rhs) {
            (Value::Number(a), Value::Number(b)) => number_result(ratio_checked_mul(*a, *b)),
            (Value::Duration(a), Value::Number(b)) => {
                let scaled = wide_product(*a, b.numer());
                span_result(floor_div(scaled, b.denom() as i128))
            },
            _ => Err(self.mismatch_error(FormulaOperator::Mul, &rhs)),
        }
    }

    /// Divides the value by `rhs`.
    pub fn div(self, rhs: Value) -> (r: Result<Value, ExecuteError>)
        ensures
            result_view(r) == self@.div(rhs@),
            quotient_is_exact(self@, rhs@, result_view(r)),
    {
        match (&self, &rhs) {
            (Value::Number(a), Value::Number(b)) => {
                if b.is_zero() {
                    Err(ExecuteError::divide_by_zero())
                } else if a.is_zero() {
                    let one = a.denom();
                    assert(a.num() * (a.den() * b.num()) == (a.num() * b.den()) * a.den())
                        by (nonlinear_arith)
                        requires
                            a.num() == 0,
                    ;
                    Ok(Value::Number(*a))
                } else {
                    number_result(ratio_checked_div(*a, *b))
                }
            },
            (Value::Duration(a), Value::Number(b)) => {
                if b.is_zero() {
                    Err(ExecuteError::divide_by_zero())
                } else {
                    let scaled = wide_product(*a, b.denom());
                    let by = b.numer() as i128;
                    if by > 0 {
                        span_result(floor_div(scaled, by))
                    } else {
                        span_result(floor_div(-scaled, -by))
                    }
                }
            },
            _ => Err(self.mismatch_error(FormulaOperator::Div, &rhs)),
        }
    }

    /// The factorial of the value.
    pub fn factorial(self) -> (r: Result<Value, ExecuteError>)
        ensures
            result_view(r) == self@.factorial(),
    {
        match &self {
            Value::Number(a) => {
                if !a.is_integer() {
                    return Err(ExecuteError::factorial_not_integer());
                }
                let n = a.numer();
                if n < 0 {
                    return Err(ExecuteError::factorial_not_negative());
                }
                let mut result: i64 = 1;
                let mut i: i64 = 0;
                while i < n
                    invariant
                        0 <= i <= n,
                        result == factorial_of(i as nat),
                        n == a.num(),
                        a.den() == 1,
                        self@ == ValueView::Number(*a),
                    decreases n - i,
                {
                    let next = i + 1;
                    assert(factorial_of(next as nat) == next * factorial_of(i as nat));
                    assert(result * next == next * result) by (nonlinear_arith);
                    match result.checked_mul(next) {
                        Some(v) => {
                            result = v;
                        },
                        None => {
                            proof {
                                lemma_factorial_monotonic(next as nat, n as nat);
                                lemma_factorial_monotonic(0, i as nat);
                            }
                            return Err(ExecuteError::number_conversion_error());
                        },
                    }
                    i = next;
                }
                Ok(Value::Number(Rational::from_integer(result)))
            },
            _ => Err(
                ExecuteError::operator_mismatch(
                    FormulaOperator::Factorial,
                    self.value_type(),
                    None,
                ),
            ),
        }
    }

    /// Raises the value to the power `rhs`.
    pub fn pow(self, rhs: Value) -> (r: Result<Value, ExecuteError>)
        ensures
            result_view(r) == self@.pow(rhs@),
            power_is_exact(self@, rhs@, result_view(r)),
    {
        match (&self, &rhs) {
            (Value::Number(a), Value::Number(b)) => {
                if !b.is_integer() {
                    return Err(ExecuteError::pow_not_rational());
                }
                let e = b.numer();
                if e < -2147483648 || e > 2147483647 {
                    return Err(ExecuteError::number_conversion_error());
                }
                if e >= 0 {
                    number_result(ratio_checked_pow(*a, e as usize))
                } else if a.is_zero() {
                    Err(ExecuteError::divide_by_zero())
                } else if a.numer() == i64::MIN {
                    Err(ExecuteError::number_conversion_error())
                } else {
                    number_result(ratio_checked_pow(ratio_recip(*a), (-e) as usize))
                }
            },
            _ => Err(self.mismatch_error(FormulaOperator::Pow, &rhs)),
        }
    }

    /// The remainder of the value by `rhs`.
    pub fn modulo(self, rhs: Value) -> (r: Result<Value, ExecuteError>)
        ensures
            result_view(r) == self@.modulo(rhs@),
            remainder_is_exact(self@, rhs@, result_view(r)),
    {
        match (&self, &rhs) {
            (Value::Number(a), Value::Number(b)) => {
                if b.is_zero() {
                    return Err(ExecuteError::divide_by_zero());
                }
                let left = wide_product(a.numer(), b.denom());
                let right = wide_product(b.numer(), a.denom());
                let common = wide_product(a.denom(), b.denom());
                let limit: i128 = 0x7fff_ffff_ffff_ffff;
                if left < -limit || left > limit || right < -limit || right > limit || common
                    > limit {
                    return Err(ExecuteError::number_conversion_error());
                }
                Ok(Value::Number(ratio_rem(*a, *b)))
            },
            _ => Err(self.mismatch_error(FormulaOperator::Rem, &rhs)),
        }
    }

    /// Whether `self op rhs` holds.
    pub fn compare(&self, op: &String, rhs: &Value) -> (r: Result<bool, ExecuteError>)
        ensures
            verdict_view(r) == self@.compare(op@, rhs@),
    {
        let verdict = match (self, rhs) {
            (Value::String(l), Value::String(r)) => ordered(
                op.as_str(),
                *l == *r,
                text_less(l.as_str(), r.as_str()),
            ),
            (Value::Number(l), Value::Number(r)) => ordered(
                op.as_str(),
                l.same(r),
                ratio_lt(*l, *r),
            ),
            _ => None,
        };
        match verdict {
            Some(b) => Ok(b),
            None => match comparison_operator(op.as_str()) {
                Some(operator) => Err(self.mismatch_error(operator, rhs)),
                None => Err(ExecuteError::unknown().with_message(op.clone())),
            },
        }
    }

    /// Whether the value is an array.
    pub fn is_array(&self) -> (r: bool)
        ensures
            r == (*self is Array),
    {
        match self {
            Value::Array(_) => true,
            _ => false,
        }
    }

    /// Whether the value is a truth value.
    pub fn is_bool(&self) -> (r: bool)
        ensures
            r == (*self is Bool),
    {
        match self {
            Value::Bool(_) => true,
            _ => false,
        }
    }

    /// Whether the value is a number.
    pub fn is_number(&self) -> (r: bool)
        ensures
            r == (*self is Number),
    {
        match self {
            Value::Number(_) => true,
            _ => false,
        }
    }

    /// Whether the value is a string.
    pub fn is_string(&self) -> (r: bool)
        ensures
            r == (*self is String),
    {
        match self {
            Value::String(_) => true,
            _ => false,
        }
    }

    /// Whether the value is an object.
    pub fn is_object(&self) -> (r: bool)
        ensures
            r == (*self is Object),
    {
        match self {
            Value::Object(_) => true,
            _ => false,
        }
    }

    /// Whether the value is an instant.
    pub fn is_date_time(&self) -> (r: bool)
        ensures
            r == (*self is DateTime),
    {
        match self {
            Value::DateTime(_) => true,
            _ => false,
        }
    }

    /// The name of the value's type.
    pub fn get_type(&self) -> (r: &'static str)
        ensures
            r@ == self@.kind_name(),
    {
        match self {
            Value::Array(_) => "Array",
            Value::Bool(_) => "Bool",
            Value::Number(_) => "Number",
            Value::String(_) => "String",
            Value::DateTime(_) => "DateTime",
            Value::Duration(_) => "Duration",
            Value::Function(_) => "Function",
            Value::Object(_) => "Object",
            Value::Null => "Null",
        }
    }
}

impl Clone for Value {
    /// A copy of the value.
    fn clone(&self) -> (r: Value)
        ensures
            r@ == self@,
        decreases self,
    {
        match self {
            Value::Bool(b) => Value::Bool(*b),
            Value::Number(n) => Value::Number(*n),
            Value::String(s) => Value::String(s.clone()),
            Value::DateTime(t) => Value::DateTime(*t),
            Value::Duration(d) => Value::Duration(*d),
            Value::Array(a) => {
                let mut items: Vec<Value> = Vec::new();
                let mut i: usize = 0;
                while i < a.len()
                    invariant
                        i <= a.len(),
                        items.len() == i,
                        forall|j: int| 0 <= j < i ==> (#[trigger] items@[j])@ == a@[j]@,
                        *self == Value::Array(*a),
                    decreases a.len() - i,
                {
                    proof {
                        broadcast use vstd::std_specs::vec::group_vec_axioms;

                        assert(self->Array_0 == *a);
                        assert(decreases_to!(*self => self->Array_0));
                        assert(decreases_to!(*a => a[i as int]));
                    }
                    let item = a[i].clone();
                    items.push(item);
                    i = i + 1;
                }
                proof {
                    lemma_views_of(items@);
                    lemma_views_of(a@);
                    assert(views_of(items@) =~= views_of(a@));
                }
                Value::Array(items)
            },
            Value::Object(m) => Value::Object(m.clone()),
            Value::Function(name) => Value::Function(name.clone()),
            Value::Null => Value::Null,
        }
    }
}

} // verus!
