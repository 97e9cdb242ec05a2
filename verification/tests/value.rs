use formula_rs_wasm::share::rational::Rational;
use formula_rs_wasm::types::operator::FormulaOperator;
use formula_rs_wasm::types::types::FormulaValueType;
use formula_rs_wasm::vm::error::{ExecuteError, ExecuteErrorType};
use formula_rs_wasm::vm::object::ValueMap;
use formula_rs_wasm::vm::value::Value;

fn number(n: i64) -> Value {
    Value::Number(n.into())
}

fn ratio(n: i64, d: i64) -> Value {
    Value::Number(Rational::new(n, d).unwrap())
}

fn text(s: &str) -> Value {
    Value::String(s.to_string())
}

fn mismatch(op: FormulaOperator, lhs: FormulaValueType, rhs: FormulaValueType) -> ExecuteError {
    ExecuteError::operator_mismatch(op, lhs, Some(rhs))
}

#[test]
fn value_add_success() {
    assert_eq!(number(1).add(number(1)), Ok(number(2)));
    assert_eq!(text("a").add(text("b")), Ok(text("ab")));
    assert_eq!(text("a").add(number(1)), Ok(text("a1")));
    assert_eq!(number(1).add(text("b")), Ok(text("1b")));
    assert_eq!(Value::DateTime(2).add(Value::Duration(1)), Ok(Value::DateTime(3)));
    assert_eq!(Value::Duration(5).add(Value::DateTime(1)), Ok(Value::DateTime(6)));
    assert_eq!(Value::Duration(7).add(Value::Duration(1)), Ok(Value::Duration(8)));
}

#[test]
fn add_error() {
    assert_eq!(number(1).add(Value::Bool(true)), Err(mismatch(FormulaOperator::Add, FormulaValueType::Number, FormulaValueType::Bool)));
    assert_eq!(
        Value::Array(vec![number(1)]).add(Value::Array(vec![number(2)])),
        Err(mismatch(FormulaOperator::Add, FormulaValueType::Array, FormulaValueType::Array))
    );
    assert_eq!(Value::Bool(true).add(number(1)), Err(mismatch(FormulaOperator::Add, FormulaValueType::Bool, FormulaValueType::Number)));
    assert_eq!(
        text("a").add(Value::Bool(true)),
        Err(mismatch(FormulaOperator::Add, FormulaValueType::String, FormulaValueType::Bool))
    );
    assert_eq!(
        Value::DateTime(1).add(Value::Bool(true)),
        Err(mismatch(FormulaOperator::Add, FormulaValueType::DateTime, FormulaValueType::Bool))
    );
    assert_eq!(
        Value::Duration(1).add(Value::Bool(true)),
        Err(mismatch(FormulaOperator::Add, FormulaValueType::Duration, FormulaValueType::Bool))
    );
    assert_eq!(
        Value::DateTime(1).add(Value::DateTime(1)),
        Err(mismatch(FormulaOperator::Add, FormulaValueType::DateTime, FormulaValueType::DateTime))
    );
}

#[test]
fn sub_success() {
    assert_eq!(number(1).sub(number(1)), Ok(number(0)));
    assert_eq!(Value::DateTime(2).sub(Value::Duration(1)), Ok(Value::DateTime(1)));
    assert_eq!(Value::Duration(7).sub(Value::Duration(1)), Ok(Value::Duration(6)));
}

#[test]
fn sub_error() {
    assert_eq!(number(1).sub(Value::Bool(true)), Err(mismatch(FormulaOperator::Sub, FormulaValueType::Number, FormulaValueType::Bool)));
    assert_eq!(text("").sub(text("")), Err(mismatch(FormulaOperator::Sub, FormulaValueType::String, FormulaValueType::String)));
    assert_eq!(Value::Bool(true).sub(Value::Bool(true)), Err(mismatch(FormulaOperator::Sub, FormulaValueType::Bool, FormulaValueType::Bool)));
}

#[test]
fn mul_success() {
    assert_eq!(number(2).mul(number(2)), Ok(number(4)));
    assert_eq!(Value::Duration(2).mul(ratio(21, 10)), Ok(Value::Duration(4)));
}

#[test]
fn div_success() {
    assert_eq!(number(2).div(number(2)), Ok(number(1)));
    assert_eq!(Value::Duration(2).div(ratio(21, 10)), Ok(Value::Duration(0)));
}

#[test]
fn div_error() {
    assert_eq!(number(2).div(number(0)), Err(ExecuteError::divide_by_zero()));
    assert_eq!(Value::Duration(2).div(number(0)), Err(ExecuteError::divide_by_zero()));
    assert_eq!(number(1).div(Value::Bool(true)), Err(mismatch(FormulaOperator::Div, FormulaValueType::Number, FormulaValueType::Bool)));
    assert_eq!(text("").div(text("")), Err(mismatch(FormulaOperator::Div, FormulaValueType::String, FormulaValueType::String)));
    assert_eq!(Value::Bool(true).div(Value::Bool(true)), Err(mismatch(FormulaOperator::Div, FormulaValueType::Bool, FormulaValueType::Bool)));
}

#[test]
fn pow_success() {
    assert_eq!(number(2).pow(number(2)), Ok(number(4)));
    assert_eq!(number(2).pow(number(0)), Ok(number(1)));
    assert_eq!(number(2).pow(number(1)), Ok(number(2)));
}

#[test]
fn pow_error() {
    assert_eq!(number(2).pow(ratio(11, 10)), Err(ExecuteError::pow_not_rational()));
}

#[test]
fn factorial_success() {
    assert_eq!(number(0).factorial(), Ok(number(1)));
    assert_eq!(number(2).factorial(), Ok(number(2)));
    assert_eq!(number(3).factorial(), Ok(number(6)));
    assert_eq!(number(4).factorial(), Ok(number(24)));
}

#[test]
fn factorial_error() {
    assert_eq!(
        Value::DateTime(1).factorial(),
        Err(ExecuteError::operator_mismatch(
            FormulaOperator::Factorial,
            FormulaValueType::DateTime,
            None
        ))
    );
    assert_eq!(ratio(11, 10).factorial(), Err(ExecuteError::factorial_not_integer()));
    assert_eq!(number(-1).factorial(), Err(ExecuteError::factorial_not_negative()));
}

#[test]
fn rem_success() {
    assert_eq!(number(2).modulo(number(2)), Ok(number(0)));
    assert_eq!(number(2).modulo(number(3)), Ok(number(2)));
    assert_eq!(number(2).modulo(number(4)), Ok(number(2)));
}

#[test]
fn value_exact_arithmetic() {
    assert_eq!(ratio(1, 10).add(ratio(2, 10)), Ok(ratio(3, 10)));
    assert_eq!(ratio(1, 2).sub(ratio(1, 3)), Ok(ratio(1, 6)));
    assert_eq!(ratio(2, 3).mul(ratio(3, 4)), Ok(ratio(1, 2)));
    assert_eq!(ratio(2, 3).div(ratio(-4, 3)), Ok(ratio(-1, 2)));
    assert_eq!(number(0).div(ratio(7, 3)), Ok(number(0)));
    assert_eq!(ratio(7, 2).modulo(number(2)), Ok(ratio(3, 2)));
    assert_eq!(ratio(-7, 2).modulo(number(2)), Ok(ratio(-3, 2)));
    assert_eq!(number(7).modulo(number(0)), Err(ExecuteError::divide_by_zero()));
    assert_eq!(number(2).pow(number(-2)), Ok(ratio(1, 4)));
    assert_eq!(ratio(-2, 3).pow(number(-3)), Ok(ratio(-27, 8)));
    assert_eq!(number(0).pow(number(-1)), Err(ExecuteError::divide_by_zero()));
    assert_eq!(number(2).pow(number(1 << 40)), Err(ExecuteError::number_conversion_error()));
    assert_eq!(number(1).pow(number(2147483647)), Ok(number(1)));
    assert_eq!(number(20).factorial(), Ok(number(2432902008176640000)));
}

#[test]
fn value_overflow_is_an_error() {
    let overflow = Err(ExecuteError::number_conversion_error());
    assert_eq!(number(i64::MAX).add(number(1)), overflow);
    assert_eq!(number(i64::MIN).sub(number(1)), overflow);
    assert_eq!(number(i64::MAX).mul(number(2)), overflow);
    assert_eq!(number(i64::MIN).div(number(-1)), overflow);
    assert_eq!(number(i64::MIN).pow(number(-1)), overflow);
    assert_eq!(number(i64::MIN).modulo(number(3)), overflow);
    assert_eq!(number(21).factorial(), overflow);
    assert_eq!(number(10).pow(number(19)), overflow);
    assert_eq!(Value::Duration(i64::MAX).add(Value::Duration(1)), overflow);
    assert_eq!(Value::Duration(i64::MIN).sub(Value::Duration(1)), overflow);
    assert_eq!(Value::DateTime(u64::MAX).add(Value::Duration(1)), overflow);
    assert_eq!(Value::DateTime(0).sub(Value::Duration(1)), overflow);
    assert_eq!(Value::Duration(i64::MAX).mul(number(2)), overflow);
    assert_eq!(Value::Duration(i64::MIN).div(number(-1)), overflow);
}

#[test]
fn value_durations_and_instants() {
    assert_eq!(Value::DateTime(5).add(Value::Duration(-2)), Ok(Value::DateTime(3)));
    assert_eq!(Value::Duration(-2).add(Value::DateTime(5)), Ok(Value::DateTime(3)));
    assert_eq!(Value::DateTime(5).sub(Value::Duration(-2)), Ok(Value::DateTime(7)));
    assert_eq!(Value::Duration(7).mul(ratio(-1, 2)), Ok(Value::Duration(-4)));
    assert_eq!(Value::Duration(-7).mul(ratio(1, 2)), Ok(Value::Duration(-4)));
    assert_eq!(Value::Duration(7).div(number(-2)), Ok(Value::Duration(-4)));
    assert_eq!(Value::Duration(-7).div(number(-2)), Ok(Value::Duration(3)));
    assert_eq!(Value::Duration(6).div(number(3)), Ok(Value::Duration(2)));
    assert_eq!(
        Value::Duration(1).sub(Value::DateTime(1)),
        Err(mismatch(FormulaOperator::Sub, FormulaValueType::Duration, FormulaValueType::DateTime))
    );
    assert_eq!(number(2).mul(Value::Duration(1)), Err(mismatch(FormulaOperator::Mul, FormulaValueType::Number, FormulaValueType::Duration)));
    assert_eq!(Value::Null.mul(Value::Null), Err(mismatch(FormulaOperator::Mul, FormulaValueType::Null, FormulaValueType::Null)));
    assert_eq!(
        Value::Null.modulo(number(1)),
        Err(mismatch(FormulaOperator::Rem, FormulaValueType::Null, FormulaValueType::Number))
    );
    assert_eq!(text("a").pow(number(1)), Err(mismatch(FormulaOperator::Pow, FormulaValueType::String, FormulaValueType::Number)));
}

#[test]
fn value_compare() {
    let yes = |l: &Value, op: &str, r: &Value| l.compare(&op.to_string(), r);
    assert_eq!(yes(&number(1), "=", &number(1)), Ok(true));
    assert_eq!(yes(&number(1), "==", &number(2)), Ok(false));
    assert_eq!(yes(&number(1), "!=", &number(2)), Ok(true));
    assert_eq!(yes(&ratio(1, 3), "<", &ratio(1, 2)), Ok(true));
    assert_eq!(yes(&ratio(-1, 3), "<", &ratio(-1, 2)), Ok(false));
    assert_eq!(yes(&ratio(1, 2), "<=", &ratio(1, 2)), Ok(true));
    assert_eq!(yes(&ratio(1, 2), ">", &ratio(1, 2)), Ok(false));
    assert_eq!(yes(&ratio(1, 2), ">=", &ratio(1, 2)), Ok(true));
    assert_eq!(yes(&number(3), ">", &number(2)), Ok(true));
    assert_eq!(yes(&text("a"), "=", &text("a")), Ok(true));
    assert_eq!(yes(&text("a"), "==", &text("b")), Ok(false));
    assert_eq!(yes(&text("a"), "!=", &text("b")), Ok(true));
    assert_eq!(yes(&text("a"), "<", &text("b")), Ok(true));
    assert_eq!(yes(&text("ab"), "<", &text("a")), Ok(false));
    assert_eq!(yes(&text("a"), "<", &text("ab")), Ok(true));
    assert_eq!(yes(&text("b"), ">=", &text("ab")), Ok(true));
    assert_eq!(yes(&text("a"), "<=", &text("a")), Ok(true));
    assert_eq!(yes(&text("a"), ">", &text("a")), Ok(false));
    assert_eq!(
        yes(&number(1), "<>", &number(1)),
        Err(ExecuteError::unknown().with_message("<>".to_string()))
    );
    assert_eq!(
        yes(&Value::Null, "like", &number(1)),
        Err(ExecuteError::unknown().with_message("like".to_string()))
    );
    assert_eq!(
        yes(&number(1), "=", &text("1")),
        Err(mismatch(FormulaOperator::Eq, FormulaValueType::Number, FormulaValueType::String))
    );
    assert_eq!(
        yes(&text("1"), ">=", &number(1)),
        Err(mismatch(FormulaOperator::Ge, FormulaValueType::String, FormulaValueType::Number))
    );
    assert_eq!(
        yes(&Value::Object(ValueMap::new()), "<", &Value::Function("f".to_string())),
        Err(mismatch(FormulaOperator::Lt, FormulaValueType::Object, FormulaValueType::Function))
    );
    assert_eq!(yes(&Value::Bool(true), "=", &Value::Bool(true)), Err(mismatch(FormulaOperator::Eq, FormulaValueType::Bool, FormulaValueType::Bool)));
}

#[test]
fn value_display() {
    assert_eq!(number(-12).to_string(), "-12");
    assert_eq!(number(0).to_string(), "0");
    assert_eq!(number(i64::MIN).to_string(), "-9223372036854775808");
    assert_eq!(ratio(3, 10).to_string(), "0.3");
    assert_eq!(ratio(1, 4).to_string(), "0.25");
    assert_eq!(ratio(-1, 3).to_string(), "-0.3333333333333333");
    assert_eq!(text("x y").to_string(), "x y");
    assert_eq!(Value::Bool(true).to_string(), "true");
    assert_eq!(Value::Bool(false).to_string(), "false");
    assert_eq!(Value::Array(vec![]).to_string(), "[]");
    assert_eq!(Value::Array(vec![number(1)]).to_string(), "[1]");
    assert_eq!(
        Value::Array(vec![number(1), text("a"), Value::Array(vec![Value::Null, Value::Bool(true)])])
            .to_string(),
        "[1, a, [null, true]]"
    );
    assert_eq!(Value::DateTime(17).to_string(), "DateTime(17)");
    assert_eq!(Value::Duration(-17).to_string(), "Duration(-17)");
    assert_eq!(Value::Function("sum".to_string()).to_string(), "Func sum()");
    assert_eq!(Value::Object(ValueMap::new()).to_string(), "Object(..)");
    assert_eq!(Value::Null.to_string(), "null");
    assert_eq!(ratio(3, 10).add(text("")), Ok(text("3/10")));
}

#[test]
fn value_kinds() {
    let all = vec![
        Value::Array(vec![]),
        Value::Bool(true),
        number(1),
        text(""),
        Value::Object(ValueMap::new()),
        Value::DateTime(0),
        Value::Duration(0),
        Value::Function("f".to_string()),
        Value::Null,
    ];
    let types: Vec<FormulaValueType> = all.iter().map(|v| v.value_type()).collect();
    assert_eq!(
        types,
        vec![
            FormulaValueType::Array,
            FormulaValueType::Bool,
            FormulaValueType::Number,
            FormulaValueType::String,
            FormulaValueType::Object,
            FormulaValueType::DateTime,
            FormulaValueType::Duration,
            FormulaValueType::Function,
            FormulaValueType::Null,
        ]
    );
    let names: Vec<&str> = all.iter().map(|v| v.get_type()).collect();
    assert_eq!(
        names,
        vec!["Array", "Bool", "Number", "String", "Object", "DateTime", "Duration", "Function", "Null"]
    );
    assert_eq!(all.iter().filter(|v| v.is_array()).count(), 1);
    assert_eq!(all.iter().filter(|v| v.is_bool()).count(), 1);
    assert_eq!(all.iter().filter(|v| v.is_number()).count(), 1);
    assert_eq!(all.iter().filter(|v| v.is_string()).count(), 1);
    assert_eq!(all.iter().filter(|v| v.is_object()).count(), 1);
    assert_eq!(all.iter().filter(|v| v.is_date_time()).count(), 1);
    assert!(all[0].is_array() && all[1].is_bool() && all[2].is_number() && all[3].is_string());
    assert!(all[4].is_object() && all[5].is_date_time());
    for v in all.iter() {
        assert_eq!(&v.clone(), v);
    }
}

#[test]
fn value_rationals() {
    assert_eq!(Rational::new(6, 4), Rational::new(3, 2));
    assert_eq!(Rational::new(6, -4), Rational::new(-3, 2));
    assert_eq!(Rational::new(0, 5), Some(Rational::from_integer(0)));
    assert_eq!(Rational::new(1, 0), None);
    assert_eq!(Rational::new(i64::MIN, -1), None);
    let r = Rational::new(-6, 4).unwrap();
    assert_eq!((r.numer(), r.denom()), (-3, 2));
    assert!(!r.is_integer() && !r.is_zero());
    assert!(Rational::from_integer(4).is_integer());
    assert!(Rational::from_integer(0).is_zero());
    assert!(r.same(&Rational::new(-3, 2).unwrap()));
    let from: Rational = 5.into();
    assert_eq!(from, Rational::from_integer(5));
}

#[test]
fn value_errors() {
    let e = ExecuteError::new(ExecuteErrorType::DivideByZero);
    assert_eq!(e, ExecuteError::divide_by_zero());
    assert_eq!(e.message, None);
    let e = ExecuteError::unknown().with_message("m".to_string());
    assert_eq!(e.type_, ExecuteErrorType::UnknownError);
    assert_eq!(e.message, Some("m".to_string()));
    let e = mismatch(FormulaOperator::Add, FormulaValueType::Number, FormulaValueType::Bool);
    assert_eq!(
        e.type_,
        ExecuteErrorType::OperatorMismatchError(
            FormulaOperator::Add,
            FormulaValueType::Number,
            Some(FormulaValueType::Bool)
        )
    );
    assert_eq!(e.message, None);
    let e = ExecuteError::operator_mismatch(FormulaOperator::Factorial, FormulaValueType::Null, None);
    assert_eq!(
        e.type_,
        ExecuteErrorType::OperatorMismatchError(FormulaOperator::Factorial, FormulaValueType::Null, None)
    );
    assert_eq!(ExecuteError::pow_not_rational().type_, ExecuteErrorType::PowNotRational);
    assert_eq!(ExecuteError::factorial_not_integer().type_, ExecuteErrorType::FactorialNotInteger);
    assert_eq!(ExecuteError::factorial_not_negative().type_, ExecuteErrorType::FactorialNotNegative);
    assert_eq!(
        ExecuteError::number_conversion_error().type_,
        ExecuteErrorType::NumberConversionError
    );
    assert_eq!(ExecuteError::stack_not_empty().type_, ExecuteErrorType::StackNotEmpty);
    assert_eq!(ExecuteError::not_a_function().type_, ExecuteErrorType::NotAFunction);
    assert_eq!(ExecuteError::dot_not_found_property().type_, ExecuteErrorType::DotNotFountProperty);
    let e = ExecuteError::dot_input_not_object_array(&"f".to_string());
    assert_eq!(e.type_, ExecuteErrorType::DotInputNotAObjectArray);
    assert_eq!(e.message, Some("f".to_string()));
    assert_eq!(
        ExecuteError::result_count_mismatch(12).message,
        Some("result count expect 1, actual: 12".to_string())
    );
    assert_eq!(
        ExecuteError::function_invalid_argument(vec!["a\"b", "c"], vec![]).message,
        Some("function invalid argument, except: \"a\\\"b,c\", actual: \"\"".to_string())
    );
}
