use formula_rs_wasm::parse::ast::to_ast;
use formula_rs_wasm::parse::parse::Formula;
use formula_rs_wasm::types::check::type_check;
use formula_rs_wasm::types::error::{TypeError, TypeErrorType};
use formula_rs_wasm::types::operator::FormulaOperator;
use formula_rs_wasm::types::types::FormulaValueType;
use formula_rs_wasm::types::types::FormulaValueType::{
    Array, Bool, DateTime, Duration, Error, Function, Null, Number, Object, String,
};

fn check(expr: &str) -> Result<FormulaValueType, TypeError> {
    let formula = Formula::parse(expr).unwrap();
    let (_, mut ast) = to_ast(&formula.paris).unwrap();
    type_check(&ast.body.remove(0).1.expression.1)
}

#[test]
fn type_check_add_success() {
    assert_eq!(check("1 + ( 2 + 3 ) + 3"), Ok(FormulaValueType::Number));
    assert_eq!(check("'123' + '321'"), Ok(FormulaValueType::String));
    assert_eq!(check("'123' + 2"), Ok(FormulaValueType::String));
}

#[test]
fn type_check_other_expressions() {
    assert_eq!(check("3!"), Ok(FormulaValueType::Number));
    assert_eq!(check("'a'! + 1"), Ok(FormulaValueType::String));
    assert_eq!(check("1 - 2"), Err(TypeError::unknown()));
    assert_eq!(check("a + 1"), Err(TypeError::unknown()));
    assert_eq!(check("1 + a"), Err(TypeError::unknown()));
    assert_eq!(check("- (1)"), Err(TypeError::unknown()));
    assert_eq!(check("f(1)"), Err(TypeError::unknown()));
}

#[test]
fn type_add_table() {
    let all = [Error, Bool, Number, String, DateTime, Duration, Array, Object, Function, Null];
    for l in all {
        for r in all {
            let expected = match (l, r) {
                (Number, Number) => Some(Number),
                (String, String) | (Number, String) | (String, Number) => Some(String),
                (DateTime, Duration) | (Duration, DateTime) => Some(DateTime),
                (Duration, Duration) => Some(Duration),
                _ => None,
            };
            match expected {
                Some(t) => assert_eq!(l.add(r), Ok(t)),
                None => assert_eq!(
                    l.add(r),
                    Err(TypeError::operator_mismatch(FormulaOperator::Add, l, Some(r)))
                ),
            }
        }
    }
}

#[test]
fn type_errors() {
    let e = TypeError::new(TypeErrorType::UnknownError);
    assert_eq!(e, TypeError::unknown());
    assert_eq!(e.message, None);
    let e = e.with_message("m".into());
    assert_eq!(e.type_, TypeErrorType::UnknownError);
    assert_eq!(e.message, Some("m".into()));
    let e = TypeError::operator_mismatch(FormulaOperator::Add, FormulaValueType::Bool, None);
    assert_eq!(
        e.type_,
        TypeErrorType::OperatorMismatchError(FormulaOperator::Add, FormulaValueType::Bool, None)
    );
}
