use formula_rs_wasm::parse::ast::to_ast;
use formula_rs_wasm::parse::parse::Formula;
use formula_rs_wasm::parse::to_operator::ToOperator;
use formula_rs_wasm::share::operator::OperatorCode;
use formula_rs_wasm::share::rational::Rational;
use formula_rs_wasm::types::operator::FormulaOperator;
use formula_rs_wasm::types::types::FormulaValueType;
use formula_rs_wasm::vm::context::RuntimeContext;
use formula_rs_wasm::vm::error::{ExecuteError, ExecuteErrorType};
use formula_rs_wasm::vm::function::{run_runtime_function, CountFunction, RuntimeFunction, SumFunction};
use formula_rs_wasm::vm::object::ValueMap;
use formula_rs_wasm::vm::runner::{Runnable, Runner};
use formula_rs_wasm::vm::value::Value;

fn number(n: i64) -> Value {
    Value::Number(n.into())
}

fn make_subtask(id: i64, estimate_point: i64, status: i64) -> Value {
    let mut fields = ValueMap::new();
    fields.insert("id".to_string(), number(id));
    fields.insert("estimatePoint".to_string(), number(estimate_point));
    fields.insert("status".to_string(), number(status));
    Value::Object(fields)
}

fn make_relationship(id: i64, relationship: &str, issue_type: i64) -> Value {
    let mut fields = ValueMap::new();
    fields.insert("id".to_string(), number(id));
    fields.insert("relationship".to_string(), Value::String(relationship.to_string()));
    fields.insert("issueType".to_string(), number(issue_type));
    Value::Object(fields)
}

fn demo_context() -> RuntimeContext {
    let mut context = RuntimeContext::new();
    context.inject_functions();
    context.set("a".to_string(), number(2));
    context.set("b".to_string(), Value::String("abc".to_string()));
    context.set("arr".to_string(), Value::Array(vec![number(1), number(2)]));
    context.set(
        "subtask".to_string(),
        Value::Array(vec![
            make_subtask(1, 1, 1),
            make_subtask(2, 2, 1),
            make_subtask(3, 3, 2),
            make_subtask(4, 4, 2),
        ]),
    );
    context.set(
        "relationship".to_string(),
        Value::Array(vec![
            make_relationship(1, "CHILD", 1),
            make_relationship(2, "PARENT", 1),
            make_relationship(3, "CHILD", 2),
        ]),
    );
    context.set("GET_NOW".to_string(), Value::DateTime(0));
    context
}

fn run(expr: &str) -> Result<Value, ExecuteError> {
    let formula = Formula::parse(expr).unwrap();
    let (_, ast) = to_ast(&formula.paris).unwrap();
    let operators = ast.to_operator();
    let mut context = demo_context();
    Runner.run(operators, &mut context)
}

fn check(expr: &str, target: Value) {
    assert_eq!(run(expr).unwrap(), target);
}

fn check_error(expr: &str, err: ExecuteError) {
    assert_eq!(run(expr), Err(err));
}

#[test]
fn vm_demo() {
    check("1 + 2", number(3));
    check("1+1*5", number(6));
    check("1-1*5", number(-4));
    check("(1+1)*5", number(10));
    check("(1+1)%5", number(2));
    check("2^5", number(32));
    check("5!", number(120));

    check("'a' + 'b'", Value::String("ab".to_string()));
    check("1 + 'b'", Value::String("1b".to_string()));
    check("'a' + 1", Value::String("a1".to_string()));

    check("a + 1", number(3));
    check("a ^ a", number(4));
    check("b + 1", Value::String("abc1".to_string()));
    check("GET_NOW", Value::DateTime(0));
    check_error("c + 1", ExecuteError::identifier_not_found(&"c".to_string()));

    check("arr", Value::Array(vec![number(1), number(2)]));

    check("SUM(1,2,3,4,5)", number(15));
    check("SUM(arr)", number(3));
    check_error(
        "SUM('arr')",
        ExecuteError::function_invalid_argument(vec!["Number", "Number[]"], vec!["String"]),
    );

    check_error(
        "SUM(subtask)",
        ExecuteError::function_invalid_argument(vec!["Number", "Number[]"], vec!["Array"]),
    );

    check(
        "subtask.estimatePoint",
        Value::Array(vec![number(1), number(2), number(3), number(4)]),
    );

    check("COUNT(1,2,3,4,5)", number(5));

    check("SUM(subtask.estimatePoint)", number(10));
    check("COUNT(subtask)", number(4));

    check("COUNT(subtask; status == 1)", number(2));
    check("COUNT(relationship;relationship=CHILD)", number(2));
}

#[test]
fn vm_nested_calls_and_filters() {
    check("SUM(COUNT(arr), 1)", number(3));
    check("SUM(COUNT(subtask; status == 1), 5)", number(7));
    check("COUNT(subtask; status == 1; id == 2)", number(1));
    check("SUM(subtask.estimatePoint; status == 2; id > 3)", number(4));
    check("SUM(1, COUNT())", number(1));
    let err = run("COUNT(COUNT(1, 2, 3))").unwrap_err();
    assert_eq!(err.type_, ExecuteErrorType::UnknownError);
    assert_eq!(err.message, Some("stack underflow".to_string()));
}

#[test]
fn vm_scenarios() {
    check("(1+1)*3", number(6));
    check("0.1 + 0.2", Value::Number(Rational::new(3, 10).unwrap()));
    check("2 ^ -2", Value::Number(Rational::new(1, 4).unwrap()));
    check("SUM(subtask.estimatePoint; status == 2)", number(7));
    check("a ^ COUNT(subtask.estimatePoint; status==2) + SUM(subtask.estimatePoint; status==1)", number(7));
    let err = run("SUM('arr')").unwrap_err();
    assert_eq!(err.type_, ExecuteErrorType::FunctionInvalidArgument);
    assert_eq!(
        err.message,
        Some("function invalid argument, except: \"Number,Number[]\", actual: \"String\"".to_string())
    );
    let err = run("c + 1").unwrap_err();
    assert_eq!(err.type_, ExecuteErrorType::IdentifierNotFound);
    assert_eq!(err.message, Some("identifier not found: c".to_string()));
}

#[test]
fn vm_stack_discipline() {
    let mut context = demo_context();
    context.push(number(1));
    let err = Runner.run(vec![OperatorCode::PushNumber(1.into())], &mut context).unwrap_err();
    assert_eq!(err, ExecuteError::stack_not_empty());
    assert_eq!(context.value_stack.len(), 1);

    let mut context = demo_context();
    let err = Runner.run(vec![], &mut context).unwrap_err();
    assert_eq!(err, ExecuteError::result_count_mismatch(0));
    let err = Runner
        .run(
            vec![OperatorCode::PushNumber(1.into()), OperatorCode::PushNumber(2.into())],
            &mut context,
        )
        .unwrap_err();
    assert_eq!(err, ExecuteError::result_count_mismatch(2));
    assert_eq!(err.message, Some("result count expect 1, actual: 2".to_string()));
    assert_eq!(context.value_stack.len(), 0);

    let ok = Runner.run(vec![OperatorCode::PushNumber(7.into())], &mut context);
    assert_eq!(ok, Ok(number(7)));
    assert_eq!(context.value_stack.len(), 0);
}

#[test]
fn vm_underflow_and_bad_callee() {
    let mut context = demo_context();
    let err = Runner.run(vec![OperatorCode::Add], &mut context).unwrap_err();
    assert_eq!(err.type_, ExecuteErrorType::UnknownError);
    assert_eq!(err.message, Some("stack underflow".to_string()));
    assert_eq!(context.value_stack.len(), 0);

    let err = Runner
        .run(vec![OperatorCode::PushNumber(1.into()), OperatorCode::Call(0)], &mut context)
        .unwrap_err();
    assert_eq!(err, ExecuteError::not_a_function());

    context.set("f".to_string(), Value::Function("nothing".to_string()));
    let err = Runner
        .run(vec![OperatorCode::LoadIdentifier("f".to_string()), OperatorCode::Call(0)], &mut context)
        .unwrap_err();
    assert_eq!(err, ExecuteError::function_not_found(&"nothing".to_string()));
    assert_eq!(err.message, Some("function not found: nothing".to_string()));
}

#[test]
fn vm_single_step() {
    let mut context = RuntimeContext::new();
    assert_eq!(OperatorCode::PushString("x".to_string()).run(&mut context), Ok(()));
    assert_eq!(OperatorCode::PushNumber(3.into()).run(&mut context), Ok(()));
    assert_eq!(OperatorCode::Add.run(&mut context), Ok(()));
    assert_eq!(context.value_stack, vec![Value::String("x3".to_string())]);
    assert!(OperatorCode::Factorial.run(&mut context).is_err());
    assert_eq!(context.value_stack.len(), 0);
}

#[test]
fn vm_projection_and_filter() {
    check(
        "relationship.relationship",
        Value::Array(vec![
            Value::String("CHILD".to_string()),
            Value::String("PARENT".to_string()),
            Value::String("CHILD".to_string()),
        ]),
    );
    check("subtask.missing", Value::Array(vec![Value::Null, Value::Null, Value::Null, Value::Null]));
    check_error("arr.x", ExecuteError::dot_input_not_object_array(&"x".to_string()));
    check_error("a.x", ExecuteError::dot_input_not_object_array(&"x".to_string()));
    check("COUNT(subtask; status >= 1)", number(4));
    check("COUNT(subtask; status > 1)", number(2));
    check("COUNT(subtask; status < 2)", number(2));
    check("COUNT(subtask; status <= 2)", number(4));
    check("COUNT(subtask; status != 2)", number(2));
    check("COUNT(subtask; missing == 2)", number(0));
    check("COUNT(relationship; relationship < D)", number(2));
    check("COUNT(relationship; relationship != CHILD)", number(1));
    check_error(
        "COUNT(subtask; status <> 2)",
        ExecuteError::unknown().with_message("<>".to_string()),
    );
    check_error(
        "COUNT(subtask; status == x)",
        ExecuteError::operator_mismatch(
            FormulaOperator::Eq,
            FormulaValueType::Number,
            Some(FormulaValueType::String),
        ),
    );
    check_error(
        "a - b",
        ExecuteError::operator_mismatch(
            FormulaOperator::Sub,
            FormulaValueType::Number,
            Some(FormulaValueType::String),
        ),
    );
    check_error(
        "arr!",
        ExecuteError::operator_mismatch(FormulaOperator::Factorial, FormulaValueType::Array, None),
    );
}

#[test]
fn vm_builtins() {
    assert_eq!(SumFunction.run(&vec![]), Ok(number(0)));
    assert_eq!(CountFunction.run(&vec![]), Ok(number(0)));
    assert_eq!(SumFunction.run(&vec![number(1), number(2)]), Ok(number(3)));
    assert_eq!(CountFunction.run(&vec![number(1), number(2)]), Ok(number(2)));
    assert_eq!(CountFunction.run(&vec![Value::Array(vec![Value::Null])]), Ok(number(1)));
    assert_eq!(
        CountFunction.run(&vec![Value::Bool(true)]),
        Err(ExecuteError::function_invalid_argument(vec!["Array"], vec!["Bool"]))
    );
    assert_eq!(
        SumFunction.run(&vec![Value::Array(vec![number(1), Value::Null])]),
        Err(ExecuteError::function_invalid_argument(vec!["Number", "Number[]"], vec!["Array"]))
    );
    assert_eq!(
        SumFunction.run(&vec![number(i64::MAX), number(1)]),
        Err(ExecuteError::number_conversion_error())
    );
    assert_eq!(run_runtime_function(&"sum".to_string(), &vec![number(4)]), Ok(number(4)));
    assert_eq!(run_runtime_function(&"count".to_string(), &vec![number(4)]), Ok(number(1)));
    assert_eq!(
        run_runtime_function(&"SUM".to_string(), &vec![]),
        Err(ExecuteError::function_not_found(&"SUM".to_string()))
    );
}

#[test]
fn vm_context() {
    let mut context = RuntimeContext::new();
    assert!(!context.has(&"SUM".to_string()));
    context.inject_functions();
    assert_eq!(context.get(&"SUM".to_string()), Some(&Value::Function("sum".to_string())));
    assert_eq!(context.get(&"COUNT".to_string()), Some(&Value::Function("count".to_string())));
    assert_eq!(context.get(&"sum".to_string()), None);
    context.set("x".to_string(), number(1));
    context.set("x".to_string(), number(2));
    assert_eq!(context.get(&"x".to_string()), Some(&number(2)));
    context.push(number(1));
    assert_eq!(context.pop(), Some(number(1)));
    assert_eq!(context.pop(), None);
    context.push(number(1));
    context.reset_stack();
    assert_eq!(context.value_stack.len(), 0);
    assert!(context.has(&"x".to_string()));
}
