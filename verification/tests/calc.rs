use formula_rs_wasm::parse::ast::{to_ast, CallExpression, ExpressionKind};
use formula_rs_wasm::parse::parse::{Formula, ParseErrorKind};
use formula_rs_wasm::share::rational::Rational;
use formula_rs_wasm::vm::error::ExecuteError;
use formula_rs_wasm::vm::error::ExecuteErrorType;
use formula_rs_wasm::vm::object::ValueMap;
use formula_rs_wasm::vm::value::Value;
use formula_rs_wasm::{compile, ping, run, RunError};

fn number(n: i64) -> Value {
    Value::Number(n.into())
}

fn create_num_table() -> ValueMap {
    let mut table = ValueMap::new();
    table.insert("a".to_string(), number(6));
    table.insert("b".to_string(), number(3));
    table.insert("c".to_string(), number(5));
    table.insert("d".to_string(), number(8));
    table
}

fn subtask(id: i64, name: &str, status: i64, estimate_point: i64) -> Value {
    let mut fields = ValueMap::new();
    fields.insert("id".to_string(), number(id));
    fields.insert("name".to_string(), Value::String(name.to_string()));
    fields.insert("status".to_string(), number(status));
    fields.insert("estimatePoint".to_string(), number(estimate_point));
    Value::Object(fields)
}

fn get_data() -> ValueMap {
    let mut data = ValueMap::new();
    data.insert("a".to_string(), number(3));
    data.insert("estimatePoint".to_string(), number(10));
    data.insert(
        "subtask".to_string(),
        Value::Array(vec![
            subtask(1, "test1", 2, 1),
            subtask(2, "test2", 2, 2),
            subtask(3, "test3", 3, 3),
            subtask(4, "test4", 3, 4),
        ]),
    );
    data
}

fn call_of(formula: &str) -> CallExpression {
    let tokens = Formula::parse(formula).unwrap();
    let (_, mut ast) = to_ast(&tokens.paris).unwrap();
    match ast.body.remove(0).1.expression.1 {
        ExpressionKind::CallExpressionKind(_, call) => call,
        other => panic!("{:?}", other),
    }
}

fn name_of(kind: &ExpressionKind) -> &str {
    match kind {
        ExpressionKind::IdentifierKind(_, identifier) => identifier.name.as_str(),
        other => panic!("{:?}", other),
    }
}

fn from_json(value: &serde_json::Value) -> Value {
    match value {
        serde_json::Value::Null => Value::String(String::new()),
        serde_json::Value::Bool(b) => Value::Bool(*b),
        serde_json::Value::Number(n) => Value::Number(Rational::from_integer(n.as_i64().unwrap())),
        serde_json::Value::String(s) => Value::String(s.clone()),
        serde_json::Value::Array(items) => Value::Array(items.iter().map(from_json).collect()),
        serde_json::Value::Object(fields) => {
            let mut map = ValueMap::new();
            for (name, field) in fields {
                map.insert(name.clone(), from_json(field));
            }
            Value::Object(map)
        }
    }
}

fn eval(expr: &str, table: &ValueMap) -> Result<String, RunError> {
    run(expr.to_string(), table, 1678116762992, 1678060800000)
}

fn calc(expr: &str) -> String {
    eval(expr, &create_num_table()).unwrap()
}

#[test]
fn parse_expr() {
    assert!(compile("SUM(subtask.estimatePoint;status=2) + GET_NOW-GET_UPDATE_TIME".to_string()).is_ok());
}

#[test]
fn parse_get_function() {
    let function = call_of("COUNT(relationship;)");
    assert_eq!(name_of(&function.callee.1), "COUNT");
    assert_eq!(function.arguments.len(), 1);
    assert_eq!(name_of(&function.arguments[0].1), "relationship");
}

#[test]
fn parse_get_function_with_compare() {
    let function = call_of("COUNT(relationship;issueTypeId=1848788)");
    assert_eq!(name_of(&function.callee.1), "COUNT");
    assert_eq!(function.arguments.len(), 2);
    assert_eq!(name_of(&function.arguments[0].1), "relationship");
    match &*function.arguments[1].1 {
        ExpressionKind::FilterExpressionKind(_, compare) => {
            assert_eq!(name_of(&compare.left.1), "issueTypeId");
            assert_eq!(compare.operator.1, "=");
            match &*compare.right.1 {
                ExpressionKind::NumberLiteralKind(_, literal) => {
                    assert_eq!(literal.raw, "1848788");
                    assert_eq!(literal.value, Rational::from_integer(1848788));
                }
                other => panic!("{:?}", other),
            }
        }
        other => panic!("{:?}", other),
    }
}

#[test]
fn parse_get_function_with_compare_2() {
    let function = call_of("SUM(subtask.estimatePoint;status=4)");
    assert_eq!(name_of(&function.callee.1), "SUM");
    assert_eq!(function.arguments.len(), 2);
    match &*function.arguments[0].1 {
        ExpressionKind::PropertyAccessExpressionKind(_, access) => {
            assert_eq!(name_of(&access.object.1), "subtask");
            assert_eq!(access.property.1.name, "estimatePoint");
        }
        other => panic!("{:?}", other),
    }
    match &*function.arguments[1].1 {
        ExpressionKind::FilterExpressionKind(_, compare) => {
            assert_eq!(name_of(&compare.left.1), "status");
            assert_eq!(compare.operator.1, "=");
            match &*compare.right.1 {
                ExpressionKind::NumberLiteralKind(_, literal) => assert_eq!(literal.raw, "4"),
                other => panic!("{:?}", other),
            }
        }
        other => panic!("{:?}", other),
    }
}

#[test]
fn calc_add() {
    assert_eq!(calc("a + b"), "9");
}

#[test]
fn calc_add_float() {
    assert_eq!(calc("0.1 + 0.2"), "0.3");
}

#[test]
fn calc_add_multi() {
    assert_eq!(calc("a + b + c + d"), "22");
    assert_eq!(calc("d+c+a+b"), "22");
}

#[test]
fn calc_add_assoc() {
    assert_eq!(calc("a + (b + c)"), "14");
    assert_eq!(calc("(a + b) + c"), "14");
}

#[test]
fn calc_sub() {
    assert_eq!(calc("a - b"), "3");
}

#[test]
fn calc_sub_multi() {
    assert_eq!(calc("a - b - c - d"), "-10");
}

#[test]
fn calc_sub_assoc() {
    assert_eq!(calc("a - (b - c)"), "8");
    assert_eq!(calc("(a - b) - c"), "-2");
}

#[test]
fn calc_negation_add() {
    assert_eq!(calc("1 + -1"), "0");
}

#[test]
fn calc_negation_sub() {
    assert_eq!(calc("1 - -1"), "2");
}

#[test]
fn calc_negation_mul() {
    assert_eq!(calc("1 * -1"), "-1");
}

#[test]
fn calc_negation_div() {
    assert_eq!(calc("1 / -1"), "-1");
}

#[test]
fn calc_negation_pow() {
    assert_eq!(calc("1 ^ -1"), "1");
}

#[test]
fn calc_negation_pow_2() {
    assert_eq!(calc("1 ^ -2"), "1");
}

#[test]
fn calc_negation_pow_3() {
    assert_eq!(calc("2 ^ -1"), "0.5");
}

#[test]
fn calc_negation_pow_4() {
    assert_eq!(calc("2 ^ -2"), "0.25");
}

#[test]
fn calc_mul() {
    assert_eq!(calc("a * b"), "18");
}

#[test]
fn calc_mul_multi() {
    assert_eq!(calc("a * b * c * d"), "720");
}

#[test]
fn calc_mul_assoc() {
    assert_eq!(calc("a * (b * c)"), "90");
    assert_eq!(calc("(a * b) * c"), "90");
}

#[test]
fn calc_div() {
    assert_eq!(calc("a / b"), "2");
}

#[test]
fn calc_div_multi() {
    assert_eq!(calc("a / b / c / d"), "0.05");
}

#[test]
fn calc_div_assoc() {
    assert_eq!(calc("d / (a / b)"), "4");
    assert_eq!(calc("(a / b) / c"), "0.4");
}

#[test]
fn calc_pow() {
    assert_eq!(calc("a ^ b"), "216");
}

#[test]
fn calc_pow_multi() {
    assert_eq!(calc("4 ^ 3 ^ 2"), "262144");
}

#[test]
fn calc_pow_assoc() {
    assert_eq!(calc("4 ^ 3 ^ 2"), "262144");
    assert_eq!(calc("(4 ^ 3) ^ 2"), "4096");
}

#[test]
fn calc_rem() {
    assert_eq!(calc("a % b"), "0");
}

#[test]
fn calc_factorial_0() {
    assert_eq!(calc("0!"), "1");
}

#[test]
fn calc_factorial_1() {
    assert_eq!(calc("1!"), "1");
}

#[test]
fn calc_factorial_5() {
    assert_eq!(calc("5!"), "120");
}

#[test]
fn calc_factorial_5_5() {
    assert_eq!(
        eval("5.5!", &create_num_table()),
        Err(RunError::Execute(ExecuteError::factorial_not_integer()))
    );
}

#[test]
fn calc_factorial_neg_5() {
    assert_eq!(
        eval("-5!", &create_num_table()),
        Err(RunError::Execute(ExecuteError::factorial_not_negative()))
    );
}

#[test]
fn calc_factorial_add_5() {
    assert_eq!(calc("5! + 5!"), "240");
}

#[test]
fn pass_number() {
    let mut table = ValueMap::new();
    table.insert("a".to_string(), number(6));
    assert_eq!(eval("a", &table), Ok("6".to_string()));
}

#[test]
fn pass_string() {
    let mut table = ValueMap::new();
    table.insert("a".to_string(), Value::String("123123".to_string()));
    assert_eq!(eval("a", &table), Ok("123123".to_string()));
}

#[test]
fn func_run() {
    assert_eq!(
        eval("SUM(subtask;status=2)", &get_data()),
        Err(RunError::Execute(ExecuteError::function_invalid_argument(
            vec!["Number", "Number[]"],
            vec!["Array"]
        )))
    );
}

#[test]
fn func_run_with_json_string() {
    let json = r#"{
            "a": 3,
            "estimatePoint": 10,
            "subtask": [
              {
                "id": 1,
                "name": "test1",
                "status": 2,
                "estimatePoint": 1
              },
              {
                "id": 2,
                "name": "test2",
                "status": 2,
                "estimatePoint": 2
              },
              {
                "id": 3,
                "name": "test3",
                "status": 3,
                "estimatePoint": 3
              },
              {
                "id": 4,
                "name": "test4",
                "status": 3,
                "estimatePoint": 4
              }
            ]
          }
          "#;

    let data: serde_json::Value = serde_json::from_str(json).unwrap();
    let record = match from_json(&data) {
        Value::Object(fields) => fields,
        other => panic!("{:?}", other),
    };
    assert_eq!(record, get_data());
    assert_eq!(
        eval(
            "estimatePoint ^ COUNT(subtask.estimatePoint;status=3) + SUM(subtask.estimatePoint;status=2)",
            &record
        ),
        Ok("103".to_string())
    );
}

#[test]
fn func_run_with_exp() {
    assert_eq!(eval("SUM(subtask.estimatePoint;status=2) + a", &get_data()), Ok("6".to_string()));
}

#[test]
fn func_run_with_exp_mul() {
    assert_eq!(eval("SUM(subtask.estimatePoint;status=2) * a", &get_data()), Ok("9".to_string()));
}

#[test]
fn func_run_with_field() {
    assert_eq!(
        eval("SUM(subtask.estimatePoint;status=2) + estimatePoint", &get_data()),
        Ok("13".to_string())
    );
    assert_eq!(
        eval(
            "estimatePoint ^ COUNT(subtask.estimatePoint;status=3) + SUM(subtask.estimatePoint;status=2)",
            &get_data()
        ),
        Ok("103".to_string())
    );
}

#[test]
fn greet_test() {
    let r = eval(
        "estimatePoint ^ COUNT(subtask.estimatePoint;status=3) + SUM(subtask.estimatePoint;status=2) + 0.1 + 0.2",
        &get_data(),
    );
    assert_eq!(r, Ok("103.3".to_string()));
}

#[test]
fn run_scenarios() {
    let none = ValueMap::new();
    assert_eq!(eval("(1+1)*3", &none), Ok("6".to_string()));
    assert_eq!(eval("0.1 + 0.2", &none), Ok("0.3".to_string()));
    assert_eq!(eval("5!", &none), Ok("120".to_string()));
    assert_eq!(eval("2 ^ -2", &none), Ok("0.25".to_string()));
    assert_eq!(eval("SUM(subtask.estimatePoint; status == 2)", &get_data()), Ok("3".to_string()));
    assert_eq!(eval("subtask.estimatePoint", &get_data()), Ok("[1, 2, 3, 4]".to_string()));
    let mut record = ValueMap::new();
    let relation = |text: &str| {
        let mut fields = ValueMap::new();
        fields.insert("relationship".to_string(), Value::String(text.to_string()));
        Value::Object(fields)
    };
    record.insert(
        "relationship".to_string(),
        Value::Array(vec![relation("CHILD"), relation("PARENT"), relation("CHILD")]),
    );
    assert_eq!(eval("COUNT(relationship; relationship = CHILD)", &record), Ok("2".to_string()));
    match eval("SUM('arr')", &none) {
        Err(RunError::Execute(e)) => assert_eq!(e.type_, ExecuteErrorType::FunctionInvalidArgument),
        other => panic!("{:?}", other),
    }
    match eval("2 > 1", &none) {
        Err(RunError::Execute(e)) => {
            assert_eq!(e.type_, ExecuteErrorType::ResultCountMismatchError);
            assert_eq!(e.message, Some("result count expect 1, actual: 0".to_string()));
        }
        other => panic!("{:?}", other),
    }
    match eval("1;2", &none) {
        Err(RunError::Execute(e)) => assert_eq!(e.type_, ExecuteErrorType::ResultCountMismatchError),
        other => panic!("{:?}", other),
    }
    match eval("1 +", &none) {
        Err(RunError::Parse(e)) => assert_eq!(e.kind, ParseErrorKind::ExpectedOperand),
        other => panic!("{:?}", other),
    }
}

#[test]
fn run_binds_the_record_and_the_times() {
    let mut record = ValueMap::new();
    record.insert("updateTime".to_string(), number(5));
    record.insert("GET_NOW".to_string(), number(1));
    record.insert("SUM".to_string(), number(1));
    record.insert("x".to_string(), number(4));
    let go = |expr: &str| run(expr.to_string(), &record, 100, 40);
    assert_eq!(go("GET_NOW"), Ok("100".to_string()));
    assert_eq!(go("GET_TODAY"), Ok("40".to_string()));
    assert_eq!(go("GET_NOW - GET_UPDATE_TIME"), Ok("95".to_string()));
    assert_eq!(go("GET_CREATE_TIME + 1"), Ok("1".to_string()));
    assert_eq!(go("missing + 1"), Ok("1".to_string()));
    assert_eq!(go("x + x"), Ok("8".to_string()));
    assert_eq!(go("SUM(x, x, 1)"), Ok("9".to_string()));
    assert_eq!(go("COUNT"), Ok("Func count()".to_string()));
}

#[test]
fn ping_answers() {
    assert_eq!(ping(), "Pang");
}
