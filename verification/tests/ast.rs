use formula_rs_wasm::parse::ast::{to_ast, ExpressionKind, Range};
use formula_rs_wasm::parse::beautify::{indent, Beautify};
use formula_rs_wasm::parse::dependencies::get_dependencies;
use formula_rs_wasm::parse::number::number_from_text;
use formula_rs_wasm::parse::parse::Formula;
use formula_rs_wasm::parse::to_operator::ToOperator;
use formula_rs_wasm::share::operator::OperatorCode;
use formula_rs_wasm::share::rational::Rational;

fn beautified(expr: &str) -> String {
    let formula = Formula::parse(expr).unwrap();
    let (_, ast) = to_ast(&formula.paris).unwrap();
    ast.beautify(0)
}

fn check_ast(expr: &str, expected: &str) {
    let actual = beautified(expr);
    let actual_lines: Vec<&str> = actual.lines().map(|s| s.trim()).filter(|s| s.len() > 0).collect();
    let expected_lines: Vec<&str> =
        expected.lines().map(|s| s.trim()).filter(|s| s.len() > 0).collect();
    assert_eq!(actual_lines, expected_lines, "actual: \n{}, \nexpected: \n{}\n", actual, expected);
}

fn operators(expr: &str) -> Vec<OperatorCode> {
    let formula = Formula::parse(expr).unwrap();
    let (_, ast) = to_ast(&formula.paris).unwrap();
    ast.to_operator()
}

fn load(name: &str) -> OperatorCode {
    OperatorCode::LoadIdentifier(name.to_string())
}

fn push(n: i64) -> OperatorCode {
    OperatorCode::PushNumber(n.into())
}

#[test]
fn ast_demo() {
    let code = "SUM(subtask.estimatePoint;status=4)/SUM(subtask.estimatePoint;)";
    let formula = Formula::parse(code).unwrap();
    let (_, ast) = to_ast(&formula.paris).unwrap();
    println!("{}", ast.beautify(0));

    let operators = ast.to_operator();
    println!("{:#?}", operators);
    assert_eq!(
        operators,
        vec![
            load("SUM"),
            load("subtask"),
            OperatorCode::FilterExpression("status".to_string(), "=".to_string(), "4".to_string()),
            OperatorCode::LoadPropertyAccess("estimatePoint".to_string()),
            OperatorCode::Call(1),
            load("SUM"),
            load("subtask"),
            OperatorCode::LoadPropertyAccess("estimatePoint".to_string()),
            OperatorCode::Call(1),
            OperatorCode::Divide,
        ]
    );
}

#[test]
fn ast_test() {
    check_ast(
        "1.2",
        r#"
            FormulaBody
                ExpressionStatement
                    NumberLiteral (6/5)"#,
    );

    check_ast(
        "1 + 1 * 3",
        r#"
                FormulaBody
                    ExpressionStatement
                        BinaryExpression
                            left
                                NumberLiteral (1)
                            operator +
                            right
                                BinaryExpression
                                    left
                                        NumberLiteral (1)
                                    operator *
                                    right
                                        NumberLiteral (3)"#,
    );

    check_ast(
        "sum(arr, point > 2)",
        r#"
                FormulaBody
                    ExpressionStatement
                        CallExpression
                            callee
                                Identifier sum
                            arguments
                                Identifier arr
                                BinaryExpression
                                    left
                                        Identifier point
                                    operator >
                                    right
                                        NumberLiteral (2)"#,
    );

    check_ast(
        "(1 + 1) * 3",
        r#"
                FormulaBody
                    ExpressionStatement
                        BinaryExpression
                            left
                                BinaryExpression
                                    left
                                        NumberLiteral (1)
                                    operator +
                                    right
                                        NumberLiteral (1)
                            operator *
                            right
                                NumberLiteral (3)"#,
    );

    check_ast(
        "2!",
        r#"
            FormulaBody
                ExpressionStatement
                    UnaryExpression
                        operator !
                        argument
                            NumberLiteral (2)"#,
    );

    check_ast(
        "a()",
        r#"
            FormulaBody
                ExpressionStatement
                    CallExpression
                        callee
                            Identifier a
                        arguments
                            (EMPTY)"#,
    );

    check_ast(
        "a.b",
        r#"
            FormulaBody
                ExpressionStatement
                    PropertyAccessExpression
                        object
                            Identifier a
                        property
                            Identifier b"#,
    );

    check_ast(
        "a.b.c.d(1)",
        r#"
            FormulaBody
                ExpressionStatement
                    CallExpression
                        callee
                            PropertyAccessExpression
                                object
                                    PropertyAccessExpression
                                        object
                                            PropertyAccessExpression
                                                object
                                                    Identifier a
                                                property
                                                    Identifier b
                                        property
                                            Identifier c
                                property
                                    Identifier d
                        arguments
                            NumberLiteral (1)"#,
    );

    check_ast(
        "a('1')",
        r#"
            FormulaBody
                ExpressionStatement
                    CallExpression
                        callee
                            Identifier a
                        arguments
                            StringLiteral ('1')"#,
    );

    check_ast(
        "a(1,2,3,'4')",
        r#"
            FormulaBody
                ExpressionStatement
                    CallExpression
                        callee
                            Identifier a
                        arguments
                            NumberLiteral (1)
                            NumberLiteral (2)
                            NumberLiteral (3)
                            StringLiteral ('4')"#,
    );

    check_ast(
        "2 > 1",
        r#"
            FormulaBody
                ExpressionStatement
                    BinaryExpression
                        left
                            NumberLiteral (2)
                        operator >
                        right
                            NumberLiteral (1)"#,
    );

    check_ast(
        "a > b",
        r#"
            FormulaBody
                ExpressionStatement
                    BinaryExpression
                        left
                            Identifier a
                        operator >
                        right
                            Identifier b"#,
    );

    check_ast(
        "a(b(c(d(1))))",
        r#"
            FormulaBody
                ExpressionStatement
                    CallExpression
                        callee
                            Identifier a
                        arguments
                            CallExpression
                                callee
                                    Identifier b
                                arguments
                                    CallExpression
                                        callee
                                            Identifier c
                                        arguments
                                            CallExpression
                                                callee
                                                    Identifier d
                                                arguments
                                                    NumberLiteral (1)"#,
    );

    check_ast(
        "1+1;2+1",
        r#"
        FormulaBody
            ExpressionStatement
                BinaryExpression
                    left
                        NumberLiteral (1)
                    operator +
                    right
                        NumberLiteral (1)
            ExpressionStatement
                BinaryExpression
                    left
                        NumberLiteral (2)
                    operator +
                    right
                        NumberLiteral (1)"#,
    );

    check_ast(
        "type NewType = { a: Number, b: Array<Number>, c: { d: { e: Bool } } };",
        r#"
            FormulaBody
                ExpressionStatement
                    TypeDefine NewType is { a: Number, b: Array<Number>, c: { d: { e: Bool } } }"#,
    );
}

#[test]
fn ast_to_operator() {
    fn check(expr: &str, result: Vec<OperatorCode>) {
        assert_eq!(operators(expr), result);
    }

    check("5!", vec![push(5), OperatorCode::Factorial]);
    check("1 + 3", vec![push(1), push(3), OperatorCode::Add]);
    check("1 + 3 * 5", vec![push(1), push(3), push(5), OperatorCode::Multiply, OperatorCode::Add]);
    check("(1 + 3) * 5", vec![push(1), push(3), OperatorCode::Add, push(5), OperatorCode::Multiply]);
    check("1 - 1", vec![push(1), push(1), OperatorCode::Subtract]);
    check("a - 1", vec![load("a"), push(1), OperatorCode::Subtract]);
    check("a - b", vec![load("a"), load("b"), OperatorCode::Subtract]);
    check(
        "a - '123'",
        vec![load("a"), OperatorCode::PushString("123".to_string()), OperatorCode::Subtract],
    );
    check("a(1)", vec![load("a"), push(1), OperatorCode::Call(1)]);
    check("a(1,2,3,4)", vec![load("a"), push(1), push(2), push(3), push(4), OperatorCode::Call(4)]);
    check("SUM(arr;)", vec![load("SUM"), load("arr"), OperatorCode::Call(1)]);
    check(
        "SUM(subtask.estimatePoint)",
        vec![
            load("SUM"),
            load("subtask"),
            OperatorCode::LoadPropertyAccess("estimatePoint".to_string()),
            OperatorCode::Call(1),
        ],
    );
    check(
        "SUM(subtask.estimatePoint; state == 1)",
        vec![
            load("SUM"),
            load("subtask"),
            OperatorCode::FilterExpression("state".to_string(), "==".to_string(), "1".to_string()),
            OperatorCode::LoadPropertyAccess("estimatePoint".to_string()),
            OperatorCode::Call(1),
        ],
    );
    check(
        "COUNT(relationship;relationship=CHILD)",
        vec![
            load("COUNT"),
            load("relationship"),
            OperatorCode::FilterExpression(
                "relationship".to_string(),
                "=".to_string(),
                "CHILD".to_string(),
            ),
            OperatorCode::Call(1),
        ],
    );
}

#[test]
fn ast_compiler_rules() {
    assert_eq!(operators("-a"), vec![push(0), load("a"), OperatorCode::Subtract]);
    assert_eq!(
        operators("-a!"),
        vec![push(0), load("a"), OperatorCode::Subtract, OperatorCode::Factorial]
    );
    assert_eq!(operators("-1"), vec![push(-1)]);
    assert_eq!(
        operators("-a.b"),
        vec![
            push(0),
            load("a"),
            OperatorCode::Subtract,
            OperatorCode::LoadPropertyAccess("b".to_string()),
        ]
    );
    assert_eq!(
        operators("-a.b(1)"),
        vec![
            push(0),
            load("a"),
            OperatorCode::LoadPropertyAccess("b".to_string()),
            push(1),
            OperatorCode::Call(1),
            OperatorCode::Subtract,
        ]
    );
    assert_eq!(operators("- 1"), vec![push(0), push(1), OperatorCode::Subtract]);
    assert_eq!(operators("2 > 1"), vec![]);
    assert_eq!(operators("a > b"), vec![]);
    assert_eq!(operators("1 + (a = 2)"), vec![push(1), OperatorCode::Add]);
    assert_eq!(
        operators("f(a, b = 2)"),
        vec![load("f"), load("a"), OperatorCode::Call(2)]
    );
    assert_eq!(
        operators("f(a; b = \"x\")"),
        vec![
            load("f"),
            load("a"),
            OperatorCode::FilterExpression("b".to_string(), "=".to_string(), "\"x\"".to_string()),
            OperatorCode::Call(1),
        ]
    );
    assert_eq!(
        operators("f(a; b >= 1.5)"),
        vec![
            load("f"),
            load("a"),
            OperatorCode::FilterExpression("b".to_string(), ">=".to_string(), "3/2".to_string()),
            OperatorCode::Call(1),
        ]
    );
    assert_eq!(operators("f(a; 1 = b)"), vec![load("f"), load("a"), OperatorCode::Call(2)]);
    assert_eq!(
        operators("f(a; b + 1)"),
        vec![load("f"), load("a"), load("b"), push(1), OperatorCode::Add, OperatorCode::Call(2)]
    );
    assert_eq!(
        operators("f(1 - b)"),
        vec![load("f"), load("b"), push(1), OperatorCode::Subtract, OperatorCode::Call(1)]
    );
    assert_eq!(
        operators("f(g(1), a.p, 2, b; c = 1)"),
        vec![
            load("f"),
            load("g"),
            load("a"),
            load("b"),
            OperatorCode::FilterExpression("c".to_string(), "=".to_string(), "1".to_string()),
            OperatorCode::LoadPropertyAccess("p".to_string()),
            OperatorCode::Call(1),
            push(1),
            push(2),
            OperatorCode::Call(4),
        ]
    );
    assert_eq!(
        operators("f(a; b = 1; c = 2)"),
        vec![
            load("f"),
            load("a"),
            OperatorCode::FilterExpression("b".to_string(), "=".to_string(), "1".to_string()),
            OperatorCode::FilterExpression("c".to_string(), "=".to_string(), "2".to_string()),
            OperatorCode::Call(1),
        ]
    );
    assert_eq!(
        operators("f(g(a; b = 1))"),
        vec![
            load("f"),
            load("g"),
            load("a"),
            OperatorCode::FilterExpression("b".to_string(), "=".to_string(), "1".to_string()),
            OperatorCode::Call(1),
            OperatorCode::Call(1),
        ]
    );
    assert_eq!(
        operators("f(1, g(2))"),
        vec![load("f"), load("g"), OperatorCode::Call(1), push(1), push(2), OperatorCode::Call(2)]
    );
    assert_eq!(
        operators("F(1, G())"),
        vec![load("F"), load("G"), OperatorCode::Call(0), push(1), OperatorCode::Call(2)]
    );
    assert_eq!(
        operators("f(a; b + 1 = 2)"),
        vec![load("f"), load("a"), OperatorCode::Call(2)]
    );
    assert_eq!(
        operators("1 % 2 ^ 3 / 4"),
        vec![
            push(1),
            push(2),
            push(3),
            OperatorCode::Power,
            OperatorCode::Modulo,
            push(4),
            OperatorCode::Divide,
        ]
    );
    assert_eq!(
        operators("1;2"),
        vec![push(1), push(2)]
    );
}

#[test]
fn ast_precedence_and_associativity() {
    let level = |op: &str| match op {
        "==" | "<" => 1,
        "+" | "-" => 2,
        "*" | "/" => 3,
        "%" => 4,
        _ => 5,
    };
    let all = ["==", "<", "+", "-", "*", "/", "%", "^"];
    for first in all {
        for second in all {
            let text = format!("a {} b {} c", first, second);
            let formula = Formula::parse(&text).unwrap();
            let (_, mut ast) = to_ast(&formula.paris).unwrap();
            let right = level(second) > level(first) || (first == "^" && second == "^");
            match ast.body.remove(0).1.expression.1 {
                ExpressionKind::BinaryExpressionKind(_, outer) => {
                    if right {
                        assert_eq!(outer.operator.1, first, "{}", text);
                        assert!(matches!(*outer.left.1, ExpressionKind::IdentifierKind(_, _)));
                        match *outer.right.1 {
                            ExpressionKind::BinaryExpressionKind(_, inner) => {
                                assert_eq!(inner.operator.1, second)
                            }
                            other => panic!("{:?}", other),
                        }
                    } else {
                        assert_eq!(outer.operator.1, second, "{}", text);
                        assert!(matches!(*outer.right.1, ExpressionKind::IdentifierKind(_, _)));
                        match *outer.left.1 {
                            ExpressionKind::BinaryExpressionKind(_, inner) => {
                                assert_eq!(inner.operator.1, first)
                            }
                            other => panic!("{:?}", other),
                        }
                    }
                }
                other => panic!("{:?}", other),
            }
        }
    }
}

#[test]
fn ast_ranges() {
    let formula = Formula::parse(" f(a.b, -1) + (2 * 3)!").unwrap();
    let (whole, mut ast) = to_ast(&formula.paris).unwrap();
    assert_eq!(whole, Range(0, 22));
    let (range, statement) = ast.body.remove(0);
    assert_eq!(range, Range(1, 22));
    assert_eq!(statement.expression.0, Range(1, 22));
    match statement.expression.1 {
        ExpressionKind::BinaryExpressionKind(range, binary) => {
            assert_eq!(range, Range(1, 22));
            assert_eq!(binary.operator, (Range(12, 13), "+".to_string()));
            assert_eq!(binary.left.0, Range(1, 11));
            assert_eq!(binary.right.0, Range(15, 22));
            match *binary.left.1 {
                ExpressionKind::CallExpressionKind(range, call) => {
                    assert_eq!(range, Range(1, 11));
                    assert_eq!(call.callee.0, Range(1, 2));
                    assert_eq!(call.arguments[0].0, Range(3, 6));
                    assert_eq!(call.arguments[1].0, Range(8, 10));
                }
                other => panic!("{:?}", other),
            }
            match *binary.right.1 {
                ExpressionKind::UnaryExpressionKind(range, unary) => {
                    assert_eq!(range, Range(15, 22));
                    assert!(!unary.prefix);
                    assert_eq!(unary.operator, (Range(21, 22), "!".to_string()));
                    assert_eq!(unary.argument.0, Range(15, 20));
                }
                other => panic!("{:?}", other),
            }
        }
        other => panic!("{:?}", other),
    }
}

#[test]
fn ast_beautify_is_indented_by_two() {
    assert_eq!(
        beautified("-a.b + f(1;c=2)!"),
        [
            "FormulaBody",
            "  ExpressionStatement",
            "    BinaryExpression",
            "      left",
            "        PropertyAccessExpression",
            "          object",
            "            UnaryExpression ",
            "              operator -",
            "              argument",
            "                Identifier a",
            "          property",
            "            Identifier b",
            "      operator +",
            "      right",
            "        UnaryExpression ",
            "          operator !",
            "          argument",
            "            CallExpression",
            "              callee",
            "                Identifier f",
            "              arguments",
            "                NumberLiteral (1)",
            "                BinaryExpression",
            "                  left",
            "                    Identifier c",
            "                  operator =",
            "                  right",
            "                    NumberLiteral (2)",
        ]
        .join("\n")
    );
    assert_eq!(indent(0, "x".to_string()), "x");
    assert_eq!(indent(3, "x".to_string()), "      x");
}

#[test]
fn ast_number_literals() {
    let value = |s: &str| number_from_text(s, false);
    assert_eq!(value("1.2"), Rational::new(6, 5));
    assert_eq!(value("0.1"), Rational::new(1, 10));
    assert_eq!(value("007"), Rational::new(7, 1));
    assert_eq!(value("2.50"), Rational::new(5, 2));
    assert_eq!(value("1e3"), Rational::new(1000, 1));
    assert_eq!(value("1.5E+2"), Rational::new(150, 1));
    assert_eq!(value("25e-1"), Rational::new(5, 2));
    assert_eq!(value("1.25e1"), Rational::new(25, 2));
    assert_eq!(value("9223372036854775807"), Rational::new(i64::MAX, 1));
    assert_eq!(value("9223372036854775808"), None);
    assert_eq!(value("1e18"), Rational::new(1_000_000_000_000_000_000, 1));
    assert_eq!(value("1e19"), None);
    assert_eq!(value("0e19"), None);
    assert_eq!(value("0.000000000000000001"), Rational::new(1, 1_000_000_000_000_000_000));
    assert_eq!(number_from_text("1.2", true), Rational::new(-6, 5));
    assert_eq!(number_from_text("0", true), Rational::new(0, 1));
}

#[test]
fn get_expr_dependencies_1() {
    let dependencies = get_dependencies(&operators("GET_NOW-GET_UPDATE_TIME"));
    assert_eq!(dependencies, vec!["GET_NOW", "GET_UPDATE_TIME"]);
}

#[test]
fn get_expr_dependencies_2() {
    let dependencies =
        get_dependencies(&operators("SUM(subtask.estimatePoint;status=2) + GET_NOW-GET_UPDATE_TIME"));
    assert_eq!(dependencies, vec!["subtask", "GET_NOW", "GET_UPDATE_TIME"]);
}

#[test]
fn ast_dependencies_keep_order_and_repeats() {
    assert_eq!(
        get_dependencies(&operators("b + a + COUNT(b) + SUM(sum, count) + 'a'")),
        vec!["b", "a", "b", "sum", "count"]
    );
    assert_eq!(get_dependencies(&operators("1 + 2")), Vec::<String>::new());
    assert_eq!(
        get_dependencies(&vec![
            OperatorCode::PushString("x".to_string()),
            OperatorCode::LoadPropertyAccess("y".to_string()),
            OperatorCode::FilterExpression("p".to_string(), "=".to_string(), "q".to_string()),
            load("SUM"),
            load("Sum"),
        ]),
        vec!["Sum"]
    );
}
