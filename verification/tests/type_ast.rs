use formula_rs_wasm::parse::ast::{to_ast, ExpressionKind, FormulaBody, Range};
use formula_rs_wasm::parse::beautify::Beautify;
use formula_rs_wasm::parse::parse::{Formula, ParseError, ParseErrorKind, TokenKind};
use formula_rs_wasm::parse::to_operator::ToOperator;
use formula_rs_wasm::parse::type_ast::{
    is_type_definition, type_def_to_ast, type_item_to_ast, TypeDefine, TypeItemKind,
};
use formula_rs_wasm::share::operator::OperatorCode;

fn read(text: &str) -> Result<FormulaBody, ParseError> {
    let formula = Formula::parse(text)?;
    let (_, body) = to_ast(&formula.paris)?;
    Ok(body)
}

fn definition(text: &str) -> (Range, TypeDefine) {
    let mut body = read(text).unwrap();
    assert_eq!(body.body.len(), 1);
    match body.body.remove(0).1.expression.1 {
        ExpressionKind::TypeDefineKind(range, define) => (range, define),
        other => panic!("{:?}", other),
    }
}

fn shown(text: &str) -> String {
    read(text).unwrap().beautify(0)
}

fn error_of(text: &str) -> ParseError {
    read(text).unwrap_err()
}

#[test]
fn type_definition_of_a_name() {
    let (range, define) = definition("type a = Number;");
    assert_eq!(range, Range(0, 15));
    assert_eq!(define.ident.0, Range(5, 6));
    assert_eq!(define.ident.1.name, "a");
    assert_eq!(define.type_item.0, Range(9, 15));
    match define.type_item.1 {
        TypeItemKind::NamedTypeKind(named) => {
            assert_eq!(named.ident.0, Range(9, 15));
            assert_eq!(named.ident.1.name, "Number");
            assert_eq!(named.parameters.len(), 0);
        }
        other => panic!("{:?}", other),
    }
}

#[test]
fn type_definition_of_a_record() {
    let (range, define) = definition("type T = { a: Number, b: Array<Number, { c: X }> }");
    assert_eq!(range, Range(0, 50));
    match define.type_item.1 {
        TypeItemKind::RecordTypeKind(record) => {
            assert_eq!(record.fields.len(), 2);
            let (first_range, first) = &record.fields[0];
            assert_eq!(*first_range, Range(11, 20));
            assert_eq!(first.key, (Range(11, 12), formula_rs_wasm::parse::ast::Identifier { name: "a".to_string() }));
            assert_eq!(first.value.0, Range(14, 20));
            let (second_range, second) = &record.fields[1];
            assert_eq!(*second_range, Range(22, 48));
            assert_eq!(second.key.1.name, "b");
            match &second.value.1 {
                TypeItemKind::NamedTypeKind(named) => {
                    assert_eq!(named.ident.1.name, "Array");
                    assert_eq!(named.parameters.len(), 2);
                    assert_eq!(named.parameters[0].0, Range(31, 37));
                    assert_eq!(named.parameters[1].0, Range(39, 47));
                    assert!(matches!(named.parameters[1].1, TypeItemKind::RecordTypeKind(_)));
                }
                other => panic!("{:?}", other),
            }
        }
        other => panic!("{:?}", other),
    }
}

#[test]
fn type_definition_is_shown() {
    assert_eq!(shown("type a = Number;"), "FormulaBody\n  ExpressionStatement\n    TypeDefine a is Number");
    assert_eq!(
        shown("type  M=Map<String,Array< Number >>"),
        "FormulaBody\n  ExpressionStatement\n    TypeDefine M is Map<String, Array<Number>>"
    );
    assert_eq!(shown("type E = {}"), "FormulaBody\n  ExpressionStatement\n    TypeDefine E is {}");
    assert_eq!(
        shown("type R = {a:{},b:B<{c:C}>}"),
        "FormulaBody\n  ExpressionStatement\n    TypeDefine R is { a: {}, b: B<{ c: C }> }"
    );
    assert_eq!(
        shown("type a = Number; a + 1"),
        [
            "FormulaBody",
            "  ExpressionStatement",
            "    TypeDefine a is Number",
            "  ExpressionStatement",
            "    BinaryExpression",
            "      left",
            "        Identifier a",
            "      operator +",
            "      right",
            "        NumberLiteral (1)",
        ]
        .join("\n")
    );
}

#[test]
fn type_definition_has_no_code() {
    assert_eq!(read("type a = Number;").unwrap().to_operator(), vec![]);
    assert_eq!(
        read("type a = { b: C }; 1").unwrap().to_operator(),
        vec![OperatorCode::PushNumber(1.into())]
    );
}

#[test]
fn type_is_a_name_elsewhere() {
    assert!(matches!(
        read("type + 1").unwrap().body.remove(0).1.expression.1,
        ExpressionKind::BinaryExpressionKind(_, _)
    ));
    assert!(matches!(
        read("type").unwrap().body.remove(0).1.expression.1,
        ExpressionKind::IdentifierKind(_, _)
    ));
    assert!(matches!(
        read("type(a)").unwrap().body.remove(0).1.expression.1,
        ExpressionKind::CallExpressionKind(_, _)
    ));
    let tokens = Formula::parse("type a").unwrap().paris;
    assert!(is_type_definition(&tokens, 0));
    assert!(!is_type_definition(&tokens, 1));
    let tokens = Formula::parse("types a").unwrap().paris;
    assert!(!is_type_definition(&tokens, 0));
}

#[test]
fn type_definition_errors() {
    let error = |kind, position| ParseError { kind, position };
    assert_eq!(error_of("type a"), error(ParseErrorKind::ExpectedEquals, 6));
    assert_eq!(error_of("type a == B"), error(ParseErrorKind::ExpectedEquals, 7));
    assert_eq!(error_of("type a ="), error(ParseErrorKind::ExpectedType, 8));
    assert_eq!(error_of("type a = 1"), error(ParseErrorKind::ExpectedType, 9));
    assert_eq!(error_of("type a = { 1: B }"), error(ParseErrorKind::ExpectedName, 11));
    assert_eq!(error_of("type a = { b B }"), error(ParseErrorKind::ExpectedColon, 13));
    assert_eq!(error_of("type a = { b: }"), error(ParseErrorKind::ExpectedType, 14));
    assert_eq!(error_of("type a = { b: C d: E }"), error(ParseErrorKind::ExpectedCloseBrace, 16));
    assert_eq!(error_of("type a = { b: C, }"), error(ParseErrorKind::ExpectedName, 17));
    assert_eq!(error_of("type a = { b: C"), error(ParseErrorKind::ExpectedCloseBrace, 15));
    assert_eq!(error_of("type a = A<B"), error(ParseErrorKind::ExpectedCloseAngle, 12));
    assert_eq!(error_of("type a = A<B C>"), error(ParseErrorKind::ExpectedCloseAngle, 13));
    assert_eq!(error_of("type a = A<>"), error(ParseErrorKind::ExpectedOperator, 10));
    assert_eq!(error_of("type a = A<,>"), error(ParseErrorKind::ExpectedType, 11));
    assert_eq!(error_of("type a = B C"), error(ParseErrorKind::ExpectedOperator, 11));
    assert_eq!(error_of("1 + type a = B"), error(ParseErrorKind::ExpectedOperator, 9));
    let tokens = Formula::parse("a = B").unwrap().paris;
    assert_eq!(type_def_to_ast(&tokens, 0).unwrap_err(), error(ParseErrorKind::ExpectedType, 0));
    let tokens = Formula::parse("type = B").unwrap().paris;
    assert_eq!(type_def_to_ast(&tokens, 0).unwrap_err(), error(ParseErrorKind::ExpectedName, 5));
    assert_eq!(type_item_to_ast(&tokens, 9).unwrap_err(), error(ParseErrorKind::ExpectedType, 8));
    let (item, next) = type_item_to_ast(&tokens, 2).unwrap();
    assert_eq!((item.0, next), (Range(7, 8), 3));
}

#[test]
fn type_tokens() {
    let kinds: Vec<TokenKind> =
        Formula::parse("{ } : <").unwrap().paris.iter().map(|t| t.kind).collect();
    assert_eq!(
        kinds,
        vec![TokenKind::LeftBrace, TokenKind::RightBrace, TokenKind::Colon, TokenKind::Compare]
    );
}
