use formula_rs_wasm::execute::variable::{Identifier, Variable, VariableTable};
use formula_rs_wasm::formula::error::{FormulaError, FormulaErrorType};
use formula_rs_wasm::types::operator::FormulaOperator;
use formula_rs_wasm::types::types::FormulaValueType;

fn variable(name: &str, value: FormulaValueType, type_: FormulaValueType) -> Variable {
    Variable { name: Identifier(name.to_string()), value, type_ }
}

#[test]
fn variable_table_adds_and_replaces() {
    let mut table = VariableTable::new();
    assert_eq!(table.variables.len(), 0);
    assert_eq!(table.get_variable("a"), None);
    table.add_variable(variable("a", FormulaValueType::Number, FormulaValueType::Number));
    table.add_variable(variable("b", FormulaValueType::String, FormulaValueType::String));
    table.add_variable(variable("a", FormulaValueType::Bool, FormulaValueType::Array));
    assert_eq!(table.variables.len(), 2);
    assert_eq!(
        table.get_variable("a"),
        Some(&variable("a", FormulaValueType::Bool, FormulaValueType::Array))
    );
    assert_eq!(
        table.get_variable("b"),
        Some(&variable("b", FormulaValueType::String, FormulaValueType::String))
    );
    assert_eq!(table.variables[0].name, Identifier("a".to_string()));
    assert_eq!(table.variables[1].name, Identifier("b".to_string()));
    assert_eq!(table.get_variable("c"), None);
    assert_eq!(table.get_variable(""), None);
}

#[test]
fn variable_table_finds_the_first_of_a_name() {
    let table = VariableTable {
        variables: vec![
            variable("x", FormulaValueType::Number, FormulaValueType::Number),
            variable("x", FormulaValueType::Bool, FormulaValueType::Bool),
        ],
    };
    assert_eq!(
        table.get_variable("x"),
        Some(&variable("x", FormulaValueType::Number, FormulaValueType::Number))
    );
    let mut table = table;
    table.add_variable(variable("x", FormulaValueType::Null, FormulaValueType::Null));
    assert_eq!(table.variables.len(), 2);
    assert_eq!(table.variables[0].value, FormulaValueType::Null);
    assert_eq!(table.variables[1].value, FormulaValueType::Bool);
}

#[test]
fn formula_errors() {
    let e = FormulaError::new(FormulaErrorType::DivideByZero);
    assert_eq!(e, FormulaError::divide_by_zero());
    assert_eq!(e.message, None);
    let e = FormulaError::default_error().with_message("m".to_string());
    assert_eq!(e.type_, FormulaErrorType::DefaultError);
    assert_eq!(e.message, Some("m".to_string()));
    let e = FormulaError::operator_mismatch_error(
        FormulaOperator::Add,
        FormulaValueType::Number,
        Some(FormulaValueType::Bool),
    );
    assert_eq!(
        e.type_,
        FormulaErrorType::OperatorMismatchError(
            FormulaOperator::Add,
            FormulaValueType::Number,
            Some(FormulaValueType::Bool)
        )
    );
    assert_eq!(e.message, None);
    let kinds = [
        FormulaError::number_conversion_error().type_,
        FormulaError::pow_not_rational().type_,
        FormulaError::factorial_not_integer().type_,
        FormulaError::factorial_not_negative().type_,
        FormulaError::type_mismatch_error().type_,
    ];
    assert_eq!(
        kinds,
        [
            FormulaErrorType::NumberConversionError,
            FormulaErrorType::PowNotRational,
            FormulaErrorType::FactorialNotInteger,
            FormulaErrorType::FactorialNotNegative,
            FormulaErrorType::TypeMismatchError,
        ]
    );
}
