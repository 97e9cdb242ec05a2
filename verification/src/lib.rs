//! An embeddable formula language: a parser, a bytecode compiler and a stack
//! machine over exact rational numbers.
//!
//! A formula such as `SUM(subtask.estimatePoint; status == 2) + 1` is read
//! into tokens, then into a syntax tree, compiled to bytecode and run against
//! the fields of a record.

pub mod execute;
pub mod formula;
pub mod parse;
pub mod share;
pub mod types;
pub mod vm;

use vstd::prelude::*;
use vstd::string::StringExecFns;
use crate::parse::ast::{formula_at, to_ast};
use crate::parse::dependencies::{
    dependencies_of, get_dependencies, is_builtin_name, lemma_dependencies_complete, texts,
};
use crate::parse::parse::{tokens_from, Formula, ParseError};
use crate::parse::to_operator::{code_all, ToOperator};
use crate::share::codec::{decode, decoded, encode, encoded};
use crate::share::operator::{program_view, OperatorCode, OperatorView};
use crate::share::rational::Rational;
use crate::vm::context::RuntimeContext;
use crate::vm::error::{ErrorView, ExecuteError, ExecuteErrorType};
use crate::vm::object::ValueMap;
use crate::vm::runner::{lemma_run_finds_variables, run_spec, Runner};
use crate::vm::value::{Value, ValueView};

verus! {

/// Why a formula gave no result.
#[derive(Debug, PartialEq)]
pub enum RunError {
    /// The text is no formula.
    Parse(ParseError),
    /// The program failed.
    Execute(ExecuteError),
}

/// What a failure is.
pub enum RunErrorView {
    Parse(ParseError),
    Execute(ErrorView),
}

impl View for RunError {
    type V = RunErrorView;

    open spec fn view(&self) -> RunErrorView {
        match self {
            RunError::Parse(e) => RunErrorView::Parse(*e),
            RunError::Execute(e) => RunErrorView::Execute(e@),
        }
    }
}

/// The bytecode of a formula, or why its text is none.
pub open spec fn compiled(text: Seq<char>) -> Result<Seq<OperatorView>, ParseError> {
    match tokens_from(text, 0) {
        Err(e) => Err(e),
        Ok(tokens) => match formula_at(tokens) {
            Err(e) => Err(e),
            Ok((_, statements)) => Ok(code_all(statements)),
        },
    }
}

/// The field of a record, or the empty string where the record has none.
pub open spec fn field_of(record: Map<Seq<char>, ValueView>, name: Seq<char>) -> ValueView {
    if record.contains_key(name) {
        record[name]
    } else {
        ValueView::String(Seq::empty())
    }
}

/// The variables that every evaluation starts with: the builtin functions,
/// the two times that the host hands over, and the two times of the record.
pub open spec fn seeded(record: Map<Seq<char>, ValueView>, now: i64, today: i64) -> Map<
    Seq<char>,
    ValueView,
> {
    Map::<Seq<char>, ValueView>::empty().insert("SUM"@, ValueView::Function("sum"@)).insert(
        "COUNT"@,
        ValueView::Function("count"@),
    ).insert("GET_TODAY"@, ValueView::Number(Rational::of(today, 1))).insert(
        "GET_NOW"@,
        ValueView::Number(Rational::of(now, 1)),
    ).insert("GET_UPDATE_TIME"@, field_of(record, "updateTime"@)).insert(
        "GET_CREATE_TIME"@,
        field_of(record, "createTime"@),
    )
}

/// `heap` with each of `names` that it does not hold yet bound to the field
/// of the record.
pub open spec fn bound(heap: Map<Seq<char>, ValueView>, names: Seq<Seq<char>>, record: Map<
    Seq<char>,
    ValueView,
>) -> Map<Seq<char>, ValueView>
    decreases names.len(),
{
    if names.len() == 0 {
        heap
    } else {
        let before = bound(heap, names.drop_last(), record);
        if before.contains_key(names.last()) {
            before
        } else {
            before.insert(names.last(), field_of(record, names.last()))
        }
    }
}

/// The text of the value of a formula on a record.
pub open spec fn evaluated(text: Seq<char>, record: Map<Seq<char>, ValueView>, now: i64, today: i64) -> Result<
    Seq<char>,
    RunErrorView,
> {
    match compiled(text) {
        Err(e) => Err(RunErrorView::Parse(e)),
        Ok(code) => match run_spec(
            code,
            bound(seeded(record, now, today), dependencies_of(code), record),
            Seq::empty(),
        ) {
            Err(e) => Err(RunErrorView::Execute(e)),
            Ok(v) => Ok(v.display()),
        },
    }
}

/// Binding names keeps what was bound.
pub proof fn lemma_bound_keeps(heap: Map<Seq<char>, ValueView>, names: Seq<Seq<char>>, record: Map<
    Seq<char>,
    ValueView,
>, key: Seq<char>)
    requires
        heap.contains_key(key),
    ensures
        bound(heap, names, record).contains_key(key),
    decreases names.len(),
{
    if names.len() > 0 {
        lemma_bound_keeps(heap, names.drop_last(), record, key);
    }
}

/// Binding names binds each of them.
pub proof fn lemma_bound_binds(heap: Map<Seq<char>, ValueView>, names: Seq<Seq<char>>, record: Map<
    Seq<char>,
    ValueView,
>, i: int)
    requires
        0 <= i < names.len(),
    ensures
        bound(heap, names, record).contains_key(names[i]),
    decreases names.len(),
{
    if i < names.len() - 1 {
        lemma_bound_binds(heap, names.drop_last(), record, i);
    }
}

/// An evaluation binds every variable that the formula reads: it never fails
/// because an identifier is not found.
pub proof fn lemma_evaluation_finds_variables(text: Seq<char>, record: Map<Seq<char>, ValueView>, now: i64, today: i64)
    ensures
        evaluated(text, record, now, today) matches Err(RunErrorView::Execute(e)) ==> e.type_
            != ExecuteErrorType::IdentifierNotFound,
{
    match compiled(text) {
        Ok(code) => {
            let start = seeded(record, now, today);
            let names = dependencies_of(code);
            let heap = bound(start, names, record);
            assert forall|i: int| 0 <= i < code.len() && (#[trigger] code[i]) is LoadIdentifier
                implies heap.contains_key(code[i]->LoadIdentifier_0) by {
                let name = code[i]->LoadIdentifier_0;
                if is_builtin_name(name) {
                    assert(start.contains_key("SUM"@));
                    assert(start.contains_key("COUNT"@));
                    lemma_bound_keeps(start, names, record, name);
                } else {
                    lemma_dependencies_complete(code, i);
                    let k = choose|k: int| 0 <= k < names.len() && names[k] == name;
                    lemma_bound_binds(start, names, record, k);
                }
            }
            lemma_run_finds_variables(code, heap, Seq::empty());
        },
        Err(_) => {},
    }
}

/// The view of the result of a compilation.
pub open spec fn compile_view(r: Result<Vec<OperatorCode>, ParseError>) -> Result<
    Seq<OperatorView>,
    ParseError,
> {
    match r {
        Ok(code) => Ok(program_view(code@)),
        Err(e) => Err(e),
    }
}

/// The bytes of the bytecode of a formula, or why its text is none.
pub open spec fn compiled_bytes(text: Seq<char>) -> Result<Seq<u8>, ParseError> {
    match compiled(text) {
        Ok(code) => Ok(encoded(code)),
        Err(e) => Err(e),
    }
}

/// The view of the result of a compilation to bytes.
pub open spec fn bytes_view(r: Result<Vec<u8>, ParseError>) -> Result<Seq<u8>, ParseError> {
    match r {
        Ok(bytes) => Ok(bytes@),
        Err(e) => Err(e),
    }
}

/// The names that the program in `bytes` reads, if the bytes hold a program.
pub open spec fn dependencies_in(bytes: Seq<u8>) -> Option<Seq<Seq<char>>> {
    match decoded(bytes) {
        Some(code) => Some(dependencies_of(code)),
        None => None,
    }
}

/// The view of the result of reading the dependencies.
pub open spec fn names_view(r: Option<Vec<String>>) -> Option<Seq<Seq<char>>> {
    match r {
        Some(names) => Some(texts(names@)),
        None => None,
    }
}

/// The view of the result of an evaluation.
pub open spec fn run_view(r: Result<String, RunError>) -> Result<Seq<char>, RunErrorView> {
    match r {
        Ok(text) => Ok(text@),
        Err(e) => Err(e@),
    }
}

/// Answers a call, to show that the library is there.
pub fn ping() -> (r: String)
    ensures
        r@ == "Pang"@,
{
    String::from_str("Pang")
}

/// Compiles a formula to the bytes of its bytecode. Read again, the bytes
/// give the bytecode that was compiled.
pub fn compile(expr: String) -> (r: Result<Vec<u8>, ParseError>)
    ensures
        bytes_view(r) == compiled_bytes(expr@),
        r matches Ok(bytes) ==> compiled(expr@) matches Ok(code) && decoded(bytes@) == Some(
            code,
        ),
{
    match to_operators(expr.as_str()) {
        Ok(code) => Ok(encode(&code)),
        Err(e) => Err(e),
    }
}

/// The variables that the host must bind before it runs the program in
/// `bytecode`; nothing where the bytes hold no program.
pub fn dependencies(bytecode: &Vec<u8>) -> (r: Option<Vec<String>>)
    ensures
        names_view(r) == dependencies_in(bytecode@),
{
    match decode(bytecode) {
        Some(code) => Some(get_dependencies(&code)),
        None => None,
    }
}

/// Compiles a formula to bytecode.
pub fn to_operators(expr: &str) -> (r: Result<Vec<OperatorCode>, ParseError>)
    ensures
        compile_view(r) == compiled(expr@),
{
    let formula = match Formula::parse(expr) {
        Ok(f) => f,
        Err(e) => {
            return Err(e);
        },
    };
    match to_ast(&formula.paris) {
        Err(e) => Err(e),
        Ok((_, ast)) => Ok(ast.to_operator()),
    }
}

fn field(record: &ValueMap, name: &str) -> (r: Value)
    ensures
        r@ == field_of(record@, name@),
{
    match record.get(name) {
        Some(v) => v.clone(),
        None => Value::String(String::new()),
    }
}

/// Binds the times of an evaluation.
fn mock_time(ctx: &mut RuntimeContext, record: &ValueMap, now: i64, today: i64)
    ensures
        final(ctx).stack() == old(ctx).stack(),
        final(ctx).variables() == old(ctx).variables().insert(
            "GET_TODAY"@,
            ValueView::Number(Rational::of(today, 1)),
        ).insert("GET_NOW"@, ValueView::Number(Rational::of(now, 1))).insert(
            "GET_UPDATE_TIME"@,
            field_of(record@, "updateTime"@),
        ).insert("GET_CREATE_TIME"@, field_of(record@, "createTime"@)),
{
    ctx.set(String::from_str("GET_TODAY"), Value::Number(Rational::from_integer(today)));
    ctx.set(String::from_str("GET_NOW"), Value::Number(Rational::from_integer(now)));
    ctx.set(String::from_str("GET_UPDATE_TIME"), field(record, "updateTime"));
    ctx.set(String::from_str("GET_CREATE_TIME"), field(record, "createTime"));
}

/// Binds each of `names` that the context does not hold yet to the field of
/// the record, or to the empty string where the record has no such field.
pub fn bind_record(ctx: &mut RuntimeContext, names: &Vec<String>, record: &ValueMap)
    ensures
        final(ctx).stack() == old(ctx).stack(),
        final(ctx).variables() == bound(old(ctx).variables(), texts(names@), record@),
{
    let ghost all = texts(names@);
    let ghost start = ctx.variables();
    let mut i: usize = 0;
    assert(all.take(0) =~= Seq::<Seq<char>>::empty());
    while i < names.len()
        invariant
            i <= names.len(),
            all == texts(names@),
            ctx.stack() == old(ctx).stack(),
            start == old(ctx).variables(),
            ctx.variables() == bound(start, all.take(i as int), record@),
        decreases names.len() - i,
    {
        proof {
            assert(all.take(i + 1).drop_last() =~= all.take(i as int));
            assert(all.take(i + 1).last() == names@[i as int]@);
        }
        if !ctx.has(&names[i]) {
            let value = field(record, names[i].as_str());
            ctx.set(names[i].clone(), value);
        }
        i = i + 1;
    }
    assert(all.take(names.len() as int) =~= all);
}

/// Compiles a formula, binds the variables that it reads to the fields of
/// the record, runs it and shows its value.
pub fn run(expr: String, record: &ValueMap, now: i64, today: i64) -> (r: Result<String, RunError>)
    ensures
        run_view(r) == evaluated(expr@, record@, now, today),
{
    let operators = match to_operators(expr.as_str()) {
        Ok(code) => code,
        Err(e) => {
            return Err(RunError::Parse(e));
        },
    };
    let dependencies = get_dependencies(&operators);
    let mut ctx = RuntimeContext::new();
    ctx.inject_functions();
    mock_time(&mut ctx, record, now, today);
    bind_record(&mut ctx, &dependencies, record);
    match Runner.run(operators, &mut ctx) {
        Ok(v) => Ok(v.to_string()),
        Err(e) => Err(RunError::Execute(e)),
    }
}

} // verus!
