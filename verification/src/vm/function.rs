//! The builtin functions.

use vstd::prelude::*;
use crate::share::rational::Rational;
use crate::share::text::same_text;
use crate::vm::error::{views, ErrorView, ExecuteError, ExecuteErrorType};
use crate::vm::value::{
    lemma_views_of, lemma_views_of_take, out_of_range, result_view, views_of, Value, ValueView,
};

verus! {

/// A function that a program can call.
pub trait RuntimeFunction {
    fn run(&self, args: &Vec<Value>) -> Result<Value, ExecuteError>;
}

/// The sum of numbers.
pub struct SumFunction;

/// The number of arguments, or of the items of an array.
pub struct CountFunction;

/// Every item is a number.
pub open spec fn all_numbers(args: Seq<ValueView>) -> bool {
    forall|i: int| 0 <= i < args.len() ==> (#[trigger] args[i]) is Number
}

/// The names of the types of the arguments.
pub open spec fn kind_names(args: Seq<ValueView>) -> Seq<Seq<char>> {
    args.map_values(|v: ValueView| v.kind_name())
}

/// The error of a builtin that was called with arguments it does not accept.
pub open spec fn invalid_argument(expected: Seq<Seq<char>>, args: Seq<ValueView>) -> ErrorView {
    ErrorView::with_text(
        ExecuteErrorType::FunctionInvalidArgument,
        ExecuteError::invalid_argument_text(expected, kind_names(args)),
    )
}

/// What `SUM` accepts.
pub open spec fn sum_expected() -> Seq<Seq<char>> {
    seq!["Number"@, "Number[]"@]
}

/// What `COUNT` accepts besides numbers.
pub open spec fn count_expected() -> Seq<Seq<char>> {
    seq!["Array"@]
}

/// The sum of `items` from the left, starting at zero. It stops at the first
/// sum that cannot be held and at the first item that is no number.
pub open spec fn sum_items(items: Seq<ValueView>, args: Seq<ValueView>) -> Result<
    ValueView,
    ErrorView,
>
    decreases items.len(),
{
    if items.len() == 0 {
        Ok(ValueView::Number(Rational::of(0, 1)))
    } else {
        match sum_items(items.drop_last(), args) {
            Err(e) => Err(e),
            Ok(acc) => if items.last() is Number {
                acc.add(items.last())
            } else {
                Err(invalid_argument(sum_expected(), args))
            },
        }
    }
}

/// `SUM`: the sum of the arguments where all are numbers, else the sum of the
/// array that the first argument is.
pub open spec fn sum_of(args: Seq<ValueView>) -> Result<ValueView, ErrorView> {
    if all_numbers(args) {
        sum_items(args, args)
    } else {
        match args[0] {
            ValueView::Array(items) => sum_items(items, args),
            _ => Err(invalid_argument(sum_expected(), args)),
        }
    }
}

/// A count as a number.
pub open spec fn counted(n: nat) -> Result<ValueView, ErrorView> {
    if n <= i64::MAX {
        Ok(ValueView::Number(Rational::of(n as i64, 1)))
    } else {
        Err(out_of_range())
    }
}

/// `COUNT`: the number of arguments where all are numbers, else the length of
/// the array that the first argument is.
pub open spec fn count_of(args: Seq<ValueView>) -> Result<ValueView, ErrorView> {
    if all_numbers(args) {
        counted(args.len())
    } else {
        match args[0] {
            ValueView::Array(items) => counted(items.len()),
            _ => Err(invalid_argument(count_expected(), args)),
        }
    }
}

/// The builtin of the given name, applied to `args`.
pub open spec fn builtin(name: Seq<char>, args: Seq<ValueView>) -> Result<ValueView, ErrorView> {
    if name == "sum"@ {
        sum_of(args)
    } else if name == "count"@ {
        count_of(args)
    } else {
        Err(
            ErrorView::with_text(
                ExecuteErrorType::FunctionNotFound,
                "function not found: "@ + name,
            ),
        )
    }
}

/// A sum does not fail for want of a variable.
pub proof fn lemma_sum_items_error(items: Seq<ValueView>, args: Seq<ValueView>)
    ensures
        sum_items(items, args) matches Err(e) ==> e.type_ != ExecuteErrorType::IdentifierNotFound,
    decreases items.len(),
{
    if items.len() > 0 {
        lemma_sum_items_error(items.drop_last(), args);
    }
}

/// A builtin does not fail for want of a variable.
pub proof fn lemma_builtin_error(name: Seq<char>, args: Seq<ValueView>)
    ensures
        builtin(name, args) matches Err(e) ==> e.type_ != ExecuteErrorType::IdentifierNotFound,
{
    lemma_sum_items_error(args, args);
    if args.len() > 0 {
        match args[0] {
            ValueView::Array(items) => {
                lemma_sum_items_error(items, args);
            },
            _ => {},
        }
    }
}

fn all_are_numbers(args: &Vec<Value>) -> (r: bool)
    ensures
        r == all_numbers(views_of(args@)),
{
    proof {
        lemma_views_of(args@);
    }
    let mut i: usize = 0;
    while i < args.len()
        invariant
            i <= args.len(),
            forall|j: int| 0 <= j < i ==> (#[trigger] views_of(args@)[j]) is Number,
            views_of(args@).len() == args.len(),
            forall|j: int| 0 <= j < args.len() ==> (#[trigger] views_of(args@)[j]) == args@[j]@,
        decreases args.len() - i,
    {
        if !args[i].is_number() {
            assert(!(views_of(args@)[i as int] is Number));
            return false;
        }
        i = i + 1;
    }
    true
}

fn type_names(args: &Vec<Value>) -> (r: Vec<&'static str>)
    ensures
        views(r@) == kind_names(views_of(args@)),
{
    proof {
        lemma_views_of(args@);
    }
    let mut names: Vec<&'static str> = Vec::new();
    let mut i: usize = 0;
    while i < args.len()
        invariant
            i <= args.len(),
            names.len() == i,
            forall|j: int| 0 <= j < i ==> (#[trigger] names@[j])@ == args@[j]@.kind_name(),
        decreases args.len() - i,
    {
        names.push(args[i].get_type());
        i = i + 1;
    }
    assert(views(names@) =~= kind_names(views_of(args@)));
    names
}

fn invalid_sum_argument(args: &Vec<Value>) -> (e: ExecuteError)
    ensures
        e@ == invalid_argument(sum_expected(), views_of(args@)),
{
    let expected: Vec<&'static str> = vec!["Number", "Number[]"];
    assert(views(expected@) =~= sum_expected());
    ExecuteError::function_invalid_argument(expected, type_names(args))
}

fn sum_values(items: &Vec<Value>, args: &Vec<Value>) -> (r: Result<Value, ExecuteError>)
    ensures
        result_view(r) == sum_items(views_of(items@), views_of(args@)),
{
    let mut sum = Value::Number(Rational::from_integer(0));
    let mut i: usize = 0;
    assert(items@.take(0) =~= Seq::<Value>::empty());
    while i < items.len()
        invariant
            i <= items.len(),
            sum_items(views_of(items@.take(i as int)), views_of(args@)) == Ok::<
                ValueView,
                ErrorView,
            >(sum@),
        decreases items.len() - i,
    {
        proof {
            lemma_views_of_take(items@, i as int);
            assert(items@.take(items.len() as int) =~= items@);
        }
        let item = &items[i];
        if !item.is_number() {
            let e = invalid_sum_argument(args);
            proof {
                lemma_views_of(items@);
                lemma_take_views(items@, i + 1);
                lemma_sum_stops(views_of(items@), i + 1, views_of(args@));
            }
            return Err(e);
        }
        match sum.add(item.clone()) {
            Ok(v) => {
                sum = v;
            },
            Err(e) => {
                proof {
                    lemma_views_of(items@);
                    lemma_take_views(items@, i + 1);
                    lemma_sum_stops(views_of(items@), i + 1, views_of(args@));
                }
                return Err(e);
            },
        }
        i = i + 1;
    }
    assert(items@.take(items.len() as int) =~= items@);
    Ok(sum)
}

/// The views of a prefix are the prefix of the views.
pub proof fn lemma_take_views(items: Seq<Value>, k: int)
    requires
        0 <= k <= items.len(),
    ensures
        views_of(items.take(k)) == views_of(items).take(k),
{
    lemma_views_of(items);
    lemma_views_of(items.take(k));
    assert(views_of(items.take(k)) =~= views_of(items).take(k));
}

/// A sum that failed on a prefix fails in the same way on the whole.
pub proof fn lemma_sum_stops(items: Seq<ValueView>, k: int, args: Seq<ValueView>)
    requires
        0 <= k <= items.len(),
        sum_items(items.take(k), args) is Err,
    ensures
        sum_items(items, args) == sum_items(items.take(k), args),
    decreases items.len() - k,
{
    if k < items.len() {
        assert(items.take(k + 1).drop_last() =~= items.take(k));
        lemma_sum_stops(items, k + 1, args);
    } else {
        assert(items.take(k) =~= items);
    }
}

fn count_result(n: usize) -> (r: Result<Value, ExecuteError>)
    ensures
        result_view(r) == counted(n as nat),
{
    if n as u64 > 0x7fff_ffff_ffff_ffff {
        Err(ExecuteError::number_conversion_error())
    } else {
        Ok(Value::Number(Rational::from_integer(n as i64)))
    }
}

impl RuntimeFunction for SumFunction {
    fn run(&self, args: &Vec<Value>) -> (r: Result<Value, ExecuteError>)
        ensures
            result_view(r) == sum_of(views_of(args@)),
    {
        if all_are_numbers(args) {
            return sum_values(args, args);
        }
        proof {
            lemma_views_of(args@);
        }
        match &args[0] {
            Value::Array(a) => sum_values(a, args),
            _ => Err(invalid_sum_argument(args)),
        }
    }
}

impl RuntimeFunction for CountFunction {
    fn run(&self, args: &Vec<Value>) -> (r: Result<Value, ExecuteError>)
        ensures
            result_view(r) == count_of(views_of(args@)),
    {
        proof {
            lemma_views_of(args@);
        }
        if all_are_numbers(args) {
            return count_result(args.len());
        }
        match &args[0] {
            Value::Array(a) => {
                proof {
                    lemma_views_of(a@);
                }
                count_result(a.len())
            },
            _ => {
                let expected: Vec<&'static str> = vec!["Array"];
                assert(views(expected@) =~= count_expected());
                Err(ExecuteError::function_invalid_argument(expected, type_names(args)))
            },
        }
    }
}

/// Calls the builtin of the given name.
pub fn run_runtime_function(name: &String, args: &Vec<Value>) -> (r: Result<Value, ExecuteError>)
    ensures
        result_view(r) == builtin(name@, views_of(args@)),
{
    if same_text(name.as_str(), "sum") {
        SumFunction.run(args)
    } else if same_text(name.as_str(), "count") {
        CountFunction.run(args)
    } else {
        Err(ExecuteError::function_not_found(name))
    }
}

} // verus!
