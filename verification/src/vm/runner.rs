//! The interpreter: one instruction at a time over a runtime context.

use vstd::prelude::*;
use vstd::string::StringExecFns;
use crate::share::operator::{program_view, OperatorCode, OperatorView};
use crate::share::rational::Rational;
use crate::share::text::{int_literal, parse_i64};
use crate::vm::context::RuntimeContext;
use crate::vm::error::{ErrorView, ExecuteError, ExecuteErrorType};
use crate::vm::function::{builtin, lemma_builtin_error, lemma_take_views, run_runtime_function};
use crate::vm::value::{
    lemma_views_of, lemma_views_of_push, lemma_views_of_take, result_view, views_of, Value,
    ValueView,
};

verus! {

/// Runs compiled formulas.
pub struct Runner;

/// Something that can be executed on a runtime context.
pub trait Runnable {
    fn run(&self, context: &mut RuntimeContext) -> Result<(), ExecuteError>;
}

/// The error of an instruction that finds too few values on the stack.
pub open spec fn underflow() -> ErrorView {
    ErrorView::with_text(ExecuteErrorType::UnknownError, "stack underflow"@)
}

/// The error of a projection or a filter on what is no array of objects.
pub open spec fn not_object_array(field: Seq<char>) -> ErrorView {
    ErrorView::with_text(ExecuteErrorType::DotInputNotAObjectArray, field)
}

/// The error of a variable that is not bound.
pub open spec fn not_found(name: Seq<char>) -> ErrorView {
    ErrorView::with_text(ExecuteErrorType::IdentifierNotFound, "identifier not found: "@ + name)
}

/// The result of a binary instruction on its operands.
pub open spec fn binary(op: OperatorView, lhs: ValueView, rhs: ValueView) -> Result<
    ValueView,
    ErrorView,
> {
    match op {
        OperatorView::Add => lhs.add(rhs),
        OperatorView::Subtract => lhs.sub(rhs),
        OperatorView::Multiply => lhs.mul(rhs),
        OperatorView::Divide => lhs.div(rhs),
        OperatorView::Modulo => lhs.modulo(rhs),
        _ => lhs.pow(rhs),
    }
}

/// The stack with a result on top, or the error in its place.
pub open spec fn pushed(stack: Seq<ValueView>, r: Result<ValueView, ErrorView>) -> Result<
    Seq<ValueView>,
    ErrorView,
> {
    match r {
        Ok(v) => Ok(stack.push(v)),
        Err(e) => Err(e),
    }
}

/// The stack with an array on top, or the error in its place.
pub open spec fn pushed_array(stack: Seq<ValueView>, r: Result<Seq<ValueView>, ErrorView>) -> Result<
    Seq<ValueView>,
    ErrorView,
> {
    match r {
        Ok(items) => Ok(stack.push(ValueView::Array(items))),
        Err(e) => Err(e),
    }
}

/// The field `field` of each object of `items`, `Null` where an object lacks
/// it. The first item that is no object is an error.
pub open spec fn projected(items: Seq<ValueView>, field: Seq<char>) -> Result<
    Seq<ValueView>,
    ErrorView,
>
    decreases items.len(),
{
    if items.len() == 0 {
        Ok(Seq::empty())
    } else {
        match projected(items.drop_last(), field) {
            Err(e) => Err(e),
            Ok(done) => match items.last() {
                ValueView::Object(m) => Ok(
                    done.push(
                        if m.contains_key(field) {
                            m[field]
                        } else {
                            ValueView::Null
                        },
                    ),
                ),
                _ => Err(not_object_array(field)),
            },
        }
    }
}

/// The value that the literal of a filter stands for: a number where the
/// text is an integer, else the text itself.
pub open spec fn filter_literal(text: Seq<char>) -> ValueView {
    match int_literal(text) {
        Some(v) => ValueView::Number(Rational::of(v, 1)),
        None => ValueView::String(text),
    }
}

/// The objects of `items` whose field `field` has a value `v` with
/// `v op rhs`, in their order. An object without the field is left out. The
/// first item that is no object, and the first comparison that fails, is an
/// error.
pub open spec fn filtered(items: Seq<ValueView>, field: Seq<char>, op: Seq<char>, rhs: ValueView) -> Result<
    Seq<ValueView>,
    ErrorView,
>
    decreases items.len(),
{
    if items.len() == 0 {
        Ok(Seq::empty())
    } else {
        match filtered(items.drop_last(), field, op, rhs) {
            Err(e) => Err(e),
            Ok(kept) => match items.last() {
                ValueView::Object(m) => if m.contains_key(field) {
                    match m[field].compare(op, rhs) {
                        Ok(true) => Ok(kept.push(items.last())),
                        Ok(false) => Ok(kept),
                        Err(e) => Err(e),
                    }
                } else {
                    Ok(kept)
                },
                _ => Err(not_object_array(field)),
            },
        }
    }
}

/// The top `argc` values of the stack, the topmost first.
pub open spec fn arguments(stack: Seq<ValueView>, argc: nat) -> Seq<ValueView> {
    Seq::new(argc, |i: int| stack[stack.len() - 1 - i])
}

/// The stack after one instruction, or the error that the instruction ends in.
pub open spec fn step(op: OperatorView, heap: Map<Seq<char>, ValueView>, stack: Seq<ValueView>) -> Result<
    Seq<ValueView>,
    ErrorView,
> {
    match op {
        OperatorView::PushNumber(n) => Ok(stack.push(ValueView::Number(n))),
        OperatorView::PushString(s) => Ok(stack.push(ValueView::String(s))),
        OperatorView::LoadIdentifier(name) => if heap.contains_key(name) {
            Ok(stack.push(heap[name]))
        } else {
            Err(not_found(name))
        },
        OperatorView::Factorial => if stack.len() < 1 {
            Err(underflow())
        } else {
            pushed(stack.drop_last(), stack.last().factorial())
        },
        OperatorView::Call(argc) => if stack.len() < argc + 1 {
            Err(underflow())
        } else {
            let base = stack.len() - argc - 1;
            match stack[base] {
                ValueView::Function(name) => pushed(
                    stack.take(base),
                    builtin(name, arguments(stack, argc as nat)),
                ),
                _ => Err(ErrorView::plain(ExecuteErrorType::NotAFunction)),
            }
        },
        OperatorView::LoadPropertyAccess(field) => if stack.len() < 1 {
            Err(underflow())
        } else {
            match stack.last() {
                ValueView::Array(items) => pushed_array(stack.drop_last(), projected(items, field)),
                _ => Err(not_object_array(field)),
            }
        },
        OperatorView::FilterExpression(field, relation, literal) => if stack.len() < 1 {
            Err(underflow())
        } else {
            match stack.last() {
                ValueView::Array(items) => pushed_array(
                    stack.drop_last(),
                    filtered(items, field, relation, filter_literal(literal)),
                ),
                _ => Err(not_object_array(field)),
            }
        },
        _ => if stack.len() < 2 {
            Err(underflow())
        } else {
            pushed(
                stack.take(stack.len() - 2),
                binary(op, stack[stack.len() - 2], stack[stack.len() - 1]),
            )
        },
    }
}

/// The stack after the instructions of `ops` in turn, or the first error.
pub open spec fn run_all(ops: Seq<OperatorView>, heap: Map<Seq<char>, ValueView>, stack: Seq<ValueView>) -> Result<
    Seq<ValueView>,
    ErrorView,
>
    decreases ops.len(),
{
    if ops.len() == 0 {
        Ok(stack)
    } else {
        match run_all(ops.drop_last(), heap, stack) {
            Err(e) => Err(e),
            Ok(s) => step(ops.last(), heap, s),
        }
    }
}

/// The error of a program that does not leave exactly one value.
pub open spec fn count_mismatch(n: nat) -> ErrorView {
    ErrorView::with_text(
        ExecuteErrorType::ResultCountMismatchError,
        ExecuteError::result_count_text(n),
    )
}

/// The result of a program: the one value that it leaves on a stack that was
/// empty when it started.
pub open spec fn run_spec(ops: Seq<OperatorView>, heap: Map<Seq<char>, ValueView>, stack: Seq<ValueView>) -> Result<
    ValueView,
    ErrorView,
> {
    if stack.len() > 0 {
        Err(ErrorView::plain(ExecuteErrorType::StackNotEmpty))
    } else {
        match run_all(ops, heap, stack) {
            Err(e) => Err(e),
            Ok(s) => if s.len() == 1 {
                Ok(s[0])
            } else {
                Err(count_mismatch(s.len()))
            },
        }
    }
}

/// A program that succeeds started on an empty stack and left exactly one
/// value on it.
pub proof fn lemma_run_leaves_one(ops: Seq<OperatorView>, heap: Map<Seq<char>, ValueView>, stack: Seq<ValueView>)
    requires
        run_spec(ops, heap, stack) is Ok,
    ensures
        stack.len() == 0,
        run_all(ops, heap, stack) matches Ok(s) && s.len() == 1 && run_spec(ops, heap, stack)
            == Ok::<ValueView, ErrorView>(s[0]),
{
}

/// Every variable that the program loads is bound.
pub open spec fn finds_all(ops: Seq<OperatorView>, heap: Map<Seq<char>, ValueView>) -> bool {
    forall|i: int|
        0 <= i < ops.len() && (#[trigger] ops[i]) is LoadIdentifier ==> heap.contains_key(
            ops[i]->LoadIdentifier_0,
        )
}

/// A projection does not fail for want of a variable.
pub proof fn lemma_projected_error(items: Seq<ValueView>, field: Seq<char>)
    ensures
        projected(items, field) matches Err(e) ==> e.type_ != ExecuteErrorType::IdentifierNotFound,
    decreases items.len(),
{
    if items.len() > 0 {
        lemma_projected_error(items.drop_last(), field);
    }
}

/// A filter does not fail for want of a variable.
pub proof fn lemma_filtered_error(items: Seq<ValueView>, field: Seq<char>, op: Seq<char>, rhs: ValueView)
    ensures
        filtered(items, field, op, rhs) matches Err(e) ==> e.type_
            != ExecuteErrorType::IdentifierNotFound,
    decreases items.len(),
{
    if items.len() > 0 {
        lemma_filtered_error(items.drop_last(), field, op, rhs);
    }
}

/// An instruction fails for want of a variable only where it loads one that
/// is not bound.
pub proof fn lemma_step_error(op: OperatorView, heap: Map<Seq<char>, ValueView>, stack: Seq<ValueView>)
    requires
        op matches OperatorView::LoadIdentifier(name) ==> heap.contains_key(name),
    ensures
        step(op, heap, stack) matches Err(e) ==> e.type_ != ExecuteErrorType::IdentifierNotFound,
{
    match op {
        OperatorView::Call(argc) => {
            if stack.len() >= argc + 1 {
                match stack[stack.len() - argc - 1] {
                    ValueView::Function(name) => {
                        lemma_builtin_error(name, arguments(stack, argc as nat));
                    },
                    _ => {},
                }
            }
        },
        OperatorView::LoadPropertyAccess(field) => {
            if stack.len() >= 1 {
                match stack.last() {
                    ValueView::Array(items) => {
                        lemma_projected_error(items, field);
                    },
                    _ => {},
                }
            }
        },
        OperatorView::FilterExpression(field, relation, literal) => {
            if stack.len() >= 1 {
                match stack.last() {
                    ValueView::Array(items) => {
                        lemma_filtered_error(items, field, relation, filter_literal(literal));
                    },
                    _ => {},
                }
            }
        },
        _ => {},
    }
}

/// A program whose variables are all bound does not fail for want of one.
pub proof fn lemma_run_finds_variables(ops: Seq<OperatorView>, heap: Map<Seq<char>, ValueView>, stack: Seq<ValueView>)
    requires
        finds_all(ops, heap),
    ensures
        run_all(ops, heap, stack) matches Err(e) ==> e.type_ != ExecuteErrorType::IdentifierNotFound,
        run_spec(ops, heap, stack) matches Err(e) ==> e.type_ != ExecuteErrorType::IdentifierNotFound,
    decreases ops.len(),
{
    if ops.len() > 0 {
        let before = ops.drop_last();
        assert forall|i: int| 0 <= i < before.len() && (#[trigger] before[i]) is LoadIdentifier
            implies heap.contains_key(before[i]->LoadIdentifier_0) by {
            assert(before[i] == ops[i]);
        }
        lemma_run_finds_variables(before, heap, stack);
        assert(ops.last() == ops[ops.len() - 1]);
        match run_all(before, heap, stack) {
            Ok(s) => {
                lemma_step_error(ops.last(), heap, s);
            },
            Err(_) => {},
        }
    }
}

/// A program that failed on a prefix fails in the same way as a whole.
pub proof fn lemma_run_stops(ops: Seq<OperatorView>, k: int, heap: Map<Seq<char>, ValueView>, stack: Seq<ValueView>)
    requires
        0 <= k <= ops.len(),
        run_all(ops.take(k), heap, stack) is Err,
    ensures
        run_all(ops, heap, stack) == run_all(ops.take(k), heap, stack),
    decreases ops.len() - k,
{
    if k < ops.len() {
        assert(ops.take(k + 1).drop_last() =~= ops.take(k));
        lemma_run_stops(ops, k + 1, heap, stack);
    } else {
        assert(ops.take(k) =~= ops);
    }
}

/// A projection that failed on a prefix fails in the same way on the whole.
pub proof fn lemma_projected_stops(items: Seq<ValueView>, k: int, field: Seq<char>)
    requires
        0 <= k <= items.len(),
        projected(items.take(k), field) is Err,
    ensures
        projected(items, field) == projected(items.take(k), field),
    decreases items.len() - k,
{
    if k < items.len() {
        assert(items.take(k + 1).drop_last() =~= items.take(k));
        lemma_projected_stops(items, k + 1, field);
    } else {
        assert(items.take(k) =~= items);
    }
}

/// A filter that failed on a prefix fails in the same way on the whole.
pub proof fn lemma_filtered_stops(items: Seq<ValueView>, k: int, field: Seq<char>, op: Seq<char>, rhs: ValueView)
    requires
        0 <= k <= items.len(),
        filtered(items.take(k), field, op, rhs) is Err,
    ensures
        filtered(items, field, op, rhs) == filtered(items.take(k), field, op, rhs),
    decreases items.len() - k,
{
    if k < items.len() {
        assert(items.take(k + 1).drop_last() =~= items.take(k));
        lemma_filtered_stops(items, k + 1, field, op, rhs);
    } else {
        assert(items.take(k) =~= items);
    }
}

fn underflow_error() -> (e: ExecuteError)
    ensures
        e@ == underflow(),
{
    ExecuteError::unknown().with_message(String::from_str("stack underflow"))
}

fn push_result(ctx: &mut RuntimeContext, r: Result<Value, ExecuteError>) -> (res: Result<
    (),
    ExecuteError,
>)
    ensures
        final(ctx).variables() == old(ctx).variables(),
        match pushed(old(ctx).stack(), result_view(r)) {
            Ok(s) => res is Ok && final(ctx).stack() == s,
            Err(e) => res matches Err(x) && x@ == e,
        },
{
    match r {
        Ok(v) => {
            ctx.push(v);
            Ok(())
        },
        Err(e) => Err(e),
    }
}

fn project(ctx: &mut RuntimeContext, field: &String) -> (res: Result<(), ExecuteError>)
    ensures
        final(ctx).variables() == old(ctx).variables(),
        match step(
            OperatorView::LoadPropertyAccess(field@),
            old(ctx).variables(),
            old(ctx).stack(),
        ) {
            Ok(s) => res is Ok && final(ctx).stack() == s,
            Err(e) => res matches Err(x) && x@ == e,
        },
{
    match ctx.pop() {
        None => Err(underflow_error()),
        Some(Value::Array(arr)) => {
            let mut result: Vec<Value> = Vec::new();
            let mut i: usize = 0;
            assert(arr@.take(0) =~= Seq::<Value>::empty());
            while i < arr.len()
                invariant
                    i <= arr.len(),
                    ctx.variables() == old(ctx).variables(),
                    old(ctx).stack().len() > 0,
                    old(ctx).stack().last() == ValueView::Array(views_of(arr@)),
                    projected(views_of(arr@.take(i as int)), field@) == Ok::<
                        Seq<ValueView>,
                        ErrorView,
                    >(views_of(result@)),
                decreases arr.len() - i,
            {
                proof {
                    lemma_views_of_take(arr@, i as int);
                    lemma_views_of(arr@);
                    lemma_take_views(arr@, i + 1);
                }
                match &arr[i] {
                    Value::Object(obj) => {
                        let item = match obj.get(field.as_str()) {
                            Some(v) => v.clone(),
                            None => Value::Null,
                        };
                        proof {
                            lemma_views_of_push(result@, item);
                        }
                        result.push(item);
                    },
                    _ => {
                        proof {
                            lemma_projected_stops(views_of(arr@), i + 1, field@);
                        }
                        return Err(ExecuteError::dot_input_not_object_array(field));
                    },
                }
                i = i + 1;
            }
            assert(arr@.take(arr.len() as int) =~= arr@);
            ctx.push(Value::Array(result));
            Ok(())
        },
        Some(_) => Err(ExecuteError::dot_input_not_object_array(field)),
    }
}

fn filter(ctx: &mut RuntimeContext, field: &String, op: &String, literal: &String) -> (res: Result<
    (),
    ExecuteError,
>)
    ensures
        final(ctx).variables() == old(ctx).variables(),
        match step(
            OperatorView::FilterExpression(field@, op@, literal@),
            old(ctx).variables(),
            old(ctx).stack(),
        ) {
            Ok(s) => res is Ok && final(ctx).stack() == s,
            Err(e) => res matches Err(x) && x@ == e,
        },
{
    match ctx.pop() {
        None => Err(underflow_error()),
        Some(Value::Array(arr)) => {
            let rhs = match parse_i64(literal.as_str()) {
                Some(v) => Value::Number(Rational::from_integer(v)),
                None => Value::String(literal.clone()),
            };
            assert(rhs@ == filter_literal(literal@));
            let mut result: Vec<Value> = Vec::new();
            let mut i: usize = 0;
            assert(arr@.take(0) =~= Seq::<Value>::empty());
            while i < arr.len()
                invariant
                    i <= arr.len(),
                    ctx.variables() == old(ctx).variables(),
                    old(ctx).stack().len() > 0,
                    old(ctx).stack().last() == ValueView::Array(views_of(arr@)),
                    rhs@ == filter_literal(literal@),
                    filtered(views_of(arr@.take(i as int)), field@, op@, rhs@) == Ok::<
                        Seq<ValueView>,
                        ErrorView,
                    >(views_of(result@)),
                decreases arr.len() - i,
            {
                proof {
                    lemma_views_of_take(arr@, i as int);
                    lemma_views_of(arr@);
                    lemma_take_views(arr@, i + 1);
                }
                match &arr[i] {
                    Value::Object(obj) => {
                        match obj.get(field.as_str()) {
                            Some(val) => {
                                match val.compare(op, &rhs) {
                                    Ok(keep) => {
                                        if keep {
                                            let item = arr[i].clone();
                                            proof {
                                                lemma_views_of_push(result@, item);
                                            }
                                            result.push(item);
                                        }
                                    },
                                    Err(e) => {
                                        proof {
                                            lemma_filtered_stops(
                                                views_of(arr@),
                                                i + 1,
                                                field@,
                                                op@,
                                                rhs@,
                                            );
                                        }
                                        return Err(e);
                                    },
                                }
                            },
                            None => {},
                        }
                    },
                    _ => {
                        proof {
                            lemma_filtered_stops(views_of(arr@), i + 1, field@, op@, rhs@);
                        }
                        return Err(ExecuteError::dot_input_not_object_array(field));
                    },
                }
                i = i + 1;
            }
            assert(arr@.take(arr.len() as int) =~= arr@);
            ctx.push(Value::Array(result));
            Ok(())
        },
        Some(_) => Err(ExecuteError::dot_input_not_object_array(field)),
    }
}

fn call(ctx: &mut RuntimeContext, argc: u8) -> (res: Result<(), ExecuteError>)
    ensures
        final(ctx).variables() == old(ctx).variables(),
        match step(OperatorView::Call(argc), old(ctx).variables(), old(ctx).stack()) {
            Ok(s) => res is Ok && final(ctx).stack() == s,
            Err(e) => res matches Err(x) && x@ == e,
        },
{
    proof {
        lemma_views_of(ctx.value_stack@);
    }
    let depth = ctx.value_stack.len();
    if depth < argc as usize + 1 {
        return Err(underflow_error());
    }
    let ghost before = ctx.stack();
    let mut args: Vec<Value> = Vec::new();
    let mut i: u8 = 0;
    while i < argc
        invariant
            i <= argc,
            before.len() == depth,
            depth >= argc + 1,
            before == old(ctx).stack(),
            ctx.variables() == old(ctx).variables(),
            ctx.stack() == before.take(depth - i),
            args.len() == i,
            forall|k: int| 0 <= k < i ==> (#[trigger] args@[k])@ == before[depth - 1 - k],
        decreases argc - i,
    {
        match ctx.pop() {
            Some(v) => {
                assert(before.take(depth - i).drop_last() =~= before.take(depth - i - 1));
                args.push(v);
            },
            None => {
                return Err(underflow_error());
            },
        }
        i = i + 1;
    }
    proof {
        lemma_views_of(args@);
        assert(views_of(args@) =~= arguments(before, argc as nat));
    }
    match ctx.pop() {
        Some(Value::Function(name)) => {
            assert(before.take(depth - argc).drop_last() =~= before.take(depth - argc - 1));
            let result = run_runtime_function(&name, &args);
            push_result(ctx, result)
        },
        Some(_) => Err(ExecuteError::not_a_function()),
        None => Err(underflow_error()),
    }
}

fn pop_pair(ctx: &mut RuntimeContext) -> (r: Option<(Value, Value)>)
    ensures
        final(ctx).variables() == old(ctx).variables(),
        match r {
            Some((lhs, rhs)) => {
                let n = old(ctx).stack().len();
                &&& n >= 2
                &&& lhs@ == old(ctx).stack()[n - 2]
                &&& rhs@ == old(ctx).stack()[n - 1]
                &&& final(ctx).stack() == old(ctx).stack().take(n - 2)
            },
            None => old(ctx).stack().len() < 2,
        },
{
    let ghost before = ctx.stack();
    match ctx.pop() {
        None => None,
        Some(rhs) => match ctx.pop() {
            None => None,
            Some(lhs) => {
                assert(before.drop_last().drop_last() =~= before.take(before.len() - 2));
                Some((lhs, rhs))
            },
        },
    }
}

impl OperatorCode {
    /// Executes the instruction; after an error the stack is in no stated
    /// condition.
    fn execute(&self, ctx: &mut RuntimeContext) -> (res: Result<(), ExecuteError>)
        ensures
            final(ctx).variables() == old(ctx).variables(),
            match step(self@, old(ctx).variables(), old(ctx).stack()) {
                Ok(s) => res is Ok && final(ctx).stack() == s,
                Err(e) => res matches Err(x) && x@ == e,
            },
    {
        match self {
            OperatorCode::PushNumber(val) => {
                ctx.push(Value::Number(*val));
                Ok(())
            },
            OperatorCode::PushString(val) => {
                ctx.push(Value::String(val.clone()));
                Ok(())
            },
            OperatorCode::LoadIdentifier(name) => {
                let found = match ctx.get(name) {
                    Some(v) => Some(v.clone()),
                    None => None,
                };
                match found {
                    Some(v) => {
                        ctx.push(v);
                        Ok(())
                    },
                    None => Err(ExecuteError::identifier_not_found(name)),
                }
            },
            OperatorCode::Factorial => {
                match ctx.pop() {
                    None => Err(underflow_error()),
                    Some(v) => {
                        let result = v.factorial();
                        push_result(ctx, result)
                    },
                }
            },
            OperatorCode::Call(argc) => call(ctx, *argc),
            OperatorCode::LoadPropertyAccess(property) => project(ctx, property),
            OperatorCode::FilterExpression(left, op, value) => filter(ctx, left, op, value),
            _ => {
                match pop_pair(ctx) {
                    None => Err(underflow_error()),
                    Some((lhs, rhs)) => {
                        let result = match self {
                            OperatorCode::Add => lhs.add(rhs),
                            OperatorCode::Subtract => lhs.sub(rhs),
                            OperatorCode::Multiply => lhs.mul(rhs),
                            OperatorCode::Divide => lhs.div(rhs),
                            OperatorCode::Modulo => lhs.modulo(rhs),
                            _ => lhs.pow(rhs),
                        };
                        push_result(ctx, result)
                    },
                }
            },
        }
    }
}

impl Runnable for OperatorCode {
    /// Executes the instruction on the context. An error leaves the stack
    /// empty.
    fn run(&self, ctx: &mut RuntimeContext) -> (res: Result<(), ExecuteError>)
        ensures
            final(ctx).variables() == old(ctx).variables(),
            match step(self@, old(ctx).variables(), old(ctx).stack()) {
                Ok(s) => res is Ok && final(ctx).stack() == s,
                Err(e) => res matches Err(x) && x@ == e && final(ctx).stack().len() == 0,
            },
    {
        match self.execute(ctx) {
            Ok(()) => Ok(()),
            Err(e) => {
                ctx.reset_stack();
                Err(e)
            },
        }
    }
}

impl Runner {
    /// Runs a program on a context whose stack is empty, and returns the one
    /// value that it leaves. The variables are not changed, and the stack is
    /// empty again afterwards.
    pub fn run(&self, operators: Vec<OperatorCode>, context: &mut RuntimeContext) -> (r: Result<
        Value,
        ExecuteError,
    >)
        ensures
            result_view(r) == run_spec(
                program_view(operators@),
                old(context).variables(),
                old(context).stack(),
            ),
            final(context).variables() == old(context).variables(),
            old(context).stack().len() > 0 ==> final(context).stack() == old(context).stack(),
            old(context).stack().len() == 0 ==> final(context).stack().len() == 0,
    {
        proof {
            lemma_views_of(context.value_stack@);
        }
        if context.value_stack.len() > 0 {
            return Err(ExecuteError::stack_not_empty());
        }
        let ghost ops = program_view(operators@);
        let ghost heap = context.variables();
        let ghost start = context.stack();
        let mut i: usize = 0;
        assert(ops.take(0) =~= Seq::<OperatorView>::empty());
        while i < operators.len()
            invariant
                i <= operators.len(),
                ops == program_view(operators@),
                heap == context.variables(),
                heap == old(context).variables(),
                start == old(context).stack(),
                start.len() == 0,
                run_all(ops.take(i as int), heap, start) == Ok::<Seq<ValueView>, ErrorView>(
                    context.stack(),
                ),
            decreases operators.len() - i,
        {
            proof {
                assert(ops.take(i + 1).drop_last() =~= ops.take(i as int));
                assert(ops.take(i + 1).last() == operators@[i as int]@);
            }
            match operators[i].run(context) {
                Ok(()) => {},
                Err(e) => {
                    proof {
                        lemma_run_stops(ops, i + 1, heap, start);
                    }
                    return Err(e);
                },
            }
            i = i + 1;
        }
        assert(ops.take(operators.len() as int) =~= ops);
        proof {
            lemma_views_of(context.value_stack@);
        }
        let count = context.value_stack.len();
        if count == 1 {
            match context.pop() {
                Some(v) => Ok(v),
                None => Err(ExecuteError::result_count_mismatch(count)),
            }
        } else {
            context.reset_stack();
            Err(ExecuteError::result_count_mismatch(count))
        }
    }
}

} // verus!
