//! The compiler: from the syntax tree to bytecode.

use vstd::prelude::*;
use vstd::multiset::Multiset;
use vstd::seq_lib::{lemma_multiset_commutative, to_multiset_build};
use vstd::string::StringExecFns;
use crate::parse::ast::{
    arguments_view, is_comparison, is_comparison_text, statements_view,
    BinaryExpression, CallExpression,
    Expression, ExpressionKind, ExpressionStatement, FormulaBody, Identifier, NumberLiteral,
    PropertyAccessExpression, Range, StringLiteral, UnaryExpression,
};
use crate::share::operator::{program_view, OperatorCode, OperatorView};
use crate::share::rational::Rational;
use crate::share::text::same_text;
use crate::vm::value::{ratio_text, ratio_to_text};

verus! {

/// Something that compiles to bytecode.
pub trait ToOperator {
    fn to_operator(&self) -> Vec<OperatorCode>;
}

/// The instruction of an arithmetic operator.
pub open spec fn arithmetic(op: Seq<char>) -> Option<OperatorView> {
    if op == "+"@ {
        Some(OperatorView::Add)
    } else if op == "-"@ {
        Some(OperatorView::Subtract)
    } else if op == "*"@ {
        Some(OperatorView::Multiply)
    } else if op == "/"@ {
        Some(OperatorView::Divide)
    } else if op == "%"@ {
        Some(OperatorView::Modulo)
    } else if op == "^"@ {
        Some(OperatorView::Power)
    } else {
        None
    }
}

/// The place of an instruction among the arguments of a call: loads of
/// variables first, then filters, then projections, then calls, then the rest.
pub open spec fn rank(op: OperatorView) -> int {
    match op {
        OperatorView::LoadIdentifier(_) => 0,
        OperatorView::FilterExpression(_, _, _) => 1,
        OperatorView::LoadPropertyAccess(_) => 2,
        OperatorView::Call(_) => 3,
        _ => 4,
    }
}

/// The instructions of `ops` that have rank `r`, in their order.
pub open spec fn of_rank(ops: Seq<OperatorView>, r: int) -> Seq<OperatorView>
    decreases ops.len(),
{
    if ops.len() == 0 {
        Seq::empty()
    } else if rank(ops.last()) == r {
        of_rank(ops.drop_last(), r).push(ops.last())
    } else {
        of_rank(ops.drop_last(), r)
    }
}

/// The instructions of `ops` in the order of their ranks; instructions of
/// one rank keep their order.
pub open spec fn reordered(ops: Seq<OperatorView>) -> Seq<OperatorView> {
    of_rank(ops, 0) + of_rank(ops, 1) + of_rank(ops, 2) + of_rank(ops, 3) + of_rank(ops, 4)
}

/// The instructions of the five ranks together, as a bag.
pub open spec fn ranked_bag(ops: Seq<OperatorView>) -> Multiset<OperatorView> {
    of_rank(ops, 0).to_multiset().add(of_rank(ops, 1).to_multiset()).add(
        of_rank(ops, 2).to_multiset(),
    ).add(of_rank(ops, 3).to_multiset()).add(of_rank(ops, 4).to_multiset())
}

/// Reordering neither loses nor invents an instruction: the reordered
/// instructions are the same, each as often as before.
pub proof fn lemma_reordered_keeps(ops: Seq<OperatorView>)
    ensures
        reordered(ops).to_multiset() == ops.to_multiset(),
        reordered(ops).len() == ops.len(),
    decreases ops.len(),
{
    broadcast use vstd::multiset::group_multiset_axioms;

    let a = of_rank(ops, 0);
    let b = of_rank(ops, 1);
    let c = of_rank(ops, 2);
    let d = of_rank(ops, 3);
    let e = of_rank(ops, 4);
    lemma_multiset_commutative(a + b + c + d, e);
    lemma_multiset_commutative(a + b + c, d);
    lemma_multiset_commutative(a + b, c);
    lemma_multiset_commutative(a, b);
    assert(reordered(ops).to_multiset() =~= ranked_bag(ops));
    if ops.len() == 0 {
        vstd::seq_lib::to_multiset_len(a);
        vstd::seq_lib::to_multiset_len(b);
        vstd::seq_lib::to_multiset_len(c);
        vstd::seq_lib::to_multiset_len(d);
        vstd::seq_lib::to_multiset_len(e);
        vstd::seq_lib::to_multiset_len(ops);
        vstd::multiset::lemma_multiset_empty_len(a.to_multiset());
        vstd::multiset::lemma_multiset_empty_len(b.to_multiset());
        vstd::multiset::lemma_multiset_empty_len(c.to_multiset());
        vstd::multiset::lemma_multiset_empty_len(d.to_multiset());
        vstd::multiset::lemma_multiset_empty_len(e.to_multiset());
        vstd::multiset::lemma_multiset_empty_len(ops.to_multiset());
        assert(ranked_bag(ops) =~= ops.to_multiset());
    } else {
        let before = ops.drop_last();
        let x = ops.last();
        lemma_reordered_keeps(before);
        let a0 = of_rank(before, 0);
        let b0 = of_rank(before, 1);
        let c0 = of_rank(before, 2);
        let d0 = of_rank(before, 3);
        let e0 = of_rank(before, 4);
        lemma_multiset_commutative(a0 + b0 + c0 + d0, e0);
        lemma_multiset_commutative(a0 + b0 + c0, d0);
        lemma_multiset_commutative(a0 + b0, c0);
        lemma_multiset_commutative(a0, b0);
        assert(reordered(before).to_multiset() =~= ranked_bag(before));
        to_multiset_build(a0, x);
        to_multiset_build(b0, x);
        to_multiset_build(c0, x);
        to_multiset_build(d0, x);
        to_multiset_build(e0, x);
        to_multiset_build(before, x);
        assert(before.push(x) =~= ops);
        assert(ranked_bag(ops) =~= ranked_bag(before).insert(x));
    }
    vstd::seq_lib::to_multiset_len(reordered(ops));
    vstd::seq_lib::to_multiset_len(ops);
}

/// The code of a unary expression: a minus before its argument takes the
/// argument from zero, any other operator is the factorial.
pub open spec fn unary_code(prefix: bool, operator: Seq<char>, argument: Seq<OperatorView>) -> Seq<
    OperatorView,
> {
    if prefix && operator == "-"@ {
        seq![OperatorView::PushNumber(Rational::of(0, 1))] + argument + seq![
            OperatorView::Subtract,
        ]
    } else {
        argument.push(OperatorView::Factorial)
    }
}

/// The code of a binary expression: both operands, then the instruction. A
/// comparison, and an operator that the machine does not know, has no code.
pub open spec fn binary_code(left: Seq<OperatorView>, operator: Seq<char>, right: Seq<OperatorView>) -> Seq<
    OperatorView,
> {
    if is_comparison(operator) {
        Seq::empty()
    } else {
        match arithmetic(operator) {
            Some(code) => (left + right).push(code),
            None => Seq::empty(),
        }
    }
}

/// The code of a filter clause: one instruction where a name is compared with
/// a string, a name or a number, else none. The literal of the instruction is
/// the string as it was written, with its quotes; the other name; or the
/// number in lowest terms.
pub open spec fn filter_code(left: Expression, operator: Seq<char>, right: Expression) -> Seq<
    OperatorView,
> {
    if !is_comparison(operator) {
        Seq::empty()
    } else {
        match (left, right) {
            (Expression::Name { name, .. }, Expression::Text { raw, .. }) => seq![
                OperatorView::FilterExpression(name, operator, raw),
            ],
            (Expression::Name { name, .. }, Expression::Name { name: other, .. }) => seq![
                OperatorView::FilterExpression(name, operator, other),
            ],
            (Expression::Name { name, .. }, Expression::Number { value, .. }) => seq![
                OperatorView::FilterExpression(name, operator, ratio_text(value)),
            ],
            _ => Seq::empty(),
        }
    }
}

/// The number of arguments that a call hands over: a filter clause works
/// on the argument before it and is none of its own.
pub open spec fn passed_count(arguments: Seq<Expression>) -> nat
    decreases arguments.len(),
{
    if arguments.len() == 0 {
        0
    } else if arguments.last() is Filter {
        passed_count(arguments.drop_last())
    } else {
        passed_count(arguments.drop_last()) + 1
    }
}

/// The code of a call: the callee, the code of all arguments in the order of
/// the ranks, and the call itself with the number of arguments that it hands
/// over, as far as a byte counts.
pub open spec fn call_code(callee: Seq<OperatorView>, arguments: Seq<OperatorView>, passed: nat) -> Seq<
    OperatorView,
> {
    (callee + reordered(arguments)).push(OperatorView::Call((passed % 256) as u8))
}

/// The bytecode of an expression. A type definition has none.
pub open spec fn code(e: Expression) -> Seq<OperatorView>
    decreases e,
{
    match e {
        Expression::Number { value, .. } => seq![OperatorView::PushNumber(value)],
        Expression::Text { text, .. } => seq![OperatorView::PushString(text)],
        Expression::Name { name, .. } => seq![OperatorView::LoadIdentifier(name)],
        Expression::Unary { prefix, operator, argument, .. } => unary_code(
            prefix,
            operator.1,
            code(*argument),
        ),
        Expression::Binary { left, operator, right, .. } => binary_code(
            code(*left),
            operator.1,
            code(*right),
        ),
        Expression::Filter { left, operator, right, .. } => filter_code(
            *left,
            operator.1,
            *right,
        ),
        Expression::Call { callee, arguments, .. } => call_code(
            code(*callee),
            code_all(arguments),
            passed_count(arguments),
        ),
        Expression::Property { object, property, .. } => code(*object).push(
            OperatorView::LoadPropertyAccess(property.1),
        ),
        Expression::TypeDefine { .. } => Seq::empty(),
    }
}

/// The bytecode of several expressions, one after the other.
pub open spec fn code_all(items: Seq<Expression>) -> Seq<OperatorView>
    decreases items,
{
    if items.len() == 0 {
        Seq::empty()
    } else {
        code_all(items.drop_last()) + code(items.last())
    }
}

/// The views of a program that was put together from two.
pub proof fn lemma_program_view_add(a: Seq<OperatorCode>, b: Seq<OperatorCode>)
    ensures
        program_view(a + b) == program_view(a) + program_view(b),
{
    assert(program_view(a + b) =~= program_view(a) + program_view(b));
}

/// The views of a program with one more instruction.
pub proof fn lemma_program_view_push(a: Seq<OperatorCode>, c: OperatorCode)
    ensures
        program_view(a.push(c)) == program_view(a).push(c@),
{
    assert(program_view(a.push(c)) =~= program_view(a).push(c@));
}

fn arithmetic_code(op: &str) -> (r: Option<OperatorCode>)
    ensures
        match r {
            Some(c) => arithmetic(op@) == Some(c@),
            None => arithmetic(op@) is None,
        },
{
    if same_text(op, "+") {
        Some(OperatorCode::Add)
    } else if same_text(op, "-") {
        Some(OperatorCode::Subtract)
    } else if same_text(op, "*") {
        Some(OperatorCode::Multiply)
    } else if same_text(op, "/") {
        Some(OperatorCode::Divide)
    } else if same_text(op, "%") {
        Some(OperatorCode::Modulo)
    } else if same_text(op, "^") {
        Some(OperatorCode::Power)
    } else {
        None
    }
}

fn rank_of(op: &OperatorCode) -> (r: u8)
    ensures
        r == rank(op@),
{
    match op {
        OperatorCode::LoadIdentifier(_) => 0,
        OperatorCode::FilterExpression(_, _, _) => 1,
        OperatorCode::LoadPropertyAccess(_) => 2,
        OperatorCode::Call(_) => 3,
        _ => 4,
    }
}

/// Appends the instructions of rank `r` to `out`.
fn append_rank(out: &mut Vec<OperatorCode>, ops: &Vec<OperatorCode>, r: u8)
    ensures
        program_view(final(out)@) == program_view(old(out)@) + of_rank(
            program_view(ops@),
            r as int,
        ),
{
    let ghost all = program_view(ops@);
    let ghost start = program_view(out@);
    let mut i: usize = 0;
    assert(all.take(0) =~= Seq::<OperatorView>::empty());
    assert(start + Seq::<OperatorView>::empty() =~= start);
    while i < ops.len()
        invariant
            i <= ops.len(),
            all == program_view(ops@),
            program_view(out@) == start + of_rank(all.take(i as int), r as int),
        decreases ops.len() - i,
    {
        proof {
            assert(all.take(i + 1).drop_last() =~= all.take(i as int));
            assert(all.take(i + 1).last() == ops@[i as int]@);
        }
        if rank_of(&ops[i]) == r {
            let c = ops[i].clone();
            proof {
                lemma_program_view_push(out@, c);
                assert(start + of_rank(all.take(i as int), r as int).push(c@) =~= (start + of_rank(
                    all.take(i as int),
                    r as int,
                )).push(c@));
            }
            out.push(c);
        }
        i = i + 1;
    }
    assert(all.take(ops.len() as int) =~= all);
}

impl UnaryExpression {
    fn compile(&self) -> (r: Vec<OperatorCode>)
        ensures
            program_view(r@) == unary_code(self.prefix, self.operator.1@, code((*self.argument.1)@)),
        decreases self,
    {
        let mut result: Vec<OperatorCode> = Vec::new();
        if self.prefix && same_text(self.operator.1.as_str(), "-") {
            result.push(OperatorCode::PushNumber(Rational::from_integer(0)));
            let mut argument = self.argument.1.compile();
            proof {
                lemma_program_view_add(result@, argument@);
                lemma_program_view_push(result@ + argument@, OperatorCode::Subtract);
                assert(program_view(result@) =~= seq![
                    OperatorView::PushNumber(Rational::of(0, 1)),
                ]);
            }
            result.append(&mut argument);
            result.push(OperatorCode::Subtract);
            assert(program_view(result@) =~= unary_code(
                self.prefix,
                self.operator.1@,
                code((*self.argument.1)@),
            ));
            result
        } else {
            let mut result = self.argument.1.compile();
            proof {
                lemma_program_view_push(result@, OperatorCode::Factorial);
            }
            result.push(OperatorCode::Factorial);
            result
        }
    }
}

impl BinaryExpression {
    fn compile(&self) -> (r: Vec<OperatorCode>)
        ensures
            program_view(r@) == binary_code(
                code((*self.left.1)@),
                self.operator.1@,
                code((*self.right.1)@),
            ),
        decreases self,
    {
        let op = self.operator.1.as_str();
        if is_comparison_text(op) {
            let none: Vec<OperatorCode> = Vec::new();
            assert(program_view(none@) =~= Seq::<OperatorView>::empty());
            return none;
        }
        match arithmetic_code(op) {
            Some(instruction) => {
                let mut result = self.left.1.compile();
                let mut right = self.right.1.compile();
                proof {
                    lemma_program_view_add(result@, right@);
                    lemma_program_view_push(result@ + right@, instruction);
                }
                result.append(&mut right);
                result.push(instruction);
                result
            },
            None => {
                let none: Vec<OperatorCode> = Vec::new();
                assert(program_view(none@) =~= Seq::<OperatorView>::empty());
                none
            },
        }
    }

    /// The code of the comparison where it stands as a filter clause.
    pub fn to_filter(&self) -> (r: Vec<OperatorCode>)
        ensures
            program_view(r@) == filter_code(
                (*self.left.1)@,
                self.operator.1@,
                (*self.right.1)@,
            ),
    {
        let mut result: Vec<OperatorCode> = Vec::new();
        assert(program_view(result@) =~= Seq::<OperatorView>::empty());
        if !is_comparison_text(self.operator.1.as_str()) {
            return result;
        }
        let literal = match (&*self.left.1, &*self.right.1) {
            (ExpressionKind::IdentifierKind(_, _), ExpressionKind::StringLiteralKind(_, right)) => Some(
                right.raw.clone(),
            ),
            (ExpressionKind::IdentifierKind(_, _), ExpressionKind::IdentifierKind(_, right)) => Some(
                right.name.clone(),
            ),
            (ExpressionKind::IdentifierKind(_, _), ExpressionKind::NumberLiteralKind(_, right)) => Some(
                ratio_to_text(&right.value),
            ),
            _ => None,
        };
        match (&*self.left.1, literal) {
            (ExpressionKind::IdentifierKind(_, left), Some(text)) => {
                let instruction = OperatorCode::FilterExpression(
                    left.name.clone(),
                    self.operator.1.clone(),
                    text,
                );
                proof {
                    lemma_program_view_push(result@, instruction);
                }
                result.push(instruction);
                assert(program_view(result@) =~= filter_code(
                    (*self.left.1)@,
                    self.operator.1@,
                    (*self.right.1)@,
                ));
                result
            },
            _ => result,
        }
    }
}

impl CallExpression {
    fn compile(&self) -> (r: Vec<OperatorCode>)
        ensures
            program_view(r@) == call_code(
                code((*self.callee.1)@),
                code_all(arguments_view(self.arguments@)),
                passed_count(arguments_view(self.arguments@)),
            ),
        decreases self,
    {
        let mut result = self.callee.1.compile();
        let mut arguments: Vec<OperatorCode> = Vec::new();
        let mut passed: usize = 0;
        let mut i: usize = 0;
        assert(self.arguments@.take(0) =~= Seq::<(Range, Box<ExpressionKind>)>::empty());
        assert(program_view(arguments@) =~= Seq::<OperatorView>::empty());
        while i < self.arguments.len()
            invariant
                i <= self.arguments.len(),
                passed <= i,
                passed == passed_count(arguments_view(self.arguments@.take(i as int))),
                program_view(arguments@) == code_all(
                    arguments_view(self.arguments@.take(i as int)),
                ),
            decreases self.arguments.len() - i,
        {
            proof {
                broadcast use vstd::std_specs::vec::group_vec_axioms;

                let longer = self.arguments@.take(i + 1);
                assert(longer.drop_last() =~= self.arguments@.take(i as int));
                assert(longer.last() == self.arguments@[i as int]);
                assert(arguments_view(longer) == arguments_view(longer.drop_last()).push(
                    (*longer.last().1).view(),
                ));
                assert(arguments_view(longer).drop_last() =~= arguments_view(
                    self.arguments@.take(i as int),
                ));
                assert(decreases_to!(self.arguments => self.arguments[i as int]));
            }
            let mut next = self.arguments[i].1.compile();
            proof {
                lemma_program_view_add(arguments@, next@);
            }
            arguments.append(&mut next);
            match &*self.arguments[i].1 {
                ExpressionKind::FilterExpressionKind(_, _) => {},
                _ => {
                    passed = passed + 1;
                },
            }
            i = i + 1;
        }
        assert(self.arguments@.take(self.arguments.len() as int) =~= self.arguments@);
        let ghost callee_code = program_view(result@);
        let ghost all = program_view(arguments@);
        append_rank(&mut result, &arguments, 0);
        append_rank(&mut result, &arguments, 1);
        append_rank(&mut result, &arguments, 2);
        append_rank(&mut result, &arguments, 3);
        append_rank(&mut result, &arguments, 4);
        assert(program_view(result@) =~= callee_code + reordered(all));
        let instruction = OperatorCode::Call((passed % 256) as u8);
        proof {
            lemma_program_view_push(result@, instruction);
        }
        result.push(instruction);
        result
    }
}

impl PropertyAccessExpression {
    fn compile(&self) -> (r: Vec<OperatorCode>)
        ensures
            program_view(r@) == code((*self.object.1)@).push(
                OperatorView::LoadPropertyAccess(self.property.1.name@),
            ),
        decreases self,
    {
        let mut result = self.object.1.compile();
        let instruction = OperatorCode::LoadPropertyAccess(self.property.1.name.clone());
        proof {
            lemma_program_view_push(result@, instruction);
        }
        result.push(instruction);
        result
    }
}

impl ExpressionKind {
    fn compile(&self) -> (r: Vec<OperatorCode>)
        ensures
            program_view(r@) == code(self@),
        decreases self,
    {
        match self {
            ExpressionKind::UnaryExpressionKind(_, unary) => unary.compile(),
            ExpressionKind::BinaryExpressionKind(_, binary) => binary.compile(),
            ExpressionKind::FilterExpressionKind(_, binary) => binary.to_filter(),
            ExpressionKind::CallExpressionKind(_, call) => call.compile(),
            ExpressionKind::PropertyAccessExpressionKind(_, dot) => dot.compile(),
            ExpressionKind::StringLiteralKind(_, literal) => literal.to_operator(),
            ExpressionKind::NumberLiteralKind(_, literal) => literal.to_operator(),
            ExpressionKind::IdentifierKind(_, identifier) => identifier.to_operator(),
            ExpressionKind::TypeDefineKind(_, _) => {
                let none: Vec<OperatorCode> = Vec::new();
                assert(program_view(none@) =~= Seq::<OperatorView>::empty());
                none
            },
        }
    }
}

impl ToOperator for NumberLiteral {
    fn to_operator(&self) -> (r: Vec<OperatorCode>)
        ensures
            program_view(r@) == seq![OperatorView::PushNumber(self.value)],
    {
        let r = vec![OperatorCode::PushNumber(self.value)];
        assert(program_view(r@) =~= seq![OperatorView::PushNumber(self.value)]);
        r
    }
}

impl ToOperator for Identifier {
    fn to_operator(&self) -> (r: Vec<OperatorCode>)
        ensures
            program_view(r@) == seq![OperatorView::LoadIdentifier(self.name@)],
    {
        let r = vec![OperatorCode::LoadIdentifier(self.name.clone())];
        assert(program_view(r@) =~= seq![OperatorView::LoadIdentifier(self.name@)]);
        r
    }
}

impl ToOperator for StringLiteral {
    fn to_operator(&self) -> (r: Vec<OperatorCode>)
        ensures
            program_view(r@) == seq![OperatorView::PushString(self.value@)],
    {
        let r = vec![OperatorCode::PushString(self.value.clone())];
        assert(program_view(r@) =~= seq![OperatorView::PushString(self.value@)]);
        r
    }
}

impl ToOperator for UnaryExpression {
    fn to_operator(&self) -> (r: Vec<OperatorCode>)
        ensures
            program_view(r@) == unary_code(self.prefix, self.operator.1@, code((*self.argument.1)@)),
    {
        self.compile()
    }
}

impl ToOperator for BinaryExpression {
    fn to_operator(&self) -> (r: Vec<OperatorCode>)
        ensures
            program_view(r@) == binary_code(
                code((*self.left.1)@),
                self.operator.1@,
                code((*self.right.1)@),
            ),
    {
        self.compile()
    }
}

impl ToOperator for CallExpression {
    fn to_operator(&self) -> (r: Vec<OperatorCode>)
        ensures
            program_view(r@) == call_code(
                code((*self.callee.1)@),
                code_all(arguments_view(self.arguments@)),
                passed_count(arguments_view(self.arguments@)),
            ),
    {
        self.compile()
    }
}

impl ToOperator for PropertyAccessExpression {
    fn to_operator(&self) -> (r: Vec<OperatorCode>)
        ensures
            program_view(r@) == code((*self.object.1)@).push(
                OperatorView::LoadPropertyAccess(self.property.1.name@),
            ),
    {
        self.compile()
    }
}

impl ToOperator for ExpressionKind {
    fn to_operator(&self) -> (r: Vec<OperatorCode>)
        ensures
            program_view(r@) == code(self@),
    {
        self.compile()
    }
}

impl ToOperator for ExpressionStatement {
    fn to_operator(&self) -> (r: Vec<OperatorCode>)
        ensures
            program_view(r@) == code(self.expression.1@),
    {
        self.expression.1.compile()
    }
}

impl ToOperator for FormulaBody {
    /// The code of the statements, one after the other.
    fn to_operator(&self) -> (r: Vec<OperatorCode>)
        ensures
            program_view(r@) == code_all(self@),
    {
        let mut result: Vec<OperatorCode> = Vec::new();
        let mut i: usize = 0;
        assert(self@.take(0) =~= Seq::<Expression>::empty());
        assert(program_view(result@) =~= Seq::<OperatorView>::empty());
        while i < self.body.len()
            invariant
                i <= self.body.len(),
                self@.len() == self.body.len(),
                program_view(result@) == code_all(self@.take(i as int)),
            decreases self.body.len() - i,
        {
            proof {
                assert(self@.take(i + 1).drop_last() =~= self@.take(i as int));
                assert(self@.take(i + 1).last() == self.body@[i as int].1.expression.1@);
            }
            let mut next = self.body[i].1.to_operator();
            proof {
                lemma_program_view_add(result@, next@);
            }
            result.append(&mut next);
            i = i + 1;
        }
        assert(self@.take(self.body.len() as int) =~= self@);
        result
    }
}

} // verus!
