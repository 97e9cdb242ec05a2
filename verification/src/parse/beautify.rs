//! The syntax tree as indented text, one node to a line.

use vstd::prelude::*;
use vstd::string::StringExecFns;
use crate::parse::ast::{
    arguments_view, lemma_arguments_view, statements_view, BinaryExpression, CallExpression,
    Expression, ExpressionKind, ExpressionStatement, FormulaBody, Identifier, NumberLiteral,
    PropertyAccessExpression, Range, StringLiteral, UnaryExpression,
};
use crate::parse::type_ast::type_text;
use crate::share::rational::Rational;
use crate::share::text::push_int;
use crate::vm::error::joined;
use crate::vm::value::ratio_text;

verus! {

/// Something that can be shown as indented text.
pub trait Beautify {
    fn beautify(&self, level: usize) -> String;
}

/// Two blanks for each level.
pub open spec fn spaces(level: nat) -> Seq<char> {
    Seq::new(2 * level, |i: int| ' ')
}

/// `text` behind the blanks of its level.
pub open spec fn indented(level: usize, text: Seq<char>) -> Seq<char> {
    spaces(level as nat) + text
}

/// The level `by` steps further in, as far as the machine can count.
pub open spec fn deeper(level: usize, by: usize) -> usize {
    if level + by > usize::MAX {
        usize::MAX
    } else {
        (level + by) as usize
    }
}

/// The text of an expression at a level: the kind of the node, and its
/// parts below it, each two levels further in under a heading one level
/// further in.
pub open spec fn pretty(e: Expression, level: usize) -> Seq<char>
    decreases e,
{
    let head = deeper(level, 1);
    let below = deeper(level, 2);
    match e {
        Expression::Number { value, .. } => spaces(level as nat) + "NumberLiteral ("@ + ratio_text(
            value,
        ) + ")"@,
        Expression::Text { text, .. } => spaces(level as nat) + "StringLiteral ('"@ + text + "')"@,
        Expression::Name { name, .. } => spaces(level as nat) + "Identifier "@ + name,
        Expression::Unary { operator, argument, .. } => spaces(level as nat) + "UnaryExpression \n"@
            + spaces(head as nat) + "operator "@ + operator.1 + "\n"@ + spaces(head as nat)
            + "argument\n"@ + pretty(*argument, below),
        Expression::Binary { left, operator, right, .. } => pretty_binary(
            level,
            pretty(*left, below),
            operator.1,
            pretty(*right, below),
        ),
        Expression::Filter { left, operator, right, .. } => pretty_binary(
            level,
            pretty(*left, below),
            operator.1,
            pretty(*right, below),
        ),
        Expression::Call { callee, arguments, .. } => spaces(level as nat) + "CallExpression\n"@
            + spaces(head as nat) + "callee\n"@ + pretty(*callee, below) + "\n"@ + spaces(
            head as nat,
        ) + "arguments\n"@ + (if arguments.len() == 0 {
            spaces(below as nat) + "(EMPTY)"@
        } else {
            joined(pretty_all(arguments, below), "\n"@)
        }),
        Expression::Property { object, property, .. } => spaces(level as nat)
            + "PropertyAccessExpression\n"@ + spaces(head as nat) + "object\n"@ + pretty(
            *object,
            below,
        ) + "\n"@ + spaces(head as nat) + "property\n"@ + spaces(below as nat) + "Identifier "@
            + property.1,
        Expression::TypeDefine { defined, item, .. } => spaces(level as nat) + "TypeDefine "@
            + defined.1 + " is "@ + type_text(item),
    }
}

/// The text of a binary expression, from the texts of its operands.
pub open spec fn pretty_binary(level: usize, left: Seq<char>, operator: Seq<char>, right: Seq<char>) -> Seq<
    char,
> {
    binary_top(level, left) + binary_rest(level, operator, right)
}

/// The heading of a binary expression and its left operand.
pub open spec fn binary_top(level: usize, left: Seq<char>) -> Seq<char> {
    spaces(level as nat) + "BinaryExpression\n"@ + spaces(deeper(level, 1) as nat) + "left\n"@
        + left + "\n"@
}

/// The operator of a binary expression and its right operand.
pub open spec fn binary_rest(level: usize, operator: Seq<char>, right: Seq<char>) -> Seq<char> {
    spaces(deeper(level, 1) as nat) + "operator "@ + operator + "\n"@ + spaces(
        deeper(level, 1) as nat,
    ) + "right\n"@ + right
}

/// The texts of several expressions at one level.
pub open spec fn pretty_all(items: Seq<Expression>, level: usize) -> Seq<Seq<char>>
    decreases items,
{
    if items.len() == 0 {
        Seq::empty()
    } else {
        pretty_all(items.drop_last(), level).push(pretty(items.last(), level))
    }
}

/// The text of a statement.
pub open spec fn pretty_statement(e: Expression, level: usize) -> Seq<char> {
    spaces(level as nat) + "ExpressionStatement\n"@ + pretty(e, deeper(level, 1))
}

/// The texts of several statements at one level.
pub open spec fn pretty_statements(items: Seq<Expression>, level: usize) -> Seq<Seq<char>>
    decreases items.len(),
{
    if items.len() == 0 {
        Seq::empty()
    } else {
        pretty_statements(items.drop_last(), level).push(pretty_statement(items.last(), level))
    }
}

/// The text of a formula.
pub open spec fn pretty_body(statements: Seq<Expression>, level: usize) -> Seq<char> {
    "FormulaBody\n"@ + joined(pretty_statements(statements, deeper(level, 1)), "\n"@)
}

fn step_in(level: usize, by: usize) -> (r: usize)
    ensures
        r == deeper(level, by),
{
    if level > usize::MAX - by {
        usize::MAX
    } else {
        level + by
    }
}

fn push_spaces(out: &mut String, level: usize)
    ensures
        final(out)@ == old(out)@ + spaces(level as nat),
{
    let mut i: usize = 0;
    assert(out@ =~= old(out)@ + spaces(0));
    while i < level
        invariant
            i <= level,
            out@ == old(out)@ + spaces(i as nat),
        decreases level - i,
    {
        out.push(' ');
        out.push(' ');
        assert(out@ =~= old(out)@ + spaces((i + 1) as nat));
        i = i + 1;
    }
}

/// `text` behind two blanks for each level.
pub fn indent(level: usize, text: String) -> (r: String)
    ensures
        r@ == indented(level, text@),
{
    let mut out = String::new();
    push_spaces(&mut out, level);
    out.append(text.as_str());
    assert(out@ =~= indented(level, text@));
    out
}

fn push_number(out: &mut String, value: &Rational)
    ensures
        final(out)@ == old(out)@ + ratio_text(*value),
{
    push_int(out, value.numer());
    if !value.is_integer() {
        out.append("/");
        push_int(out, value.denom());
    }
    assert(final(out)@ =~= old(out)@ + ratio_text(*value));
}

impl Identifier {
    fn write(&self, out: &mut String, level: usize)
        ensures
            final(out)@ == old(out)@ + spaces(level as nat) + "Identifier "@ + self.name@,
    {
        push_spaces(out, level);
        out.append("Identifier ");
        out.append(self.name.as_str());
    }
}

impl NumberLiteral {
    fn write(&self, out: &mut String, level: usize)
        ensures
            final(out)@ == old(out)@ + spaces(level as nat) + "NumberLiteral ("@ + ratio_text(
                self.value,
            ) + ")"@,
    {
        push_spaces(out, level);
        out.append("NumberLiteral (");
        push_number(out, &self.value);
        out.append(")");
    }
}

impl StringLiteral {
    fn write(&self, out: &mut String, level: usize)
        ensures
            final(out)@ == old(out)@ + spaces(level as nat) + "StringLiteral ('"@ + self.value@
                + "')"@,
    {
        push_spaces(out, level);
        out.append("StringLiteral ('");
        out.append(self.value.as_str());
        out.append("')");
    }
}

impl UnaryExpression {
    #[verifier::rlimit(40)]
    fn write(&self, out: &mut String, level: usize)
        ensures
            final(out)@ == old(out)@ + (spaces(level as nat) + "UnaryExpression \n"@ + spaces(
                deeper(level, 1) as nat,
            ) + "operator "@ + self.operator.1@ + "\n"@ + spaces(deeper(level, 1) as nat)
                + "argument\n"@ + pretty((*self.argument.1)@, deeper(level, 2))),
        decreases self,
    {
        let head = step_in(level, 1);
        push_spaces(out, level);
        out.append("UnaryExpression \n");
        push_spaces(out, head);
        out.append("operator ");
        out.append(self.operator.1.as_str());
        out.append("\n");
        push_spaces(out, head);
        out.append("argument\n");
        self.argument.1.write(out, step_in(level, 2));
        assert(final(out)@ =~= old(out)@ + (spaces(level as nat) + "UnaryExpression \n"@ + spaces(
            deeper(level, 1) as nat,
        ) + "operator "@ + self.operator.1@ + "\n"@ + spaces(deeper(level, 1) as nat)
            + "argument\n"@ + pretty((*self.argument.1)@, deeper(level, 2))));
    }
}

impl BinaryExpression {
    #[verifier::rlimit(40)]
    fn write(&self, out: &mut String, level: usize)
        ensures
            final(out)@ == old(out)@ + pretty_binary(
                level,
                pretty((*self.left.1)@, deeper(level, 2)),
                self.operator.1@,
                pretty((*self.right.1)@, deeper(level, 2)),
            ),
        decreases self,
    {
        let head = step_in(level, 1);
        let below = step_in(level, 2);
        let ghost top = binary_top(level, pretty((*self.left.1)@, below));
        let ghost rest = binary_rest(level, self.operator.1@, pretty((*self.right.1)@, below));
        push_spaces(out, level);
        out.append("BinaryExpression\n");
        push_spaces(out, head);
        out.append("left\n");
        self.left.1.write(out, below);
        out.append("\n");
        assert(out@ =~= old(out)@ + top);
        let ghost middle = out@;
        push_spaces(out, head);
        out.append("operator ");
        out.append(self.operator.1.as_str());
        out.append("\n");
        push_spaces(out, head);
        out.append("right\n");
        self.right.1.write(out, below);
        assert(out@ =~= middle + rest);
        assert(out@ =~= old(out)@ + (top + rest));
    }
}

/// The text of the arguments of a call.
pub open spec fn pretty_arguments(arguments: Seq<Expression>, below: usize) -> Seq<char> {
    if arguments.len() == 0 {
        spaces(below as nat) + "(EMPTY)"@
    } else {
        joined(pretty_all(arguments, below), "\n"@)
    }
}

impl CallExpression {
    fn write_arguments(&self, out: &mut String, below: usize)
        ensures
            final(out)@ == old(out)@ + pretty_arguments(arguments_view(self.arguments@), below),
        decreases self, 0int,
    {
        proof {
            lemma_arguments_view(self.arguments@);
        }
        if self.arguments.len() == 0 {
            push_spaces(out, below);
            out.append("(EMPTY)");
            assert(final(out)@ =~= old(out)@ + (spaces(below as nat) + "(EMPTY)"@));
            return ;
        }
        let ghost all = arguments_view(self.arguments@);
        let mut i: usize = 0;
        assert(all.take(0) =~= Seq::<Expression>::empty());
        assert(out@ =~= old(out)@ + joined(pretty_all(all.take(0), below), "\n"@));
        while i < self.arguments.len()
            invariant
                i <= self.arguments.len(),
                all == arguments_view(self.arguments@),
                all.len() == self.arguments.len(),
                pretty_all(all.take(i as int), below).len() == i,
                out@ == old(out)@ + joined(pretty_all(all.take(i as int), below), "\n"@),
            decreases self.arguments.len() - i,
        {
            let ghost before = pretty_all(all.take(i as int), below);
            let ghost after = pretty_all(all.take(i + 1), below);
            proof {
                broadcast use vstd::std_specs::vec::group_vec_axioms;

                lemma_arguments_view(self.arguments@);
                assert(all.take(i + 1).drop_last() =~= all.take(i as int));
                assert(all.take(i + 1).last() == (*self.arguments@[i as int].1)@);
                assert(after.drop_last() =~= before);
                assert(decreases_to!(self.arguments => self.arguments[i as int]));
            }
            if i > 0 {
                out.append("\n");
            }
            self.arguments[i].1.write(out, below);
            proof {
                if i == 0 {
                    assert(joined(before, "\n"@) =~= Seq::<char>::empty());
                }
                assert(out@ =~= old(out)@ + joined(after, "\n"@));
            }
            i = i + 1;
        }
        assert(all.take(self.arguments.len() as int) =~= all);
    }

    #[verifier::rlimit(40)]
    fn write(&self, out: &mut String, level: usize)
        ensures
            final(out)@ == old(out)@ + (spaces(level as nat) + "CallExpression\n"@ + spaces(
                deeper(level, 1) as nat,
            ) + "callee\n"@ + pretty((*self.callee.1)@, deeper(level, 2)) + "\n"@ + spaces(
                deeper(level, 1) as nat,
            ) + "arguments\n"@ + pretty_arguments(
                arguments_view(self.arguments@),
                deeper(level, 2),
            )),
        decreases self, 1int,
    {
        let head = step_in(level, 1);
        let below = step_in(level, 2);
        push_spaces(out, level);
        out.append("CallExpression\n");
        push_spaces(out, head);
        out.append("callee\n");
        self.callee.1.write(out, below);
        out.append("\n");
        push_spaces(out, head);
        out.append("arguments\n");
        self.write_arguments(out, below);
        assert(final(out)@ =~= old(out)@ + (spaces(level as nat) + "CallExpression\n"@ + spaces(
            deeper(level, 1) as nat,
        ) + "callee\n"@ + pretty((*self.callee.1)@, deeper(level, 2)) + "\n"@ + spaces(
            deeper(level, 1) as nat,
        ) + "arguments\n"@ + pretty_arguments(
            arguments_view(self.arguments@),
            deeper(level, 2),
        )));
    }
}

impl PropertyAccessExpression {
    #[verifier::rlimit(40)]
    fn write(&self, out: &mut String, level: usize)
        ensures
            final(out)@ == old(out)@ + (spaces(level as nat) + "PropertyAccessExpression\n"@
                + spaces(deeper(level, 1) as nat) + "object\n"@ + pretty(
                (*self.object.1)@,
                deeper(level, 2),
            ) + "\n"@ + spaces(deeper(level, 1) as nat) + "property\n"@ + spaces(
                deeper(level, 2) as nat,
            ) + "Identifier "@ + self.property.1.name@),
        decreases self,
    {
        let head = step_in(level, 1);
        let below = step_in(level, 2);
        push_spaces(out, level);
        out.append("PropertyAccessExpression\n");
        push_spaces(out, head);
        out.append("object\n");
        self.object.1.write(out, below);
        out.append("\n");
        push_spaces(out, head);
        out.append("property\n");
        self.property.1.write(out, below);
        assert(final(out)@ =~= old(out)@ + (spaces(level as nat) + "PropertyAccessExpression\n"@
            + spaces(deeper(level, 1) as nat) + "object\n"@ + pretty(
            (*self.object.1)@,
            deeper(level, 2),
        ) + "\n"@ + spaces(deeper(level, 1) as nat) + "property\n"@ + spaces(
            deeper(level, 2) as nat,
        ) + "Identifier "@ + self.property.1.name@));
    }
}

impl ExpressionKind {
    fn write(&self, out: &mut String, level: usize)
        ensures
            final(out)@ == old(out)@ + pretty(self@, level),
        decreases self,
    {
        match self {
            ExpressionKind::UnaryExpressionKind(_, unary) => unary.write(out, level),
            ExpressionKind::BinaryExpressionKind(_, binary) => binary.write(out, level),
            ExpressionKind::FilterExpressionKind(_, binary) => binary.write(out, level),
            ExpressionKind::CallExpressionKind(_, call) => {
                proof {
                    lemma_arguments_view(call.arguments@);
                }
                call.write(out, level)
            },
            ExpressionKind::PropertyAccessExpressionKind(_, access) => access.write(out, level),
            ExpressionKind::StringLiteralKind(_, literal) => {
                literal.write(out, level);
                assert(final(out)@ =~= old(out)@ + pretty(self@, level));
            },
            ExpressionKind::NumberLiteralKind(_, literal) => {
                literal.write(out, level);
                assert(final(out)@ =~= old(out)@ + pretty(self@, level));
            },
            ExpressionKind::IdentifierKind(_, identifier) => {
                identifier.write(out, level);
                assert(final(out)@ =~= old(out)@ + pretty(self@, level));
            },
            ExpressionKind::TypeDefineKind(_, define) => {
                push_spaces(out, level);
                out.append("TypeDefine ");
                out.append(define.ident.1.name.as_str());
                out.append(" is ");
                define.type_item.1.write(out, Ghost(define.type_item.0));
                assert(final(out)@ =~= old(out)@ + pretty(self@, level));
            },
        }
    }
}

impl ExpressionStatement {
    fn write(&self, out: &mut String, level: usize)
        ensures
            final(out)@ == old(out)@ + pretty_statement(self.expression.1@, level),
    {
        push_spaces(out, level);
        out.append("ExpressionStatement\n");
        self.expression.1.write(out, step_in(level, 1));
        assert(final(out)@ =~= old(out)@ + pretty_statement(self.expression.1@, level));
    }
}

impl Beautify for Identifier {
    fn beautify(&self, level: usize) -> (r: String)
        ensures
            r@ == spaces(level as nat) + "Identifier "@ + self.name@,
    {
        let mut out = String::new();
        self.write(&mut out, level);
        assert(out@ =~= spaces(level as nat) + "Identifier "@ + self.name@);
        out
    }
}

impl Beautify for NumberLiteral {
    fn beautify(&self, level: usize) -> (r: String)
        ensures
            r@ == spaces(level as nat) + "NumberLiteral ("@ + ratio_text(self.value) + ")"@,
    {
        let mut out = String::new();
        self.write(&mut out, level);
        assert(out@ =~= spaces(level as nat) + "NumberLiteral ("@ + ratio_text(self.value) + ")"@);
        out
    }
}

impl Beautify for StringLiteral {
    fn beautify(&self, level: usize) -> (r: String)
        ensures
            r@ == spaces(level as nat) + "StringLiteral ('"@ + self.value@ + "')"@,
    {
        let mut out = String::new();
        self.write(&mut out, level);
        assert(out@ =~= spaces(level as nat) + "StringLiteral ('"@ + self.value@ + "')"@);
        out
    }
}

impl Beautify for UnaryExpression {
    fn beautify(&self, level: usize) -> (r: String)
        ensures
            r@ == spaces(level as nat) + "UnaryExpression \n"@ + spaces(deeper(level, 1) as nat)
                + "operator "@ + self.operator.1@ + "\n"@ + spaces(deeper(level, 1) as nat)
                + "argument\n"@ + pretty((*self.argument.1)@, deeper(level, 2)),
    {
        let mut out = String::new();
        self.write(&mut out, level);
        assert(out@ =~= spaces(level as nat) + "UnaryExpression \n"@ + spaces(
            deeper(level, 1) as nat,
        ) + "operator "@ + self.operator.1@ + "\n"@ + spaces(deeper(level, 1) as nat)
            + "argument\n"@ + pretty((*self.argument.1)@, deeper(level, 2)));
        out
    }
}

impl Beautify for BinaryExpression {
    fn beautify(&self, level: usize) -> (r: String)
        ensures
            r@ == pretty_binary(
                level,
                pretty((*self.left.1)@, deeper(level, 2)),
                self.operator.1@,
                pretty((*self.right.1)@, deeper(level, 2)),
            ),
    {
        let mut out = String::new();
        self.write(&mut out, level);
        assert(out@ =~= pretty_binary(
            level,
            pretty((*self.left.1)@, deeper(level, 2)),
            self.operator.1@,
            pretty((*self.right.1)@, deeper(level, 2)),
        ));
        out
    }
}

impl Beautify for CallExpression {
    fn beautify(&self, level: usize) -> (r: String)
        ensures
            r@ == spaces(level as nat) + "CallExpression\n"@ + spaces(deeper(level, 1) as nat)
                + "callee\n"@ + pretty((*self.callee.1)@, deeper(level, 2)) + "\n"@ + spaces(
                deeper(level, 1) as nat,
            ) + "arguments\n"@ + pretty_arguments(
                arguments_view(self.arguments@),
                deeper(level, 2),
            ),
    {
        let mut out = String::new();
        self.write(&mut out, level);
        assert(out@ =~= spaces(level as nat) + "CallExpression\n"@ + spaces(
            deeper(level, 1) as nat,
        ) + "callee\n"@ + pretty((*self.callee.1)@, deeper(level, 2)) + "\n"@ + spaces(
            deeper(level, 1) as nat,
        ) + "arguments\n"@ + pretty_arguments(
            arguments_view(self.arguments@),
            deeper(level, 2),
        ));
        out
    }
}

impl Beautify for PropertyAccessExpression {
    fn beautify(&self, level: usize) -> (r: String)
        ensures
            r@ == spaces(level as nat) + "PropertyAccessExpression\n"@ + spaces(
                deeper(level, 1) as nat,
            ) + "object\n"@ + pretty((*self.object.1)@, deeper(level, 2)) + "\n"@ + spaces(
                deeper(level, 1) as nat,
            ) + "property\n"@ + spaces(deeper(level, 2) as nat) + "Identifier "@
                + self.property.1.name@,
    {
        let mut out = String::new();
        self.write(&mut out, level);
        assert(out@ =~= spaces(level as nat) + "PropertyAccessExpression\n"@ + spaces(
            deeper(level, 1) as nat,
        ) + "object\n"@ + pretty((*self.object.1)@, deeper(level, 2)) + "\n"@ + spaces(
            deeper(level, 1) as nat,
        ) + "property\n"@ + spaces(deeper(level, 2) as nat) + "Identifier "@
            + self.property.1.name@);
        out
    }
}

impl Beautify for ExpressionKind {
    fn beautify(&self, level: usize) -> (r: String)
        ensures
            r@ == pretty(self@, level),
    {
        let mut out = String::new();
        self.write(&mut out, level);
        assert(out@ =~= pretty(self@, level));
        out
    }
}

impl Beautify for ExpressionStatement {
    fn beautify(&self, level: usize) -> (r: String)
        ensures
            r@ == pretty_statement(self.expression.1@, level),
    {
        let mut out = String::new();
        self.write(&mut out, level);
        assert(out@ =~= pretty_statement(self.expression.1@, level));
        out
    }
}

impl Beautify for FormulaBody {
    fn beautify(&self, level: usize) -> (r: String)
        ensures
            r@ == pretty_body(self@, level),
    {
        let below = step_in(level, 1);
        let mut out = String::from_str("FormulaBody\n");
        let ghost all = self@;
        let mut i: usize = 0;
        assert(all.take(0) =~= Seq::<Expression>::empty());
        assert(out@ =~= "FormulaBody\n"@ + joined(pretty_statements(all.take(0), below), "\n"@));
        while i < self.body.len()
            invariant
                i <= self.body.len(),
                all == self@,
                all.len() == self.body.len(),
                pretty_statements(all.take(i as int), below).len() == i,
                out@ == "FormulaBody\n"@ + joined(
                    pretty_statements(all.take(i as int), below),
                    "\n"@,
                ),
            decreases self.body.len() - i,
        {
            let ghost before = pretty_statements(all.take(i as int), below);
            let ghost after = pretty_statements(all.take(i + 1), below);
            proof {
                assert(all.take(i + 1).drop_last() =~= all.take(i as int));
                assert(all.take(i + 1).last() == self.body@[i as int].1.expression.1@);
                assert(after.drop_last() =~= before);
            }
            if i > 0 {
                out.append("\n");
            }
            self.body[i].1.write(&mut out, below);
            proof {
                if i == 0 {
                    assert(joined(before, "\n"@) =~= Seq::<char>::empty());
                }
                assert(out@ =~= "FormulaBody\n"@ + joined(after, "\n"@));
            }
            i = i + 1;
        }
        assert(all.take(self.body.len() as int) =~= all);
        out
    }
}

} // verus!
