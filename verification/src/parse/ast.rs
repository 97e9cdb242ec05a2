//! The syntax tree of a formula.

use vstd::prelude::*;
use crate::parse::number::{literal_value, number_from_text};
use crate::parse::type_ast::{
    definition_result_view, is_type_definition, starts_type_definition, type_def_at, type_view,
    type_def_to_ast, TypeDefine, TypeItem,
};
use crate::parse::parse::{
    tokens_view, ParseError, ParseErrorKind, Token, TokenKind, TokenView,
};
use crate::share::rational::Rational;
use crate::share::text::{chars_of, same_text};
use crate::parse::parse::text_between;
use vstd::string::StringExecFns;

verus! {

/// A stretch of the source text, from the offset of its first byte to the
/// offset behind its last.
#[derive(Clone, Copy, Debug, PartialEq, Eq, Structural)]
pub struct Range(pub usize, pub usize);

/// An expression, with the stretch of source that it was read from.
#[derive(Debug, PartialEq)]
pub enum ExpressionKind {
    UnaryExpressionKind(Range, UnaryExpression),
    BinaryExpressionKind(Range, BinaryExpression),
    CallExpressionKind(Range, CallExpression),
    PropertyAccessExpressionKind(Range, PropertyAccessExpression),
    StringLiteralKind(Range, StringLiteral),
    NumberLiteralKind(Range, NumberLiteral),
    IdentifierKind(Range, Identifier),
    /// A comparison that stands behind a `;` among the arguments of a call
    /// and selects items of the array before it.
    FilterExpressionKind(Range, BinaryExpression),
    /// A type definition, which stands as a statement of its own.
    TypeDefineKind(Range, TypeDefine),
}

/// An expression beside the stretch of source that it was read from.
#[derive(Debug, PartialEq)]
pub struct ExpressionAstItem(pub Range, pub ExpressionKind);

/// A formula: its statements in order.
#[derive(Debug, PartialEq)]
pub struct FormulaBody {
    pub body: Vec<(Range, ExpressionStatement)>,
}

/// A statement: one expression.
#[derive(Debug, PartialEq)]
pub struct ExpressionStatement {
    pub expression: ExpressionAstItem,
}

/// An operator with one argument: a minus before it, or `!` behind it.
#[derive(Debug, PartialEq)]
pub struct UnaryExpression {
    /// Whether the operator stands before its argument.
    pub prefix: bool,
    pub operator: (Range, String),
    pub argument: (Range, Box<ExpressionKind>),
}

/// An operator between two operands.
#[derive(Debug, PartialEq)]
pub struct BinaryExpression {
    pub left: (Range, Box<ExpressionKind>),
    pub operator: (Range, String),
    pub right: (Range, Box<ExpressionKind>),
}

/// A call: what is called, and the arguments in the order of the text.
#[derive(Debug, PartialEq)]
pub struct CallExpression {
    pub callee: (Range, Box<ExpressionKind>),
    pub arguments: Vec<(Range, Box<ExpressionKind>)>,
}

/// The property of each object of an array: `object.property`.
#[derive(Debug, PartialEq)]
pub struct PropertyAccessExpression {
    pub object: (Range, Box<ExpressionKind>),
    pub property: (Range, Identifier),
}

/// A string literal.
#[derive(Debug, PartialEq)]
pub struct StringLiteral {
    /// The text between the quotes.
    pub value: String,
    /// The text with its quotes.
    pub raw: String,
}

/// A number literal: its value, and its text with its sign.
#[derive(Debug, PartialEq)]
pub struct NumberLiteral {
    pub value: Rational,
    pub raw: String,
}

/// A name.
#[derive(Debug, PartialEq)]
pub struct Identifier {
    pub name: String,
}

/// What an expression is: the tree that the contracts speak of.
pub enum Expression {
    Number { range: Range, value: Rational, raw: Seq<char> },
    Text { range: Range, text: Seq<char>, raw: Seq<char> },
    Name { range: Range, name: Seq<char> },
    Unary { range: Range, prefix: bool, operator: (Range, Seq<char>), argument: Box<Expression> },
    Binary {
        range: Range,
        left: Box<Expression>,
        operator: (Range, Seq<char>),
        right: Box<Expression>,
    },
    Filter {
        range: Range,
        left: Box<Expression>,
        operator: (Range, Seq<char>),
        right: Box<Expression>,
    },
    Call { range: Range, callee: Box<Expression>, arguments: Seq<Expression> },
    Property { range: Range, object: Box<Expression>, property: (Range, Seq<char>) },
    TypeDefine { range: Range, defined: (Range, Seq<char>), item: TypeItem },
}

impl Expression {
    /// The stretch of source that the expression was read from.
    pub open spec fn range(self) -> Range {
        match self {
            Expression::Number { range, .. } => range,
            Expression::Text { range, .. } => range,
            Expression::Name { range, .. } => range,
            Expression::Unary { range, .. } => range,
            Expression::Binary { range, .. } => range,
            Expression::Filter { range, .. } => range,
            Expression::Call { range, .. } => range,
            Expression::Property { range, .. } => range,
            Expression::TypeDefine { range, .. } => range,
        }
    }
}

impl View for ExpressionKind {
    type V = Expression;

    open spec fn view(&self) -> Expression
        decreases self,
    {
        match self {
            ExpressionKind::NumberLiteralKind(range, n) => Expression::Number {
                range: *range,
                value: n.value,
                raw: n.raw@,
            },
            ExpressionKind::StringLiteralKind(range, s) => Expression::Text {
                range: *range,
                text: s.value@,
                raw: s.raw@,
            },
            ExpressionKind::IdentifierKind(range, i) => Expression::Name {
                range: *range,
                name: i.name@,
            },
            ExpressionKind::UnaryExpressionKind(range, u) => Expression::Unary {
                range: *range,
                prefix: u.prefix,
                operator: (u.operator.0, u.operator.1@),
                argument: Box::new((*u.argument.1).view()),
            },
            ExpressionKind::BinaryExpressionKind(range, b) => Expression::Binary {
                range: *range,
                left: Box::new((*b.left.1).view()),
                operator: (b.operator.0, b.operator.1@),
                right: Box::new((*b.right.1).view()),
            },
            ExpressionKind::FilterExpressionKind(range, b) => Expression::Filter {
                range: *range,
                left: Box::new((*b.left.1).view()),
                operator: (b.operator.0, b.operator.1@),
                right: Box::new((*b.right.1).view()),
            },
            ExpressionKind::CallExpressionKind(range, c) => Expression::Call {
                range: *range,
                callee: Box::new((*c.callee.1).view()),
                arguments: arguments_view(c.arguments@),
            },
            ExpressionKind::PropertyAccessExpressionKind(range, p) => Expression::Property {
                range: *range,
                object: Box::new((*p.object.1).view()),
                property: (p.property.0, p.property.1.name@),
            },
            ExpressionKind::TypeDefineKind(range, t) => Expression::TypeDefine {
                range: *range,
                defined: (t.ident.0, t.ident.1.name@),
                item: type_view(t.type_item.0, t.type_item.1),
            },
        }
    }
}

/// The views of the arguments of a call.
pub open spec fn arguments_view(arguments: Seq<(Range, Box<ExpressionKind>)>) -> Seq<Expression>
    decreases arguments,
{
    if arguments.len() == 0 {
        Seq::empty()
    } else {
        arguments_view(arguments.drop_last()).push((*arguments.last().1).view())
    }
}

/// `arguments_view` goes argument by argument.
pub proof fn lemma_arguments_view(arguments: Seq<(Range, Box<ExpressionKind>)>)
    ensures
        arguments_view(arguments).len() == arguments.len(),
        forall|i: int|
            0 <= i < arguments.len() ==> (#[trigger] arguments_view(arguments)[i])
                == (*arguments[i].1).view(),
    decreases arguments.len(),
{
    if arguments.len() > 0 {
        lemma_arguments_view(arguments.drop_last());
        assert(arguments_view(arguments) == arguments_view(arguments.drop_last()).push(
            (*arguments.last().1).view(),
        ));
    } else {
        assert(arguments_view(arguments) == Seq::<Expression>::empty());
    }
}

impl ExpressionKind {
    /// The ranges that a node keeps beside its parts repeat the parts' own
    /// ranges, in the whole tree.
    pub open spec fn consistent(&self) -> bool
        decreases self, 0int,
    {
        match self {
            ExpressionKind::UnaryExpressionKind(_, u) => beside(u.argument.0, *u.argument.1),
            ExpressionKind::BinaryExpressionKind(_, b) => beside(b.left.0, *b.left.1) && beside(
                b.right.0,
                *b.right.1,
            ),
            ExpressionKind::FilterExpressionKind(_, b) => beside(b.left.0, *b.left.1) && beside(
                b.right.0,
                *b.right.1,
            ),
            ExpressionKind::CallExpressionKind(_, c) => beside(c.callee.0, *c.callee.1)
                && arguments_consistent(c.arguments@),
            ExpressionKind::PropertyAccessExpressionKind(_, p) => beside(p.object.0, *p.object.1),
            _ => true,
        }
    }
}

/// `range` is the range of `kind`, whose own parts are consistent.
pub open spec fn beside(range: Range, kind: ExpressionKind) -> bool
    decreases kind, 1int,
{
    range == kind.view().range() && kind.consistent()
}

/// Each argument stands beside its own range and is consistent.
pub open spec fn arguments_consistent(arguments: Seq<(Range, Box<ExpressionKind>)>) -> bool
    decreases arguments, 2int,
{
    if arguments.len() == 0 {
        true
    } else {
        arguments_consistent(arguments.drop_last()) && beside(
            arguments.last().0,
            *arguments.last().1,
        )
    }
}

/// Each statement stands beside the range of its expression, which is
/// consistent.
pub open spec fn statements_consistent(body: Seq<(Range, ExpressionStatement)>) -> bool {
    forall|i: int|
        0 <= i < body.len() ==> (#[trigger] body[i]).0 == body[i].1.expression.0 && beside(
            body[i].0,
            body[i].1.expression.1,
        )
}

/// The views of the statements of a formula.
pub open spec fn statements_view(body: Seq<(Range, ExpressionStatement)>) -> Seq<Expression> {
    body.map_values(|s: (Range, ExpressionStatement)| s.1.expression.1@)
}

impl View for FormulaBody {
    type V = Seq<Expression>;

    open spec fn view(&self) -> Seq<Expression> {
        statements_view(self.body@)
    }
}

/// `op` is one of the comparisons.
pub open spec fn is_comparison(op: Seq<char>) -> bool {
    op == "=="@ || op == "="@ || op == "!="@ || op == "<>"@ || op == ">="@ || op == "<="@ || op
        == ">"@ || op == "<"@
}

/// Whether `op` is one of the comparisons.
pub fn is_comparison_text(op: &str) -> (r: bool)
    ensures
        r == is_comparison(op@),
{
    same_text(op, "==") || same_text(op, "=") || same_text(op, "!=") || same_text(op, "<>")
        || same_text(op, ">=") || same_text(op, "<=") || same_text(op, ">") || same_text(op, "<")
}

/// The token at `i` is of the given kind.
pub open spec fn kind_is(ts: Seq<TokenView>, i: int, kind: TokenKind) -> bool {
    0 <= i < ts.len() && ts[i].kind == kind
}

/// The offset of the token at `i`, or the end of the text behind the last.
pub open spec fn offset_at(ts: Seq<TokenView>, i: int) -> usize {
    if 0 <= i < ts.len() {
        ts[i].range.0
    } else if ts.len() > 0 {
        ts.last().range.1
    } else {
        0
    }
}

/// The error of the given kind at the token `i`.
pub open spec fn failure(kind: ParseErrorKind, ts: Seq<TokenView>, i: int) -> ParseError {
    ParseError { kind, position: offset_at(ts, i) }
}

/// How tightly an infix operator binds; zero for what is none. Comparisons
/// bind least, then `+ -`, then `* /`, then `%`, then `^`.
pub open spec fn level(kind: TokenKind) -> int {
    match kind {
        TokenKind::Compare => 1,
        TokenKind::Plus => 2,
        TokenKind::Minus => 2,
        TokenKind::Star => 3,
        TokenKind::Slash => 3,
        TokenKind::Percent => 4,
        TokenKind::Caret => 5,
        _ => 0,
    }
}

/// The least level that the right operand of an operator may go on with:
/// `^` groups to the right, the others to the left.
pub open spec fn right_floor(kind: TokenKind) -> int {
    if kind == TokenKind::Caret {
        level(kind) - 1
    } else {
        level(kind)
    }
}

/// A sign stands at `i` and a number directly behind it.
pub open spec fn signed_number_at(ts: Seq<TokenView>, i: int) -> bool {
    (kind_is(ts, i, TokenKind::Plus) || kind_is(ts, i, TokenKind::Minus)) && kind_is(
        ts,
        i + 1,
        TokenKind::Number,
    ) && ts[i].range.1 == ts[i + 1].range.0
}

/// The text of a string literal without its quotes.
pub open spec fn unquoted(raw: Seq<char>) -> Seq<char> {
    if raw.len() >= 2 {
        raw.subrange(1, raw.len() - 1)
    } else {
        Seq::empty()
    }
}

/// A number literal, or the error of a number that cannot be held.
pub open spec fn number_node(ts: Seq<TokenView>, at: int, range: Range, raw: Seq<char>, value: Option<
    Rational,
>, next: int) -> Result<(Expression, int), ParseError> {
    match value {
        Some(v) => Ok((Expression::Number { range, value: v, raw }, next)),
        None => Err(failure(ParseErrorKind::NumberOutOfRange, ts, at)),
    }
}

/// The literal at `pos`: a string, a number, or a sign with a number
/// directly behind it.
pub open spec fn literal_at(ts: Seq<TokenView>, pos: int) -> Result<(Expression, int), ParseError> {
    if kind_is(ts, pos, TokenKind::Text) {
        Ok(
            (
                Expression::Text {
                    range: ts[pos].range,
                    text: unquoted(ts[pos].text),
                    raw: ts[pos].text,
                },
                pos + 1,
            ),
        )
    } else if kind_is(ts, pos, TokenKind::Number) {
        number_node(
            ts,
            pos,
            ts[pos].range,
            ts[pos].text,
            literal_value(ts[pos].text, false),
            pos + 1,
        )
    } else if signed_number_at(ts, pos) {
        number_node(
            ts,
            pos,
            Range(ts[pos].range.0, ts[pos + 1].range.1),
            ts[pos].text + ts[pos + 1].text,
            literal_value(ts[pos + 1].text, ts[pos].kind == TokenKind::Minus),
            pos + 2,
        )
    } else {
        Err(failure(ParseErrorKind::ExpectedOperand, ts, pos))
    }
}

/// The expression `e` with the postfix operators from `p` on: each `.name`
/// is a property access, and each `!`, where `bang` allows it, a factorial.
pub open spec fn postfixed(ts: Seq<TokenView>, e: Expression, p: int, bang: bool) -> Result<
    (Expression, int),
    ParseError,
>
    decreases ts.len() - p,
{
    if bang && kind_is(ts, p, TokenKind::Bang) {
        postfixed(
            ts,
            Expression::Unary {
                range: Range(e.range().0, ts[p].range.1),
                prefix: false,
                operator: (ts[p].range, ts[p].text),
                argument: Box::new(e),
            },
            p + 1,
            bang,
        )
    } else if kind_is(ts, p, TokenKind::Dot) {
        if kind_is(ts, p + 1, TokenKind::Name) {
            postfixed(
                ts,
                Expression::Property {
                    range: Range(e.range().0, ts[p + 1].range.1),
                    object: Box::new(e),
                    property: (ts[p + 1].range, ts[p + 1].text),
                },
                p + 2,
                bang,
            )
        } else {
            Err(failure(ParseErrorKind::ExpectedName, ts, p + 1))
        }
    } else {
        Ok((e, p))
    }
}

/// The variable at `pos`: a name and the properties behind it.
pub open spec fn variable_at(ts: Seq<TokenView>, pos: int) -> Result<(Expression, int), ParseError> {
    if kind_is(ts, pos, TokenKind::Name) {
        postfixed(ts, Expression::Name { range: ts[pos].range, name: ts[pos].text }, pos + 1, false)
    } else {
        Err(failure(ParseErrorKind::ExpectedOperand, ts, pos))
    }
}

/// A name is compared with a string, a name or a number.
pub open spec fn is_filter_form(left: Expression, operator: Seq<char>, right: Expression) -> bool {
    is_comparison(operator) && left is Name && (right is Text || right is Name || right is Number)
}

/// An argument behind a `;`: the comparison of a name with a literal there
/// is a filter clause.
pub open spec fn as_filter(e: Expression) -> Expression {
    match e {
        Expression::Binary { range, left, operator, right } => if is_filter_form(
            *left,
            operator.1,
            *right,
        ) {
            Expression::Filter { range, left, operator, right }
        } else {
            e
        },
        _ => e,
    }
}

/// The expression at `pos` whose infix operators bind more tightly than
/// `floor`.
pub open spec fn expression_at(ts: Seq<TokenView>, pos: int, floor: int) -> Result<
    (Expression, int),
    ParseError,
>
    decreases ts.len() - pos, 3int,
{
    match operand_at(ts, pos) {
        Err(e) => Err(e),
        Ok((left, p)) => if pos < p <= ts.len() {
            climbed(ts, left, p, floor)
        } else {
            Err(failure(ParseErrorKind::ExpectedOperand, ts, pos))
        },
    }
}

/// The expression that starts with `left` and goes on at `p` with the infix
/// operators that bind more tightly than `floor`.
pub open spec fn climbed(ts: Seq<TokenView>, left: Expression, p: int, floor: int) -> Result<
    (Expression, int),
    ParseError,
>
    decreases ts.len() - p, 0int,
{
    if 0 <= p < ts.len() && level(ts[p].kind) > floor {
        match expression_at(ts, p + 1, right_floor(ts[p].kind)) {
            Err(e) => Err(e),
            Ok((right, q)) => if p < q <= ts.len() {
                climbed(
                    ts,
                    Expression::Binary {
                        range: Range(left.range().0, right.range().1),
                        left: Box::new(left),
                        operator: (ts[p].range, ts[p].text),
                        right: Box::new(right),
                    },
                    q,
                    floor,
                )
            } else {
                Err(failure(ParseErrorKind::ExpectedOperand, ts, p))
            },
        }
    } else {
        Ok((left, p))
    }
}

/// The operand at `pos`: a number with its sign, or a primary, perhaps with
/// a minus before it; and the postfix operators behind it. A minus binds
/// more tightly than they do, and no sign follows it.
pub open spec fn operand_at(ts: Seq<TokenView>, pos: int) -> Result<(Expression, int), ParseError>
    decreases ts.len() - pos, 2int,
{
    if signed_number_at(ts, pos) {
        match literal_at(ts, pos) {
            Err(e) => Err(e),
            Ok((inner, p)) => postfixed(ts, inner, p, true),
        }
    } else if kind_is(ts, pos, TokenKind::Minus) {
        match primary_at(ts, pos + 1) {
            Err(e) => Err(e),
            Ok((inner, p)) => postfixed(
                ts,
                Expression::Unary {
                    range: Range(ts[pos].range.0, inner.range().1),
                    prefix: true,
                    operator: (ts[pos].range, ts[pos].text),
                    argument: Box::new(inner),
                },
                p,
                true,
            ),
        }
    } else {
        match primary_at(ts, pos) {
            Err(e) => Err(e),
            Ok((inner, p)) => postfixed(ts, inner, p, true),
        }
    }
}

/// The primary at `pos`: a literal without a sign, a variable, a call, or an
/// expression in parentheses.
pub open spec fn primary_at(ts: Seq<TokenView>, pos: int) -> Result<(Expression, int), ParseError>
    decreases ts.len() - pos, 1int,
{
    if kind_is(ts, pos, TokenKind::Text) || kind_is(ts, pos, TokenKind::Number) {
        literal_at(ts, pos)
    } else {
        variable_or_expression_at(ts, pos)
    }
}

/// A call, whose callee is a name with the properties behind it; or a name
/// alone, whose properties are postfix operators of the operand; or an
/// expression in parentheses.
pub open spec fn variable_or_expression_at(ts: Seq<TokenView>, pos: int) -> Result<
    (Expression, int),
    ParseError,
>
    decreases ts.len() - pos, 0int,
{
    if kind_is(ts, pos, TokenKind::Name) {
        match variable_at(ts, pos) {
            Err(e) => Err(e),
            Ok((callee, p)) => if pos < p && kind_is(ts, p, TokenKind::LeftParen) {
                call_at(ts, callee, p)
            } else {
                Ok((Expression::Name { range: ts[pos].range, name: ts[pos].text }, pos + 1))
            },
        }
    } else if kind_is(ts, pos, TokenKind::LeftParen) {
        match expression_at(ts, pos + 1, 0) {
            Err(e) => Err(e),
            Ok((inner, p)) => if kind_is(ts, p, TokenKind::RightParen) {
                Ok((inner, p + 1))
            } else {
                Err(failure(ParseErrorKind::ExpectedCloseParen, ts, p))
            },
        }
    } else {
        Err(failure(ParseErrorKind::ExpectedOperand, ts, pos))
    }
}

/// The call of `callee` whose `(` stands at `open`.
pub open spec fn call_at(ts: Seq<TokenView>, callee: Expression, open: int) -> Result<
    (Expression, int),
    ParseError,
>
    decreases ts.len() - open, 5int,
{
    if kind_is(ts, open + 1, TokenKind::RightParen) {
        Ok(
            (
                Expression::Call {
                    range: Range(callee.range().0, ts[open + 1].range.1),
                    callee: Box::new(callee),
                    arguments: Seq::empty(),
                },
                open + 2,
            ),
        )
    } else if !(0 <= open < ts.len()) {
        Err(failure(ParseErrorKind::ExpectedOperand, ts, open))
    } else {
        match arguments_at(ts, open + 1, false, Seq::empty()) {
            Err(e) => Err(e),
            Ok((arguments, close)) => Ok(
                (
                    Expression::Call {
                        range: Range(callee.range().0, offset_behind(ts, close)),
                        callee: Box::new(callee),
                        arguments,
                    },
                    close + 1,
                ),
            ),
        }
    }
}

/// The offset behind the token at `i`.
pub open spec fn offset_behind(ts: Seq<TokenView>, i: int) -> usize {
    if 0 <= i < ts.len() {
        ts[i].range.1
    } else {
        0
    }
}

/// The arguments of a call from `pos` on, behind those in `done`, and the
/// place of the `)`. Arguments are parted by `,` or by `;`; behind a `;` the
/// comparison of a name with a literal is a filter clause, and a `;` may
/// stand before the `)`.
pub open spec fn arguments_at(ts: Seq<TokenView>, pos: int, filter: bool, done: Seq<Expression>) -> Result<
    (Seq<Expression>, int),
    ParseError,
>
    decreases ts.len() - pos, 4int,
{
    match expression_at(ts, pos, 0) {
        Err(e) => Err(e),
        Ok((e, p)) => {
            let all = done.push(
                if filter {
                    as_filter(e)
                } else {
                    e
                },
            );
            if pos >= p {
                Err(failure(ParseErrorKind::ExpectedOperand, ts, pos))
            } else if kind_is(ts, p, TokenKind::RightParen) {
                Ok((all, p))
            } else if kind_is(ts, p, TokenKind::Comma) {
                arguments_at(ts, p + 1, false, all)
            } else if kind_is(ts, p, TokenKind::Semicolon) {
                if kind_is(ts, p + 1, TokenKind::RightParen) {
                    Ok((all, p + 1))
                } else {
                    arguments_at(ts, p + 1, true, all)
                }
            } else {
                Err(failure(ParseErrorKind::ExpectedSeparator, ts, p))
            }
        },
    }
}

/// The statement at `pos`: a type definition where the word `type` and a
/// name stand, else an expression.
pub open spec fn statement_at(ts: Seq<TokenView>, pos: int) -> Result<(Expression, int), ParseError> {
    if starts_type_definition(ts, pos) {
        match type_def_at(ts, pos) {
            Err(e) => Err(e),
            Ok((define, p)) => Ok(
                (
                    Expression::TypeDefine {
                        range: define.range,
                        defined: define.name,
                        item: define.item,
                    },
                    p,
                ),
            ),
        }
    } else {
        expression_at(ts, pos, 0)
    }
}

/// The statements from `pos` on, behind those in `done`. Statements are
/// parted by `;`, and a `;` may stand at the end.
pub open spec fn statements_at(ts: Seq<TokenView>, pos: int, done: Seq<Expression>) -> Result<
    Seq<Expression>,
    ParseError,
>
    decreases ts.len() - pos,
{
    match statement_at(ts, pos) {
        Err(e) => Err(e),
        Ok((e, p)) => {
            let all = done.push(e);
            if pos >= p {
                Err(failure(ParseErrorKind::ExpectedOperand, ts, pos))
            } else if p >= ts.len() {
                Ok(all)
            } else if kind_is(ts, p, TokenKind::Semicolon) {
                if p + 1 >= ts.len() {
                    Ok(all)
                } else {
                    statements_at(ts, p + 1, all)
                }
            } else {
                Err(failure(ParseErrorKind::ExpectedOperator, ts, p))
            }
        },
    }
}

/// The syntax tree of a formula: its statements, and the stretch from the
/// start of the text to the end of the last token.
pub open spec fn formula_at(ts: Seq<TokenView>) -> Result<(Range, Seq<Expression>), ParseError> {
    match statements_at(ts, 0, Seq::empty()) {
        Err(e) => Err(e),
        Ok(statements) => Ok((Range(0, offset_behind(ts, ts.len() - 1)), statements)),
    }
}

/// The binary expression of two operands and the operator token between them.
pub open spec fn binary_node(left: Expression, operator: TokenView, right: Expression) -> Expression {
    Expression::Binary {
        range: Range(left.range().0, right.range().1),
        left: Box::new(left),
        operator: (operator.range, operator.text),
        right: Box::new(right),
    }
}

/// Whether, of two infix operators in a row, the second takes the operand
/// between them: it does where it binds more tightly than the first, and
/// where both are `^`.
pub open spec fn groups_right(first: TokenKind, second: TokenKind) -> bool {
    level(second) > right_floor(first)
}

/// Precedence and associativity: in `a op1 b op2 c` the operator that binds
/// more tightly takes its operands first. Of two operators that bind alike
/// the left one does, so they group to the left; only `^` groups to the right.
pub proof fn lemma_grouping(
    ts: Seq<TokenView>,
    start: int,
    a: Expression,
    first: int,
    b: Expression,
    second: int,
    c: Expression,
    end: int,
)
    requires
        0 <= start < first,
        first + 1 < second,
        second + 1 < end <= ts.len(),
        operand_at(ts, start) == Ok::<(Expression, int), ParseError>((a, first)),
        level(ts[first].kind) > 0,
        operand_at(ts, first + 1) == Ok::<(Expression, int), ParseError>((b, second)),
        level(ts[second].kind) > 0,
        operand_at(ts, second + 1) == Ok::<(Expression, int), ParseError>((c, end)),
        end < ts.len() ==> level(ts[end].kind) == 0,
    ensures
        expression_at(ts, start, 0) == Ok::<(Expression, int), ParseError>(
            (
                if groups_right(ts[first].kind, ts[second].kind) {
                    binary_node(a, ts[first], binary_node(b, ts[second], c))
                } else {
                    binary_node(binary_node(a, ts[first], b), ts[second], c)
                },
                end,
            ),
        ),
{
    reveal_with_fuel(climbed, 4);
    reveal_with_fuel(expression_at, 4);
    let inner = right_floor(ts[first].kind);
    let last = right_floor(ts[second].kind);
    assert(climbed(ts, c, end, last) == Ok::<(Expression, int), ParseError>((c, end)));
    assert(expression_at(ts, second + 1, last) == Ok::<(Expression, int), ParseError>((c, end)));
    if groups_right(ts[first].kind, ts[second].kind) {
        let right = binary_node(b, ts[second], c);
        assert(climbed(ts, right, end, inner) == Ok::<(Expression, int), ParseError>(
            (right, end),
        ));
        assert(climbed(ts, b, second, inner) == Ok::<(Expression, int), ParseError>(
            (right, end),
        ));
        assert(expression_at(ts, first + 1, inner) == Ok::<(Expression, int), ParseError>(
            (right, end),
        ));
        let whole = binary_node(a, ts[first], right);
        assert(climbed(ts, whole, end, 0) == Ok::<(Expression, int), ParseError>((whole, end)));
        assert(climbed(ts, a, first, 0) == Ok::<(Expression, int), ParseError>((whole, end)));
    } else {
        assert(climbed(ts, b, second, inner) == Ok::<(Expression, int), ParseError>(
            (b, second),
        ));
        assert(expression_at(ts, first + 1, inner) == Ok::<(Expression, int), ParseError>(
            (b, second),
        ));
        let left = binary_node(a, ts[first], b);
        let whole = binary_node(left, ts[second], c);
        assert(climbed(ts, whole, end, 0) == Ok::<(Expression, int), ParseError>((whole, end)));
        assert(climbed(ts, left, second, 0) == Ok::<(Expression, int), ParseError>(
            (whole, end),
        ));
        assert(climbed(ts, a, first, 0) == Ok::<(Expression, int), ParseError>((whole, end)));
    }
}

/// The view of the result of reading one expression.
pub open spec fn item_view(r: Result<(ExpressionAstItem, usize), ParseError>) -> Result<
    (Expression, int),
    ParseError,
> {
    match r {
        Ok((item, next)) => Ok((item.1@, next as int)),
        Err(e) => Err(e),
    }
}

/// An expression that was read goes on behind `pos`, ends within the tokens
/// and carries its own range, as its parts do.
pub open spec fn well_read(r: Result<(ExpressionAstItem, usize), ParseError>, pos: int, len: int) -> bool {
    r matches Ok((item, next)) ==> pos <= next <= len && beside(item.0, item.1)
}

/// The view of the result of reading a formula.
pub open spec fn ast_view(r: Result<(Range, FormulaBody), ParseError>) -> Result<
    (Range, Seq<Expression>),
    ParseError,
> {
    match r {
        Ok((range, body)) => Ok((range, body@)),
        Err(e) => Err(e),
    }
}

/// The views of arguments with one more.
pub proof fn lemma_arguments_view_push(done: Seq<(Range, Box<ExpressionKind>)>, range: Range, kind: ExpressionKind)
    ensures
        arguments_view(done.push((range, Box::new(kind)))) == arguments_view(done).push(kind@),
{
    assert(done.push((range, Box::new(kind))).drop_last() =~= done);
}

pub(crate) fn kind_at(tokens: &Vec<Token>, i: usize, kind: TokenKind) -> (r: bool)
    ensures
        r == kind_is(tokens_view(tokens@), i as int, kind),
        r ==> i < tokens.len(),
{
    i < tokens.len() && tokens[i].kind == kind
}

pub(crate) fn failure_at(tokens: &Vec<Token>, kind: ParseErrorKind, i: usize) -> (r: ParseError)
    ensures
        r == failure(kind, tokens_view(tokens@), i as int),
{
    let position = if i < tokens.len() {
        tokens[i].range.0
    } else if tokens.len() > 0 {
        tokens[tokens.len() - 1].range.1
    } else {
        0
    };
    ParseError { kind, position }
}

fn signed_number(tokens: &Vec<Token>, i: usize) -> (r: bool)
    ensures
        r == signed_number_at(tokens_view(tokens@), i as int),
        r ==> i + 1 < tokens.len(),
{
    if !(kind_at(tokens, i, TokenKind::Plus) || kind_at(tokens, i, TokenKind::Minus)) {
        return false;
    }
    kind_at(tokens, i + 1, TokenKind::Number) && tokens[i].range.1 == tokens[i + 1].range.0
}

fn level_of(kind: TokenKind) -> (r: u8)
    ensures
        r == level(kind),
{
    match kind {
        TokenKind::Compare => 1,
        TokenKind::Plus => 2,
        TokenKind::Minus => 2,
        TokenKind::Star => 3,
        TokenKind::Slash => 3,
        TokenKind::Percent => 4,
        TokenKind::Caret => 5,
        _ => 0,
    }
}

fn unquote(raw: &String) -> (r: String)
    ensures
        r@ == unquoted(raw@),
{
    let cs = chars_of(raw.as_str());
    if cs.len() >= 2 {
        text_between(&cs, 1, cs.len() - 1)
    } else {
        String::new()
    }
}

fn number_item(tokens: &Vec<Token>, at: usize, range: Range, raw: String, value: Option<Rational>, next: usize) -> (r:
    Result<(ExpressionAstItem, usize), ParseError>)
    ensures
        item_view(r) == number_node(
            tokens_view(tokens@),
            at as int,
            range,
            raw@,
            value,
            next as int,
        ),
        r matches Ok((item, q)) ==> q == next && beside(item.0, item.1),
{
    match value {
        Some(v) => Ok(
            (
                ExpressionAstItem(
                    range,
                    ExpressionKind::NumberLiteralKind(range, NumberLiteral { value: v, raw }),
                ),
                next,
            ),
        ),
        None => Err(failure_at(tokens, ParseErrorKind::NumberOutOfRange, at)),
    }
}

/// Reads the literal at `pos`: a string, a number, or a sign with a number
/// directly behind it.
pub fn literal_to_ast(tokens: &Vec<Token>, pos: usize) -> (r: Result<
    (ExpressionAstItem, usize),
    ParseError,
>)
    ensures
        item_view(r) == literal_at(tokens_view(tokens@), pos as int),
        well_read(r, pos + 1, tokens.len() as int),
{
    if kind_at(tokens, pos, TokenKind::Text) {
        let token = &tokens[pos];
        let literal = StringLiteral { value: unquote(&token.text), raw: token.text.clone() };
        Ok(
            (
                ExpressionAstItem(
                    token.range,
                    ExpressionKind::StringLiteralKind(token.range, literal),
                ),
                pos + 1,
            ),
        )
    } else if kind_at(tokens, pos, TokenKind::Number) {
        let token = &tokens[pos];
        let value = number_from_text(token.text.as_str(), false);
        number_item(tokens, pos, token.range, token.text.clone(), value, pos + 1)
    } else if signed_number(tokens, pos) {
        let sign = &tokens[pos];
        let number = &tokens[pos + 1];
        let mut raw = sign.text.clone();
        raw.append(number.text.as_str());
        let value = number_from_text(number.text.as_str(), sign.kind == TokenKind::Minus);
        number_item(tokens, pos, Range(sign.range.0, number.range.1), raw, value, pos + 2)
    } else {
        Err(failure_at(tokens, ParseErrorKind::ExpectedOperand, pos))
    }
}

/// Reads the postfix operators behind `left`.
fn postfix_to_ast(tokens: &Vec<Token>, left: ExpressionAstItem, p: usize, bang: bool) -> (r: Result<
    (ExpressionAstItem, usize),
    ParseError,
>)
    requires
        beside(left.0, left.1),
        p <= tokens.len(),
    ensures
        item_view(r) == postfixed(tokens_view(tokens@), left.1@, p as int, bang),
        well_read(r, p as int, tokens.len() as int),
    decreases tokens.len() - p,
{
    if bang && kind_at(tokens, p, TokenKind::Bang) {
        let token = &tokens[p];
        let range = Range(left.0.0, token.range.1);
        let unary = UnaryExpression {
            prefix: false,
            operator: (token.range, token.text.clone()),
            argument: (left.0, Box::new(left.1)),
        };
        postfix_to_ast(
            tokens,
            ExpressionAstItem(range, ExpressionKind::UnaryExpressionKind(range, unary)),
            p + 1,
            bang,
        )
    } else if kind_at(tokens, p, TokenKind::Dot) {
        if kind_at(tokens, p + 1, TokenKind::Name) {
            let name = &tokens[p + 1];
            let range = Range(left.0.0, name.range.1);
            let access = PropertyAccessExpression {
                object: (left.0, Box::new(left.1)),
                property: (name.range, Identifier { name: name.text.clone() }),
            };
            postfix_to_ast(
                tokens,
                ExpressionAstItem(
                    range,
                    ExpressionKind::PropertyAccessExpressionKind(range, access),
                ),
                p + 2,
                bang,
            )
        } else {
            Err(failure_at(tokens, ParseErrorKind::ExpectedName, p + 1))
        }
    } else {
        Ok((left, p))
    }
}

/// Reads the variable at `pos`: a name and the properties behind it.
pub fn variable_to_ast(tokens: &Vec<Token>, pos: usize) -> (r: Result<
    (ExpressionAstItem, usize),
    ParseError,
>)
    ensures
        item_view(r) == variable_at(tokens_view(tokens@), pos as int),
        well_read(r, pos + 1, tokens.len() as int),
{
    if kind_at(tokens, pos, TokenKind::Name) {
        let token = &tokens[pos];
        let name = ExpressionAstItem(
            token.range,
            ExpressionKind::IdentifierKind(token.range, Identifier { name: token.text.clone() }),
        );
        postfix_to_ast(tokens, name, pos + 1, false)
    } else {
        Err(failure_at(tokens, ParseErrorKind::ExpectedOperand, pos))
    }
}

fn is_name(kind: &ExpressionKind) -> (r: bool)
    ensures
        r == (kind@ is Name),
{
    match kind {
        ExpressionKind::IdentifierKind(_, _) => true,
        _ => false,
    }
}

fn is_name_or_literal(kind: &ExpressionKind) -> (r: bool)
    ensures
        r == (kind@ is Text || kind@ is Name || kind@ is Number),
{
    match kind {
        ExpressionKind::StringLiteralKind(_, _) => true,
        ExpressionKind::IdentifierKind(_, _) => true,
        ExpressionKind::NumberLiteralKind(_, _) => true,
        _ => false,
    }
}

fn filter_of(item: ExpressionAstItem) -> (r: ExpressionAstItem)
    requires
        beside(item.0, item.1),
    ensures
        r.1@ == as_filter(item.1@),
        beside(r.0, r.1),
{
    let ExpressionAstItem(range, kind) = item;
    match kind {
        ExpressionKind::BinaryExpressionKind(inner, binary) => {
            if is_name(&binary.left.1) && is_name_or_literal(&binary.right.1)
                && is_comparison_text(binary.operator.1.as_str()) {
                ExpressionAstItem(range, ExpressionKind::FilterExpressionKind(inner, binary))
            } else {
                ExpressionAstItem(range, ExpressionKind::BinaryExpressionKind(inner, binary))
            }
        },
        other => ExpressionAstItem(range, other),
    }
}

/// Reads the expression at `pos` whose infix operators bind more tightly
/// than `floor`.
pub fn expression_to_ast(tokens: &Vec<Token>, pos: usize, floor: u8) -> (r: Result<
    (ExpressionAstItem, usize),
    ParseError,
>)
    ensures
        item_view(r) == expression_at(tokens_view(tokens@), pos as int, floor as int),
        well_read(r, pos + 1, tokens.len() as int),
    decreases tokens.len() - pos, 3int,
{
    match operand_to_ast(tokens, pos) {
        Err(e) => Err(e),
        Ok((left, p)) => climb(tokens, left, p, floor),
    }
}

fn climb(tokens: &Vec<Token>, left: ExpressionAstItem, p: usize, floor: u8) -> (r: Result<
    (ExpressionAstItem, usize),
    ParseError,
>)
    requires
        beside(left.0, left.1),
        p <= tokens.len(),
    ensures
        item_view(r) == climbed(tokens_view(tokens@), left.1@, p as int, floor as int),
        well_read(r, p as int, tokens.len() as int),
    decreases tokens.len() - p, 0int,
{
    if p < tokens.len() && level_of(tokens[p].kind) > floor {
        let token = &tokens[p];
        let next = if token.kind == TokenKind::Caret {
            level_of(token.kind) - 1
        } else {
            level_of(token.kind)
        };
        match expression_to_ast(tokens, p + 1, next) {
            Err(e) => Err(e),
            Ok((right, q)) => {
                let range = Range(left.0.0, right.0.1);
                let binary = BinaryExpression {
                    left: (left.0, Box::new(left.1)),
                    operator: (token.range, token.text.clone()),
                    right: (right.0, Box::new(right.1)),
                };
                climb(
                    tokens,
                    ExpressionAstItem(range, ExpressionKind::BinaryExpressionKind(range, binary)),
                    q,
                    floor,
                )
            },
        }
    } else {
        Ok((left, p))
    }
}

fn operand_to_ast(tokens: &Vec<Token>, pos: usize) -> (r: Result<
    (ExpressionAstItem, usize),
    ParseError,
>)
    ensures
        item_view(r) == operand_at(tokens_view(tokens@), pos as int),
        well_read(r, pos + 1, tokens.len() as int),
    decreases tokens.len() - pos, 2int,
{
    if signed_number(tokens, pos) {
        match literal_to_ast(tokens, pos) {
            Err(e) => Err(e),
            Ok((inner, p)) => postfix_to_ast(tokens, inner, p, true),
        }
    } else if kind_at(tokens, pos, TokenKind::Minus) {
        let token = &tokens[pos];
        match variable_or_literal_or_expression(tokens, pos + 1) {
            Err(e) => Err(e),
            Ok((inner, p)) => {
                let range = Range(token.range.0, inner.0.1);
                let unary = UnaryExpression {
                    prefix: true,
                    operator: (token.range, token.text.clone()),
                    argument: (inner.0, Box::new(inner.1)),
                };
                postfix_to_ast(
                    tokens,
                    ExpressionAstItem(range, ExpressionKind::UnaryExpressionKind(range, unary)),
                    p,
                    true,
                )
            },
        }
    } else {
        match variable_or_literal_or_expression(tokens, pos) {
            Err(e) => Err(e),
            Ok((inner, p)) => postfix_to_ast(tokens, inner, p, true),
        }
    }
}

/// Reads the primary at `pos`: a literal without a sign, a variable, a call,
/// or an expression in parentheses.
pub fn variable_or_literal_or_expression(tokens: &Vec<Token>, pos: usize) -> (r: Result<
    (ExpressionAstItem, usize),
    ParseError,
>)
    ensures
        item_view(r) == primary_at(tokens_view(tokens@), pos as int),
        well_read(r, pos + 1, tokens.len() as int),
    decreases tokens.len() - pos, 1int,
{
    if kind_at(tokens, pos, TokenKind::Text) || kind_at(tokens, pos, TokenKind::Number) {
        literal_to_ast(tokens, pos)
    } else {
        variable_or_expression(tokens, pos)
    }
}

/// Reads a call, a name alone, or an expression in parentheses.
pub fn variable_or_expression(tokens: &Vec<Token>, pos: usize) -> (r: Result<
    (ExpressionAstItem, usize),
    ParseError,
>)
    ensures
        item_view(r) == variable_or_expression_at(tokens_view(tokens@), pos as int),
        well_read(r, pos + 1, tokens.len() as int),
    decreases tokens.len() - pos, 0int,
{
    if kind_at(tokens, pos, TokenKind::Name) {
        match variable_to_ast(tokens, pos) {
            Err(e) => Err(e),
            Ok((callee, p)) => {
                if kind_at(tokens, p, TokenKind::LeftParen) {
                    function_call_to_ast(tokens, callee, p)
                } else {
                    let token = &tokens[pos];
                    let name = Identifier { name: token.text.clone() };
                    Ok(
                        (
                            ExpressionAstItem(
                                token.range,
                                ExpressionKind::IdentifierKind(token.range, name),
                            ),
                            pos + 1,
                        ),
                    )
                }
            },
        }
    } else if kind_at(tokens, pos, TokenKind::LeftParen) {
        match expression_to_ast(tokens, pos + 1, 0) {
            Err(e) => Err(e),
            Ok((inner, p)) => {
                if kind_at(tokens, p, TokenKind::RightParen) {
                    Ok((inner, p + 1))
                } else {
                    Err(failure_at(tokens, ParseErrorKind::ExpectedCloseParen, p))
                }
            },
        }
    } else {
        Err(failure_at(tokens, ParseErrorKind::ExpectedOperand, pos))
    }
}

/// Reads the call of `callee` whose `(` stands at `open`.
#[verifier::rlimit(40)]
fn function_call_to_ast(tokens: &Vec<Token>, callee: ExpressionAstItem, open: usize) -> (r: Result<
    (ExpressionAstItem, usize),
    ParseError,
>)
    requires
        beside(callee.0, callee.1),
        open < tokens.len(),
    ensures
        item_view(r) == call_at(tokens_view(tokens@), callee.1@, open as int),
        well_read(r, open + 1, tokens.len() as int),
    decreases tokens.len() - open, 5int,
{
    if kind_at(tokens, open + 1, TokenKind::RightParen) {
        let range = Range(callee.0.0, tokens[open + 1].range.1);
        let call = CallExpression {
            callee: (callee.0, Box::new(callee.1)),
            arguments: Vec::new(),
        };
        assert(arguments_view(call.arguments@) =~= Seq::<Expression>::empty());
        assert(arguments_consistent(call.arguments@));
        Ok(
            (
                ExpressionAstItem(range, ExpressionKind::CallExpressionKind(range, call)),
                open + 2,
            ),
        )
    } else {
        let none: Vec<(Range, Box<ExpressionKind>)> = Vec::new();
        assert(arguments_view(none@) =~= Seq::<Expression>::empty());
        assert(arguments_consistent(none@));
        match arguments_to_ast(tokens, open + 1, false, none) {
            Err(e) => Err(e),
            Ok((arguments, close)) => {
                let range = Range(callee.0.0, tokens[close].range.1);
                let call = CallExpression { callee: (callee.0, Box::new(callee.1)), arguments };
                Ok(
                    (
                        ExpressionAstItem(range, ExpressionKind::CallExpressionKind(range, call)),
                        close + 1,
                    ),
                )
            },
        }
    }
}

/// The view of the result of reading arguments.
pub open spec fn arguments_result_view(r: Result<(Vec<(Range, Box<ExpressionKind>)>, usize), ParseError>) -> Result<
    (Seq<Expression>, int),
    ParseError,
> {
    match r {
        Ok((arguments, close)) => Ok((arguments_view(arguments@), close as int)),
        Err(e) => Err(e),
    }
}

fn arguments_to_ast(tokens: &Vec<Token>, pos: usize, filter: bool, done: Vec<(Range, Box<ExpressionKind>)>) -> (r:
    Result<(Vec<(Range, Box<ExpressionKind>)>, usize), ParseError>)
    requires
        pos <= tokens.len(),
        arguments_consistent(done@),
    ensures
        arguments_result_view(r) == arguments_at(
            tokens_view(tokens@),
            pos as int,
            filter,
            arguments_view(done@),
        ),
        r matches Ok((all, close)) ==> pos < close < tokens.len() && arguments_consistent(all@),
    decreases tokens.len() - pos, 4int,
{
    match expression_to_ast(tokens, pos, 0) {
        Err(e) => Err(e),
        Ok((item, p)) => {
            let argument = if filter {
                filter_of(item)
            } else {
                item
            };
            let mut all = done;
            proof {
                lemma_arguments_view_push(all@, argument.0, argument.1);
                assert(all@.push((argument.0, Box::new(argument.1))).drop_last() =~= all@);
            }
            all.push((argument.0, Box::new(argument.1)));
            if kind_at(tokens, p, TokenKind::RightParen) {
                Ok((all, p))
            } else if kind_at(tokens, p, TokenKind::Comma) {
                arguments_to_ast(tokens, p + 1, false, all)
            } else if kind_at(tokens, p, TokenKind::Semicolon) {
                if kind_at(tokens, p + 1, TokenKind::RightParen) {
                    Ok((all, p + 1))
                } else {
                    arguments_to_ast(tokens, p + 1, true, all)
                }
            } else {
                Err(failure_at(tokens, ParseErrorKind::ExpectedSeparator, p))
            }
        },
    }
}

/// Reads the statement at `pos`: a type definition or an expression.
pub fn statement_to_ast(tokens: &Vec<Token>, pos: usize) -> (r: Result<
    (ExpressionAstItem, usize),
    ParseError,
>)
    ensures
        item_view(r) == statement_at(tokens_view(tokens@), pos as int),
        well_read(r, pos + 1, tokens.len() as int),
{
    if is_type_definition(tokens, pos) {
        match type_def_to_ast(tokens, pos) {
            Err(e) => Err(e),
            Ok(((range, define), p)) => Ok(
                (ExpressionAstItem(range, ExpressionKind::TypeDefineKind(range, define)), p),
            ),
        }
    } else {
        expression_to_ast(tokens, pos, 0)
    }
}

/// The view of the result of reading statements.
pub open spec fn statements_result_view(r: Result<Vec<(Range, ExpressionStatement)>, ParseError>) -> Result<
    Seq<Expression>,
    ParseError,
> {
    match r {
        Ok(body) => Ok(statements_view(body@)),
        Err(e) => Err(e),
    }
}

fn statements_to_ast(tokens: &Vec<Token>, pos: usize, done: Vec<(Range, ExpressionStatement)>) -> (r: Result<
    Vec<(Range, ExpressionStatement)>,
    ParseError,
>)
    requires
        pos <= tokens.len(),
        statements_consistent(done@),
    ensures
        statements_result_view(r) == statements_at(
            tokens_view(tokens@),
            pos as int,
            statements_view(done@),
        ),
        r matches Ok(all) ==> statements_consistent(all@),
    decreases tokens.len() - pos,
{
    match statement_to_ast(tokens, pos) {
        Err(e) => Err(e),
        Ok((item, p)) => {
            let mut all = done;
            let statement = (item.0, ExpressionStatement { expression: item });
            assert(statements_view(all@.push(statement)) =~= statements_view(all@).push(
                statement.1.expression.1@,
            ));
            all.push(statement);
            if p >= tokens.len() {
                Ok(all)
            } else if kind_at(tokens, p, TokenKind::Semicolon) {
                if p + 1 >= tokens.len() {
                    Ok(all)
                } else {
                    statements_to_ast(tokens, p + 1, all)
                }
            } else {
                Err(failure_at(tokens, ParseErrorKind::ExpectedOperator, p))
            }
        },
    }
}

/// Reads the syntax tree of a formula from its tokens.
pub fn to_ast(tokens: &Vec<Token>) -> (r: Result<(Range, FormulaBody), ParseError>)
    ensures
        ast_view(r) == formula_at(tokens_view(tokens@)),
        r matches Ok((_, body)) ==> statements_consistent(body.body@),
{
    let none: Vec<(Range, ExpressionStatement)> = Vec::new();
    assert(statements_view(none@) =~= Seq::<Expression>::empty());
    match statements_to_ast(tokens, 0, none) {
        Err(e) => Err(e),
        Ok(body) => {
            let end = if tokens.len() > 0 {
                tokens[tokens.len() - 1].range.1
            } else {
                0
            };
            Ok((Range(0, end), FormulaBody { body }))
        },
    }
}

} // verus!
