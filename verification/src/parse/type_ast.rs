//! Type definitions: `type Name = Type;`.
//!
//! A type is a name, perhaps with types between `<` and `>` behind it, or a
//! record of named fields between `{` and `}`.

use vstd::prelude::*;
use vstd::string::StringExecFns;
use crate::parse::ast::{failure, failure_at, kind_at, kind_is, Identifier, Range};
use crate::parse::parse::{tokens_view, ParseError, ParseErrorKind, Token, TokenKind, TokenView};
use crate::share::text::same_text;
use crate::vm::error::joined;

verus! {

/// The name of a type.
#[derive(Debug, PartialEq)]
pub struct TypeName {
    pub name: String,
}

/// A type definition: the name that is defined, and the type that it
/// stands for.
#[derive(Debug, PartialEq)]
pub struct TypeDefine {
    pub ident: (Range, Identifier),
    pub type_item: (Range, TypeItemKind),
}

/// A type.
#[derive(Debug, PartialEq)]
pub enum TypeItemKind {
    NamedTypeKind(NamedType),
    RecordTypeKind(RecordType),
}

/// A field of a record type.
#[derive(Debug, PartialEq)]
pub struct RecordTypeField {
    pub key: (Range, Identifier),
    pub value: (Range, TypeItemKind),
}

/// A record type: its fields in order.
#[derive(Debug, PartialEq)]
pub struct RecordType {
    pub fields: Vec<(Range, RecordTypeField)>,
}

/// A named type with its parameters.
#[derive(Debug, PartialEq)]
pub struct NamedType {
    pub ident: (Range, TypeName),
    pub parameters: Vec<(Range, TypeItemKind)>,
}

/// What a type is: the tree that the contracts speak of. A field is its
/// range, its name with the name's range, and its type.
pub enum TypeItem {
    Named { range: Range, name: (Range, Seq<char>), parameters: Seq<TypeItem> },
    Record { range: Range, fields: Seq<(Range, (Range, Seq<char>), TypeItem)> },
}

impl TypeItem {
    /// The stretch of source that the type was read from.
    pub open spec fn range(self) -> Range {
        match self {
            TypeItem::Named { range, .. } => range,
            TypeItem::Record { range, .. } => range,
        }
    }
}

/// The view of a type that stands beside its range.
pub open spec fn type_view(range: Range, kind: TypeItemKind) -> TypeItem
    decreases kind,
{
    match kind {
        TypeItemKind::NamedTypeKind(n) => TypeItem::Named {
            range,
            name: (n.ident.0, n.ident.1.name@),
            parameters: items_view(n.parameters@),
        },
        TypeItemKind::RecordTypeKind(r) => TypeItem::Record {
            range,
            fields: fields_view(r.fields@),
        },
    }
}

/// The views of types in turn.
pub open spec fn items_view(items: Seq<(Range, TypeItemKind)>) -> Seq<TypeItem>
    decreases items,
{
    if items.len() == 0 {
        Seq::empty()
    } else {
        items_view(items.drop_last()).push(type_view(items.last().0, items.last().1))
    }
}

/// The view of a field that stands beside its range.
pub open spec fn field_view(range: Range, field: RecordTypeField) -> (Range, (Range, Seq<char>), TypeItem)
    decreases field,
{
    (range, (field.key.0, field.key.1.name@), type_view(field.value.0, field.value.1))
}

/// The views of fields in turn.
pub open spec fn fields_view(fields: Seq<(Range, RecordTypeField)>) -> Seq<
    (Range, (Range, Seq<char>), TypeItem),
>
    decreases fields,
{
    if fields.len() == 0 {
        Seq::empty()
    } else {
        fields_view(fields.drop_last()).push(field_view(fields.last().0, fields.last().1))
    }
}

/// `items_view` goes type by type.
pub proof fn lemma_items_view(items: Seq<(Range, TypeItemKind)>)
    ensures
        items_view(items).len() == items.len(),
        forall|i: int|
            0 <= i < items.len() ==> (#[trigger] items_view(items)[i]) == type_view(
                items[i].0,
                items[i].1,
            ),
    decreases items.len(),
{
    if items.len() > 0 {
        lemma_items_view(items.drop_last());
        assert(items_view(items) == items_view(items.drop_last()).push(
            type_view(items.last().0, items.last().1),
        ));
    } else {
        assert(items_view(items) == Seq::<TypeItem>::empty());
    }
}

/// `fields_view` goes field by field.
pub proof fn lemma_fields_view(fields: Seq<(Range, RecordTypeField)>)
    ensures
        fields_view(fields).len() == fields.len(),
        forall|i: int|
            0 <= i < fields.len() ==> (#[trigger] fields_view(fields)[i]) == field_view(
                fields[i].0,
                fields[i].1,
            ),
    decreases fields.len(),
{
    if fields.len() > 0 {
        lemma_fields_view(fields.drop_last());
        assert(fields_view(fields) == fields_view(fields.drop_last()).push(
            field_view(fields.last().0, fields.last().1),
        ));
    } else {
        assert(fields_view(fields) == Seq::<(Range, (Range, Seq<char>), TypeItem)>::empty());
    }
}

/// The token at `i` is of the given kind and has the given text.
pub open spec fn text_is(ts: Seq<TokenView>, i: int, kind: TokenKind, text: Seq<char>) -> bool {
    kind_is(ts, i, kind) && ts[i].text == text
}

/// A type definition starts at `pos`: the word `type` and a name.
pub open spec fn starts_type_definition(ts: Seq<TokenView>, pos: int) -> bool {
    text_is(ts, pos, TokenKind::Name, "type"@) && kind_is(ts, pos + 1, TokenKind::Name)
}

/// The offset behind the token at `i`.
pub open spec fn end_of(ts: Seq<TokenView>, i: int) -> usize {
    if 0 <= i < ts.len() {
        ts[i].range.1
    } else {
        0
    }
}

/// The type at `pos`: a name with its parameters, or a record.
pub open spec fn type_item_at(ts: Seq<TokenView>, pos: int) -> Result<(TypeItem, int), ParseError>
    decreases ts.len() - pos, 1int,
{
    if kind_is(ts, pos, TokenKind::Name) {
        if text_is(ts, pos + 1, TokenKind::Compare, "<"@) {
            match type_list_at(ts, pos + 2, Seq::empty()) {
                Err(e) => Err(e),
                Ok((parameters, close)) => Ok(
                    (
                        TypeItem::Named {
                            range: Range(ts[pos].range.0, end_of(ts, close)),
                            name: (ts[pos].range, ts[pos].text),
                            parameters,
                        },
                        close + 1,
                    ),
                ),
            }
        } else {
            Ok(
                (
                    TypeItem::Named {
                        range: ts[pos].range,
                        name: (ts[pos].range, ts[pos].text),
                        parameters: Seq::empty(),
                    },
                    pos + 1,
                ),
            )
        }
    } else if kind_is(ts, pos, TokenKind::LeftBrace) {
        if kind_is(ts, pos + 1, TokenKind::RightBrace) {
            Ok(
                (
                    TypeItem::Record {
                        range: Range(ts[pos].range.0, ts[pos + 1].range.1),
                        fields: Seq::empty(),
                    },
                    pos + 2,
                ),
            )
        } else {
            match fields_at(ts, pos + 1, Seq::empty()) {
                Err(e) => Err(e),
                Ok((fields, close)) => Ok(
                    (
                        TypeItem::Record {
                            range: Range(ts[pos].range.0, end_of(ts, close)),
                            fields,
                        },
                        close + 1,
                    ),
                ),
            }
        }
    } else {
        Err(failure(ParseErrorKind::ExpectedType, ts, pos))
    }
}

/// The types from `pos` on, parted by `,`, behind those in `done`, and the
/// place of the `>` that ends them.
pub open spec fn type_list_at(ts: Seq<TokenView>, pos: int, done: Seq<TypeItem>) -> Result<
    (Seq<TypeItem>, int),
    ParseError,
>
    decreases ts.len() - pos, 2int,
{
    match type_item_at(ts, pos) {
        Err(e) => Err(e),
        Ok((item, p)) => {
            let all = done.push(item);
            if !(pos < p) {
                Err(failure(ParseErrorKind::ExpectedType, ts, pos))
            } else if text_is(ts, p, TokenKind::Compare, ">"@) {
                Ok((all, p))
            } else if kind_is(ts, p, TokenKind::Comma) {
                type_list_at(ts, p + 1, all)
            } else {
                Err(failure(ParseErrorKind::ExpectedCloseAngle, ts, p))
            }
        },
    }
}

/// The fields from `pos` on, parted by `,`, behind those in `done`, and the
/// place of the `}` that ends them. A field is a name, `:` and a type.
pub open spec fn fields_at(ts: Seq<TokenView>, pos: int, done: Seq<
    (Range, (Range, Seq<char>), TypeItem),
>) -> Result<(Seq<(Range, (Range, Seq<char>), TypeItem)>, int), ParseError>
    decreases ts.len() - pos, 2int,
{
    if !kind_is(ts, pos, TokenKind::Name) {
        Err(failure(ParseErrorKind::ExpectedName, ts, pos))
    } else if !kind_is(ts, pos + 1, TokenKind::Colon) {
        Err(failure(ParseErrorKind::ExpectedColon, ts, pos + 1))
    } else {
        match type_item_at(ts, pos + 2) {
            Err(e) => Err(e),
            Ok((item, p)) => {
                let field = (
                    Range(ts[pos].range.0, item.range().1),
                    (ts[pos].range, ts[pos].text),
                    item,
                );
                let all = done.push(field);
                if !(pos < p) {
                    Err(failure(ParseErrorKind::ExpectedType, ts, pos))
                } else if kind_is(ts, p, TokenKind::RightBrace) {
                    Ok((all, p))
                } else if kind_is(ts, p, TokenKind::Comma) {
                    fields_at(ts, p + 1, all)
                } else {
                    Err(failure(ParseErrorKind::ExpectedCloseBrace, ts, p))
                }
            },
        }
    }
}

/// What a type definition is: its range, the name with its range, the type.
pub struct Definition {
    pub range: Range,
    pub name: (Range, Seq<char>),
    pub item: TypeItem,
}

/// The type definition at `pos`: the word `type`, a name, `=` and a type.
pub open spec fn type_def_at(ts: Seq<TokenView>, pos: int) -> Result<(Definition, int), ParseError> {
    if !text_is(ts, pos, TokenKind::Name, "type"@) {
        Err(failure(ParseErrorKind::ExpectedType, ts, pos))
    } else if !kind_is(ts, pos + 1, TokenKind::Name) {
        Err(failure(ParseErrorKind::ExpectedName, ts, pos + 1))
    } else if !text_is(ts, pos + 2, TokenKind::Compare, "="@) {
        Err(failure(ParseErrorKind::ExpectedEquals, ts, pos + 2))
    } else {
        match type_item_at(ts, pos + 3) {
            Err(e) => Err(e),
            Ok((item, p)) => Ok(
                (
                    Definition {
                        range: Range(offset_start(ts, pos), item.range().1),
                        name: (range_at(ts, pos + 1), text_at(ts, pos + 1)),
                        item,
                    },
                    p,
                ),
            ),
        }
    }
}

/// The offset of the token at `i`.
pub open spec fn offset_start(ts: Seq<TokenView>, i: int) -> usize {
    if 0 <= i < ts.len() {
        ts[i].range.0
    } else {
        0
    }
}

/// The range of the token at `i`.
pub open spec fn range_at(ts: Seq<TokenView>, i: int) -> Range {
    if 0 <= i < ts.len() {
        ts[i].range
    } else {
        Range(0, 0)
    }
}

/// The text of the token at `i`.
pub open spec fn text_at(ts: Seq<TokenView>, i: int) -> Seq<char> {
    if 0 <= i < ts.len() {
        ts[i].text
    } else {
        Seq::empty()
    }
}

/// The text of a type: a name with its parameters between `<` and `>`, or
/// the fields of a record between `{` and `}`.
pub open spec fn type_text(item: TypeItem) -> Seq<char>
    decreases item,
{
    match item {
        TypeItem::Named { name, parameters, .. } => if parameters.len() == 0 {
            name.1
        } else {
            name.1 + "<"@ + joined(type_texts(parameters), ", "@) + ">"@
        },
        TypeItem::Record { fields, .. } => if fields.len() == 0 {
            "{}"@
        } else {
            "{ "@ + joined(field_texts(fields), ", "@) + " }"@
        },
    }
}

/// The texts of types in turn.
pub open spec fn type_texts(items: Seq<TypeItem>) -> Seq<Seq<char>>
    decreases items,
{
    if items.len() == 0 {
        Seq::empty()
    } else {
        type_texts(items.drop_last()).push(type_text(items.last()))
    }
}

/// The texts of fields in turn: the name, `: ` and the type.
pub open spec fn field_texts(fields: Seq<(Range, (Range, Seq<char>), TypeItem)>) -> Seq<Seq<char>>
    decreases fields,
{
    if fields.len() == 0 {
        Seq::empty()
    } else {
        field_texts(fields.drop_last()).push(
            fields.last().1.1 + ": "@ + type_text(fields.last().2),
        )
    }
}

/// The view of the result of reading a type.
pub open spec fn type_result_view(r: Result<((Range, TypeItemKind), usize), ParseError>) -> Result<
    (TypeItem, int),
    ParseError,
> {
    match r {
        Ok((item, next)) => Ok((type_view(item.0, item.1), next as int)),
        Err(e) => Err(e),
    }
}

/// The view of the result of reading a list of types.
pub open spec fn type_list_view(r: Result<(Vec<(Range, TypeItemKind)>, usize), ParseError>) -> Result<
    (Seq<TypeItem>, int),
    ParseError,
> {
    match r {
        Ok((items, close)) => Ok((items_view(items@), close as int)),
        Err(e) => Err(e),
    }
}

/// The view of the result of reading fields.
pub open spec fn field_list_view(r: Result<(Vec<(Range, RecordTypeField)>, usize), ParseError>) -> Result<
    (Seq<(Range, (Range, Seq<char>), TypeItem)>, int),
    ParseError,
> {
    match r {
        Ok((fields, close)) => Ok((fields_view(fields@), close as int)),
        Err(e) => Err(e),
    }
}

/// The view of a type definition.
pub open spec fn definition_view(range: Range, define: TypeDefine) -> Definition {
    Definition {
        range,
        name: (define.ident.0, define.ident.1.name@),
        item: type_view(define.type_item.0, define.type_item.1),
    }
}

/// The view of the result of reading a type definition.
pub open spec fn definition_result_view(r: Result<((Range, TypeDefine), usize), ParseError>) -> Result<
    (Definition, int),
    ParseError,
> {
    match r {
        Ok((define, next)) => Ok((definition_view(define.0, define.1), next as int)),
        Err(e) => Err(e),
    }
}

fn text_at_is(tokens: &Vec<Token>, i: usize, kind: TokenKind, text: &str) -> (r: bool)
    ensures
        r == text_is(tokens_view(tokens@), i as int, kind, text@),
        r ==> i < tokens.len(),
{
    kind_at(tokens, i, kind) && same_text(tokens[i].text.as_str(), text)
}

/// Whether a type definition starts at `pos`.
pub fn is_type_definition(tokens: &Vec<Token>, pos: usize) -> (r: bool)
    ensures
        r == starts_type_definition(tokens_view(tokens@), pos as int),
        r ==> pos + 1 < tokens.len(),
{
    if !text_at_is(tokens, pos, TokenKind::Name, "type") {
        return false;
    }
    kind_at(tokens, pos + 1, TokenKind::Name)
}

/// Reads the type at `pos`.
pub fn type_item_to_ast(tokens: &Vec<Token>, pos: usize) -> (r: Result<
    ((Range, TypeItemKind), usize),
    ParseError,
>)
    ensures
        type_result_view(r) == type_item_at(tokens_view(tokens@), pos as int),
        r matches Ok((_, next)) ==> pos < next <= tokens.len(),
    decreases tokens.len() - pos, 1int,
{
    if kind_at(tokens, pos, TokenKind::Name) {
        let token = &tokens[pos];
        let name = (token.range, TypeName { name: token.text.clone() });
        if text_at_is(tokens, pos + 1, TokenKind::Compare, "<") {
            let none: Vec<(Range, TypeItemKind)> = Vec::new();
            assert(items_view(none@) =~= Seq::<TypeItem>::empty());
            match type_list_to_ast(tokens, pos + 2, none) {
                Err(e) => Err(e),
                Ok((parameters, close)) => {
                    let range = Range(token.range.0, tokens[close].range.1);
                    let named = NamedType { ident: name, parameters };
                    Ok(((range, TypeItemKind::NamedTypeKind(named)), close + 1))
                },
            }
        } else {
            let named = NamedType { ident: name, parameters: Vec::new() };
            assert(items_view(named.parameters@) =~= Seq::<TypeItem>::empty());
            Ok(((token.range, TypeItemKind::NamedTypeKind(named)), pos + 1))
        }
    } else if kind_at(tokens, pos, TokenKind::LeftBrace) {
        let open = &tokens[pos];
        if kind_at(tokens, pos + 1, TokenKind::RightBrace) {
            let record = RecordType { fields: Vec::new() };
            assert(fields_view(record.fields@) =~= Seq::<
                (Range, (Range, Seq<char>), TypeItem),
            >::empty());
            Ok(
                (
                    (
                        Range(open.range.0, tokens[pos + 1].range.1),
                        TypeItemKind::RecordTypeKind(record),
                    ),
                    pos + 2,
                ),
            )
        } else {
            let none: Vec<(Range, RecordTypeField)> = Vec::new();
            assert(fields_view(none@) =~= Seq::<(Range, (Range, Seq<char>), TypeItem)>::empty());
            match fields_to_ast(tokens, pos + 1, none) {
                Err(e) => Err(e),
                Ok((fields, close)) => {
                    let range = Range(open.range.0, tokens[close].range.1);
                    Ok(((range, TypeItemKind::RecordTypeKind(RecordType { fields })), close + 1))
                },
            }
        }
    } else {
        Err(failure_at(tokens, ParseErrorKind::ExpectedType, pos))
    }
}

fn type_list_to_ast(tokens: &Vec<Token>, pos: usize, done: Vec<(Range, TypeItemKind)>) -> (r: Result<
    (Vec<(Range, TypeItemKind)>, usize),
    ParseError,
>)
    requires
        pos <= tokens.len(),
    ensures
        type_list_view(r) == type_list_at(tokens_view(tokens@), pos as int, items_view(done@)),
        r matches Ok((_, close)) ==> pos < close < tokens.len(),
    decreases tokens.len() - pos, 2int,
{
    match type_item_to_ast(tokens, pos) {
        Err(e) => Err(e),
        Ok((item, p)) => {
            let mut all = done;
            proof {
                assert(all@.push(item).drop_last() =~= all@);
            }
            all.push(item);
            if text_at_is(tokens, p, TokenKind::Compare, ">") {
                Ok((all, p))
            } else if kind_at(tokens, p, TokenKind::Comma) {
                type_list_to_ast(tokens, p + 1, all)
            } else {
                Err(failure_at(tokens, ParseErrorKind::ExpectedCloseAngle, p))
            }
        },
    }
}

fn fields_to_ast(tokens: &Vec<Token>, pos: usize, done: Vec<(Range, RecordTypeField)>) -> (r: Result<
    (Vec<(Range, RecordTypeField)>, usize),
    ParseError,
>)
    requires
        pos <= tokens.len(),
    ensures
        field_list_view(r) == fields_at(tokens_view(tokens@), pos as int, fields_view(done@)),
        r matches Ok((_, close)) ==> pos < close < tokens.len(),
    decreases tokens.len() - pos, 2int,
{
    if !kind_at(tokens, pos, TokenKind::Name) {
        return Err(failure_at(tokens, ParseErrorKind::ExpectedName, pos));
    }
    if !kind_at(tokens, pos + 1, TokenKind::Colon) {
        return Err(failure_at(tokens, ParseErrorKind::ExpectedColon, pos + 1));
    }
    let key = &tokens[pos];
    match type_item_to_ast(tokens, pos + 2) {
        Err(e) => Err(e),
        Ok((item, p)) => {
            let range = Range(key.range.0, item.0.1);
            let field = RecordTypeField {
                key: (key.range, Identifier { name: key.text.clone() }),
                value: item,
            };
            let mut all = done;
            proof {
                assert(type_view(item.0, item.1).range() == item.0);
                assert(field_view(range, field) == (
                    range,
                    (key.range, key.text@),
                    type_view(item.0, item.1),
                ));
                assert(all@.push((range, field)).drop_last() =~= all@);
            }
            all.push((range, field));
            if kind_at(tokens, p, TokenKind::RightBrace) {
                Ok((all, p))
            } else if kind_at(tokens, p, TokenKind::Comma) {
                fields_to_ast(tokens, p + 1, all)
            } else {
                Err(failure_at(tokens, ParseErrorKind::ExpectedCloseBrace, p))
            }
        },
    }
}

/// Reads the type definition at `pos`.
pub fn type_def_to_ast(tokens: &Vec<Token>, pos: usize) -> (r: Result<
    ((Range, TypeDefine), usize),
    ParseError,
>)
    ensures
        definition_result_view(r) == type_def_at(tokens_view(tokens@), pos as int),
        r matches Ok((_, next)) ==> pos < next <= tokens.len(),
{
    if !text_at_is(tokens, pos, TokenKind::Name, "type") {
        return Err(failure_at(tokens, ParseErrorKind::ExpectedType, pos));
    }
    if !kind_at(tokens, pos + 1, TokenKind::Name) {
        return Err(failure_at(tokens, ParseErrorKind::ExpectedName, pos + 1));
    }
    if !text_at_is(tokens, pos + 2, TokenKind::Compare, "=") {
        return Err(failure_at(tokens, ParseErrorKind::ExpectedEquals, pos + 2));
    }
    let name = &tokens[pos + 1];
    match type_item_to_ast(tokens, pos + 3) {
        Err(e) => Err(e),
        Ok((item, p)) => {
            let range = Range(tokens[pos].range.0, item.0.1);
            assert(type_view(item.0, item.1).range() == item.0);
            let define = TypeDefine {
                ident: (name.range, Identifier { name: name.text.clone() }),
                type_item: item,
            };
            Ok(((range, define), p))
        },
    }
}

impl TypeItemKind {
    /// Appends the text of the type to `out`.
    pub(crate) fn write(&self, out: &mut String, Ghost(range): Ghost<Range>)
        ensures
            final(out)@ == old(out)@ + type_text(type_view(range, *self)),
        decreases self,
    {
        match self {
            TypeItemKind::NamedTypeKind(named) => {
                proof {
                    lemma_items_view(named.parameters@);
                }
                out.append(named.ident.1.name.as_str());
                if named.parameters.len() > 0 {
                    out.append("<");
                    let ghost start = out@;
                    let ghost all = items_view(named.parameters@);
                    let mut i: usize = 0;
                    assert(all.take(0) =~= Seq::<TypeItem>::empty());
                    assert(out@ =~= start + joined(type_texts(all.take(0)), ", "@));
                    while i < named.parameters.len()
                        invariant
                            i <= named.parameters.len(),
                            all == items_view(named.parameters@),
                            all.len() == named.parameters.len(),
                            *self == TypeItemKind::NamedTypeKind(*named),
                            type_texts(all.take(i as int)).len() == i,
                            out@ == start + joined(type_texts(all.take(i as int)), ", "@),
                        decreases named.parameters.len() - i,
                    {
                        let ghost before = type_texts(all.take(i as int));
                        let ghost after = type_texts(all.take(i + 1));
                        proof {
                            broadcast use vstd::std_specs::vec::group_vec_axioms;

                            lemma_items_view(named.parameters@);
                            assert(all.take(i + 1).drop_last() =~= all.take(i as int));
                            assert(after.drop_last() =~= before);
                            assert(self->NamedTypeKind_0 == *named);
                            assert(decreases_to!(*self => self->NamedTypeKind_0));
                            assert(decreases_to!(named.parameters => named.parameters[i as int]));
                        }
                        if i > 0 {
                            out.append(", ");
                        }
                        named.parameters[i].1.write(out, Ghost(named.parameters[i as int].0));
                        proof {
                            if i == 0 {
                                assert(joined(before, ", "@) =~= Seq::<char>::empty());
                            }
                            assert(out@ =~= start + joined(after, ", "@));
                        }
                        i = i + 1;
                    }
                    assert(all.take(named.parameters.len() as int) =~= all);
                    out.append(">");
                    assert(final(out)@ =~= old(out)@ + type_text(type_view(range, *self)));
                }
            },
            TypeItemKind::RecordTypeKind(record) => {
                proof {
                    lemma_fields_view(record.fields@);
                }
                if record.fields.len() == 0 {
                    out.append("{}");
                } else {
                    out.append("{ ");
                    let ghost start = out@;
                    let ghost all = fields_view(record.fields@);
                    let mut i: usize = 0;
                    assert(all.take(0) =~= Seq::<(Range, (Range, Seq<char>), TypeItem)>::empty());
                    assert(out@ =~= start + joined(field_texts(all.take(0)), ", "@));
                    while i < record.fields.len()
                        invariant
                            i <= record.fields.len(),
                            all == fields_view(record.fields@),
                            all.len() == record.fields.len(),
                            *self == TypeItemKind::RecordTypeKind(*record),
                            field_texts(all.take(i as int)).len() == i,
                            out@ == start + joined(field_texts(all.take(i as int)), ", "@),
                        decreases record.fields.len() - i,
                    {
                        let ghost before = field_texts(all.take(i as int));
                        let ghost after = field_texts(all.take(i + 1));
                        proof {
                            broadcast use vstd::std_specs::vec::group_vec_axioms;

                            lemma_fields_view(record.fields@);
                            assert(all.take(i + 1).drop_last() =~= all.take(i as int));
                            assert(after.drop_last() =~= before);
                            assert(self->RecordTypeKind_0 == *record);
                            assert(decreases_to!(*self => self->RecordTypeKind_0));
                            assert(decreases_to!(record.fields => record.fields[i as int]));
                        }
                        if i > 0 {
                            out.append(", ");
                        }
                        let field = &record.fields[i].1;
                        out.append(field.key.1.name.as_str());
                        out.append(": ");
                        field.value.1.write(out, Ghost(field.value.0));
                        proof {
                            if i == 0 {
                                assert(joined(before, ", "@) =~= Seq::<char>::empty());
                            }
                            assert(out@ =~= start + joined(after, ", "@));
                        }
                        i = i + 1;
                    }
                    assert(all.take(record.fields.len() as int) =~= all);
                    out.append(" }");
                    assert(final(out)@ =~= old(out)@ + type_text(type_view(range, *self)));
                }
            },
        }
    }
}

} // verus!
