//! The tokens of a formula.
//!
//! A formula is a line of numbers, strings, names and punctuation, with blanks
//! between them where the author likes. A token's range and the position
//! of an error are offsets in bytes of the text's UTF-8 form.

use vstd::prelude::*;
use vstd::utf8::{char_is_scalar, encode_scalar, encode_utf8};
use vstd::string::StringSliceAdditionalSpecFns;
use crate::parse::ast::Range;
use crate::share::text::{chars_of, is_digit, is_digit_char};

verus! {

/// What a token is.
#[derive(Clone, Copy, Debug, PartialEq, Eq, Structural)]
pub enum TokenKind {
    /// Digits, with an optional fraction and an optional exponent.
    Number,
    /// A string between double or single quotes.
    Text,
    Name,
    Plus,
    Minus,
    Star,
    Slash,
    Percent,
    Caret,
    Bang,
    Dot,
    Comma,
    Semicolon,
    LeftParen,
    RightParen,
    LeftBrace,
    RightBrace,
    Colon,
    /// One of `==`, `=`, `!=`, `<>`, `>=`, `<=`, `>`, `<`.
    Compare,
}

/// Why a text is no formula.
#[derive(Clone, Copy, Debug, PartialEq, Eq, Structural)]
pub enum ParseErrorKind {
    /// A character with which no token starts.
    UnexpectedCharacter,
    /// A string without its closing quote.
    UnterminatedString,
    /// A number that ends in a point, lacks the digits of its exponent, or
    /// runs into a name.
    MalformedNumber,
    /// A number that the machine's rationals cannot hold.
    NumberOutOfRange,
    /// An operand was expected: a number, a string, a name or `(`.
    ExpectedOperand,
    /// A name was expected: behind a `.`, or for a field of a record type.
    ExpectedName,
    /// `=` was expected behind the name of a type definition.
    ExpectedEquals,
    /// `:` was expected behind the name of a field.
    ExpectedColon,
    /// A type was expected: a name or `{`.
    ExpectedType,
    /// `,` or `}` was expected behind a field.
    ExpectedCloseBrace,
    /// `,` or `>` was expected behind a type parameter.
    ExpectedCloseAngle,
    /// `)` was expected.
    ExpectedCloseParen,
    /// `,`, `;` or `)` was expected behind an argument.
    ExpectedSeparator,
    /// An operator, `;` or the end was expected behind an expression.
    ExpectedOperator,
}

/// A rejected text: why, and at which offset.
#[derive(Clone, Copy, Debug, PartialEq, Eq, Structural)]
pub struct ParseError {
    pub kind: ParseErrorKind,
    pub position: usize,
}

/// A token: its kind, its text and where it stands.
#[derive(Debug, PartialEq)]
pub struct Token {
    pub kind: TokenKind,
    pub text: String,
    pub range: Range,
}

/// What a token is, with its text as a sequence of characters.
pub struct TokenView {
    pub kind: TokenKind,
    pub text: Seq<char>,
    pub range: Range,
}

impl View for Token {
    type V = TokenView;

    open spec fn view(&self) -> TokenView {
        TokenView { kind: self.kind, text: self.text@, range: self.range }
    }
}

/// The views of a vector of tokens.
pub open spec fn tokens_view(tokens: Seq<Token>) -> Seq<TokenView> {
    tokens.map_values(|t: Token| t@)
}

/// The tokens of a formula, in order.
#[derive(Debug, PartialEq)]
pub struct Formula {
    pub paris: Vec<Token>,
}

/// Whether `c` is a letter, as the standard library tells.
pub uninterp spec fn alphabetic(c: char) -> bool;

/// `char::is_alphabetic` of the standard library.
#[verifier::external_body]
fn is_alphabetic_char(c: char) -> (r: bool)
    ensures
        r == alphabetic(c),
{
    c.is_alphabetic()
}

/// A blank between tokens.
pub open spec fn is_space(c: char) -> bool {
    c == ' ' || c == '\t' || c == '\n' || c == '\r'
}

/// A character that a name starts with: a letter, `_` or `$`.
pub open spec fn is_name_start(c: char) -> bool {
    let v = c as u32;
    (65 <= v <= 90) || (97 <= v <= 122) || c == '_' || c == '$' || (v >= 128 && alphabetic(c))
}

/// A character that a name goes on with: as at its start, or a digit.
pub open spec fn is_name_part(c: char) -> bool {
    is_name_start(c) || is_digit(c)
}

/// The first offset from `i` on that holds no blank.
pub open spec fn skip_spaces(s: Seq<char>, i: int) -> int
    decreases s.len() - i,
{
    if 0 <= i < s.len() && is_space(s[i]) {
        skip_spaces(s, i + 1)
    } else {
        i
    }
}

/// The first offset from `i` on that holds no digit.
pub open spec fn skip_digits(s: Seq<char>, i: int) -> int
    decreases s.len() - i,
{
    if 0 <= i < s.len() && is_digit(s[i]) {
        skip_digits(s, i + 1)
    } else {
        i
    }
}

/// The first offset from `i` on that holds no character of a name.
pub open spec fn skip_name(s: Seq<char>, i: int) -> int
    decreases s.len() - i,
{
    if 0 <= i < s.len() && is_name_part(s[i]) {
        skip_name(s, i + 1)
    } else {
        i
    }
}

/// The offset behind the quote that closes a string whose inside starts at
/// `i`. A backslash takes the character behind it along.
pub open spec fn string_end(s: Seq<char>, i: int, quote: char) -> Option<int>
    decreases s.len() - i,
{
    if !(0 <= i < s.len()) {
        None
    } else if s[i] == quote {
        Some(i + 1)
    } else if s[i] == '\\' && i + 1 < s.len() {
        string_end(s, i + 2, quote)
    } else {
        string_end(s, i + 1, quote)
    }
}

/// The offset behind the number that starts at `i`: digits, then perhaps a
/// point and digits, then perhaps `e` or `E`, a sign and digits. `None` where
/// the number is malformed.
pub open spec fn number_end(s: Seq<char>, i: int) -> Option<int> {
    let whole = skip_digits(s, i);
    let pointed = whole < s.len() && s[whole] == '.';
    let fraction = if pointed {
        skip_digits(s, whole + 1)
    } else {
        whole
    };
    let powered = fraction < s.len() && (s[fraction] == 'e' || s[fraction] == 'E');
    let signed = powered && fraction + 1 < s.len() && (s[fraction + 1] == '+' || s[fraction + 1]
        == '-');
    let digits = if signed {
        fraction + 2
    } else {
        fraction + 1
    };
    let end = if powered {
        skip_digits(s, digits)
    } else {
        fraction
    };
    if pointed && fraction == whole + 1 {
        None
    } else if powered && end == digits {
        None
    } else if end < s.len() && (is_name_start(s[end]) || s[end] == '.') {
        None
    } else {
        Some(end)
    }
}

/// The number of bytes that a character takes in UTF-8.
pub open spec fn utf8_width(c: char) -> int {
    let v = c as u32;
    if v <= 0x7F {
        1
    } else if v <= 0x7FF {
        2
    } else if v <= 0xFFFF {
        3
    } else {
        4
    }
}

/// The offset in bytes of the character `i`: the bytes of the characters
/// before it.
pub open spec fn offset_of(s: Seq<char>, i: int) -> int
    decreases i,
{
    if i <= 0 {
        0
    } else {
        offset_of(s, i - 1) + utf8_width(s[i - 1])
    }
}

/// A token of the given kind that covers the characters from `from` to `to`;
/// its range is in bytes.
pub open spec fn token_of(s: Seq<char>, kind: TokenKind, from: int, to: int) -> TokenView {
    TokenView {
        kind,
        text: s.subrange(from, to),
        range: Range(offset_of(s, from) as usize, offset_of(s, to) as usize),
    }
}

/// The offsets never go back.
pub proof fn lemma_offsets_grow(s: Seq<char>, i: int, j: int)
    requires
        0 <= i <= j,
    ensures
        0 <= offset_of(s, i) <= offset_of(s, j),
        i < j ==> offset_of(s, i) < offset_of(s, j),
    decreases j,
{
    if i < j {
        lemma_offsets_grow(s, i, j - 1);
    } else if i > 0 {
        lemma_offsets_grow(s, i - 1, i - 1);
        lemma_offsets_grow(s, 0, i - 1);
    }
}

/// The offsets of a text without its first character.
pub proof fn lemma_offset_shift(s: Seq<char>, i: int)
    requires
        1 <= i <= s.len(),
    ensures
        offset_of(s, i) == utf8_width(s[0]) + offset_of(s.drop_first(), i - 1),
    decreases i,
{
    if i > 1 {
        lemma_offset_shift(s, i - 1);
        assert(s.drop_first()[i - 2] == s[i - 1]);
    } else {
        assert(offset_of(s, 0) == 0);
        assert(offset_of(s.drop_first(), 0) == 0);
    }
}

/// The offset behind the last character is the length of the text in UTF-8.
pub proof fn lemma_offset_is_bytes(s: Seq<char>)
    ensures
        offset_of(s, s.len() as int) == encode_utf8(s).len(),
    decreases s.len(),
{
    if s.len() > 0 {
        lemma_offset_shift(s, s.len() as int);
        lemma_offset_is_bytes(s.drop_first());
        char_is_scalar(s[0]);
        assert(encode_scalar(s[0] as u32).len() == utf8_width(s[0]));
    }
}

/// `s[i]` is `c`.
pub open spec fn holds(s: Seq<char>, i: int, c: char) -> bool {
    0 <= i < s.len() && s[i] == c
}

/// The kind and the end of the token that starts at `i`, where a blank does
/// not stand.
pub open spec fn token_at(s: Seq<char>, i: int) -> Result<(TokenKind, int), ParseErrorKind> {
    let c = s[i];
    if is_digit(c) {
        match number_end(s, i) {
            Some(end) => Ok((TokenKind::Number, end)),
            None => Err(ParseErrorKind::MalformedNumber),
        }
    } else if c == '"' || c == '\'' {
        match string_end(s, i + 1, c) {
            Some(end) => Ok((TokenKind::Text, end)),
            None => Err(ParseErrorKind::UnterminatedString),
        }
    } else if is_name_start(c) {
        Ok((TokenKind::Name, skip_name(s, i + 1)))
    } else if c == '+' {
        Ok((TokenKind::Plus, i + 1))
    } else if c == '-' {
        Ok((TokenKind::Minus, i + 1))
    } else if c == '*' {
        Ok((TokenKind::Star, i + 1))
    } else if c == '/' {
        Ok((TokenKind::Slash, i + 1))
    } else if c == '%' {
        Ok((TokenKind::Percent, i + 1))
    } else if c == '^' {
        Ok((TokenKind::Caret, i + 1))
    } else if c == '.' {
        Ok((TokenKind::Dot, i + 1))
    } else if c == ',' {
        Ok((TokenKind::Comma, i + 1))
    } else if c == ';' {
        Ok((TokenKind::Semicolon, i + 1))
    } else if c == '(' {
        Ok((TokenKind::LeftParen, i + 1))
    } else if c == ')' {
        Ok((TokenKind::RightParen, i + 1))
    } else if c == '{' {
        Ok((TokenKind::LeftBrace, i + 1))
    } else if c == '}' {
        Ok((TokenKind::RightBrace, i + 1))
    } else if c == ':' {
        Ok((TokenKind::Colon, i + 1))
    } else if c == '!' {
        if holds(s, i + 1, '=') {
            Ok((TokenKind::Compare, i + 2))
        } else {
            Ok((TokenKind::Bang, i + 1))
        }
    } else if c == '=' {
        if holds(s, i + 1, '=') {
            Ok((TokenKind::Compare, i + 2))
        } else {
            Ok((TokenKind::Compare, i + 1))
        }
    } else if c == '<' {
        if holds(s, i + 1, '=') || holds(s, i + 1, '>') {
            Ok((TokenKind::Compare, i + 2))
        } else {
            Ok((TokenKind::Compare, i + 1))
        }
    } else if c == '>' {
        if holds(s, i + 1, '=') {
            Ok((TokenKind::Compare, i + 2))
        } else {
            Ok((TokenKind::Compare, i + 1))
        }
    } else {
        Err(ParseErrorKind::UnexpectedCharacter)
    }
}

/// The tokens of `s` from the offset `i` on, or the first error.
pub open spec fn tokens_from(s: Seq<char>, i: int) -> Result<Seq<TokenView>, ParseError>
    decreases s.len() - i,
{
    let start = skip_spaces(s, i);
    if !(0 <= i <= start < s.len()) {
        Ok(Seq::empty())
    } else {
        match token_at(s, start) {
            Err(kind) => Err(ParseError { kind, position: offset_of(s, start) as usize }),
            Ok((kind, end)) => if start < end <= s.len() {
                match tokens_from(s, end) {
                    Err(e) => Err(e),
                    Ok(rest) => Ok(seq![token_of(s, kind, start, end)] + rest),
                }
            } else {
                Ok(Seq::empty())
            },
        }
    }
}

/// The tokens read so far, before what the rest of the text gives.
pub open spec fn after(done: Seq<TokenView>, rest: Result<Seq<TokenView>, ParseError>) -> Result<
    Seq<TokenView>,
    ParseError,
> {
    match rest {
        Ok(more) => Ok(done + more),
        Err(e) => Err(e),
    }
}

/// The view of the result of reading tokens.
pub open spec fn formula_view(r: Result<Formula, ParseError>) -> Result<Seq<TokenView>, ParseError> {
    match r {
        Ok(f) => Ok(tokens_view(f.paris@)),
        Err(e) => Err(e),
    }
}

/// The scans never go back, and never leave the text.
pub proof fn lemma_skips(s: Seq<char>, i: int)
    requires
        0 <= i <= s.len(),
    ensures
        i <= skip_spaces(s, i) <= s.len(),
        i <= skip_digits(s, i) <= s.len(),
        i <= skip_name(s, i) <= s.len(),
    decreases s.len() - i,
{
    if i < s.len() {
        lemma_skips(s, i + 1);
    }
}

fn space(c: char) -> (r: bool)
    ensures
        r == is_space(c),
{
    c == ' ' || c == '\t' || c == '\n' || c == '\r'
}

fn name_start(c: char) -> (r: bool)
    ensures
        r == is_name_start(c),
{
    let v: u32 = c as u32;
    (65 <= v && v <= 90) || (97 <= v && v <= 122) || c == '_' || c == '$' || (v >= 128
        && is_alphabetic_char(c))
}

fn name_part(c: char) -> (r: bool)
    ensures
        r == is_name_part(c),
{
    name_start(c) || is_digit_char(c)
}

fn scan_spaces(cs: &Vec<char>, i: usize) -> (r: usize)
    requires
        i <= cs.len(),
    ensures
        r == skip_spaces(cs@, i as int),
        i <= r <= cs.len(),
{
    let mut k = i;
    while k < cs.len() && space(cs[k])
        invariant
            i <= k <= cs.len(),
            skip_spaces(cs@, i as int) == skip_spaces(cs@, k as int),
        decreases cs.len() - k,
    {
        k = k + 1;
    }
    k
}

pub(crate) fn scan_digits(cs: &Vec<char>, i: usize) -> (r: usize)
    requires
        i <= cs.len(),
    ensures
        r == skip_digits(cs@, i as int),
        i <= r <= cs.len(),
{
    let mut k = i;
    while k < cs.len() && is_digit_char(cs[k])
        invariant
            i <= k <= cs.len(),
            skip_digits(cs@, i as int) == skip_digits(cs@, k as int),
        decreases cs.len() - k,
    {
        k = k + 1;
    }
    k
}

fn scan_name(cs: &Vec<char>, i: usize) -> (r: usize)
    requires
        i <= cs.len(),
    ensures
        r == skip_name(cs@, i as int),
        i <= r <= cs.len(),
{
    let mut k = i;
    while k < cs.len() && name_part(cs[k])
        invariant
            i <= k <= cs.len(),
            skip_name(cs@, i as int) == skip_name(cs@, k as int),
        decreases cs.len() - k,
    {
        k = k + 1;
    }
    k
}

fn scan_string(cs: &Vec<char>, i: usize, quote: char) -> (r: Option<usize>)
    requires
        i <= cs.len(),
    ensures
        match r {
            Some(end) => string_end(cs@, i as int, quote) == Some(end as int) && i < end
                <= cs.len(),
            None => string_end(cs@, i as int, quote) is None,
        },
{
    let mut k = i;
    while k < cs.len()
        invariant
            i <= k <= cs.len(),
            string_end(cs@, i as int, quote) == string_end(cs@, k as int, quote),
        decreases cs.len() - k,
    {
        if cs[k] == quote {
            return Some(k + 1);
        }
        if cs[k] == '\\' && k + 1 < cs.len() {
            k = k + 2;
        } else {
            k = k + 1;
        }
    }
    None
}

pub(crate) fn is_at(cs: &Vec<char>, i: usize, c: char) -> (r: bool)
    ensures
        r == holds(cs@, i as int, c),
{
    i < cs.len() && cs[i] == c
}

fn scan_number(cs: &Vec<char>, i: usize) -> (r: Option<usize>)
    requires
        i < cs.len(),
    ensures
        match r {
            Some(end) => number_end(cs@, i as int) == Some(end as int) && i <= end <= cs.len(),
            None => number_end(cs@, i as int) is None,
        },
{
    let whole = scan_digits(cs, i);
    let pointed = is_at(cs, whole, '.');
    let fraction = if pointed {
        scan_digits(cs, whole + 1)
    } else {
        whole
    };
    let powered = is_at(cs, fraction, 'e') || is_at(cs, fraction, 'E');
    if pointed && fraction == whole + 1 {
        return None;
    }
    let end = if powered {
        let signed = fraction + 1 < cs.len() && (cs[fraction + 1] == '+' || cs[fraction + 1]
            == '-');
        let digits = if signed {
            fraction + 2
        } else {
            fraction + 1
        };
        let end = scan_digits(cs, digits);
        if end == digits {
            return None;
        }
        end
    } else {
        fraction
    };
    if end < cs.len() && (name_start(cs[end]) || cs[end] == '.') {
        None
    } else {
        Some(end)
    }
}

/// The characters from `from` to `to` as a string.
pub(crate) fn text_between(cs: &Vec<char>, from: usize, to: usize) -> (r: String)
    requires
        from <= to <= cs.len(),
    ensures
        r@ == cs@.subrange(from as int, to as int),
{
    let mut out = String::new();
    let mut k = from;
    assert(out@ =~= cs@.subrange(from as int, from as int));
    while k < to
        invariant
            from <= k <= to,
            to <= cs.len(),
            out@ == cs@.subrange(from as int, k as int),
        decreases to - k,
    {
        out.push(cs[k]);
        assert(out@ =~= cs@.subrange(from as int, k + 1));
        k = k + 1;
    }
    out
}

fn scan_token(cs: &Vec<char>, i: usize) -> (r: Result<(TokenKind, usize), ParseErrorKind>)
    requires
        i < cs.len(),
    ensures
        match r {
            Ok((kind, end)) => token_at(cs@, i as int) == Ok::<(TokenKind, int), ParseErrorKind>(
                (kind, end as int),
            ) && i < end <= cs.len(),
            Err(e) => token_at(cs@, i as int) == Err::<(TokenKind, int), ParseErrorKind>(e),
        },
{
    let c = cs[i];
    if is_digit_char(c) {
        match scan_number(cs, i) {
            Some(end) => {
                proof {
                    lemma_number_end(cs@, i as int);
                }
                Ok((TokenKind::Number, end))
            },
            None => Err(ParseErrorKind::MalformedNumber),
        }
    } else if c == '"' || c == '\'' {
        match scan_string(cs, i + 1, c) {
            Some(end) => Ok((TokenKind::Text, end)),
            None => Err(ParseErrorKind::UnterminatedString),
        }
    } else if name_start(c) {
        Ok((TokenKind::Name, scan_name(cs, i + 1)))
    } else if c == '+' {
        Ok((TokenKind::Plus, i + 1))
    } else if c == '-' {
        Ok((TokenKind::Minus, i + 1))
    } else if c == '*' {
        Ok((TokenKind::Star, i + 1))
    } else if c == '/' {
        Ok((TokenKind::Slash, i + 1))
    } else if c == '%' {
        Ok((TokenKind::Percent, i + 1))
    } else if c == '^' {
        Ok((TokenKind::Caret, i + 1))
    } else if c == '.' {
        Ok((TokenKind::Dot, i + 1))
    } else if c == ',' {
        Ok((TokenKind::Comma, i + 1))
    } else if c == ';' {
        Ok((TokenKind::Semicolon, i + 1))
    } else if c == '(' {
        Ok((TokenKind::LeftParen, i + 1))
    } else if c == ')' {
        Ok((TokenKind::RightParen, i + 1))
    } else if c == '{' {
        Ok((TokenKind::LeftBrace, i + 1))
    } else if c == '}' {
        Ok((TokenKind::RightBrace, i + 1))
    } else if c == ':' {
        Ok((TokenKind::Colon, i + 1))
    } else if c == '!' {
        if is_at(cs, i + 1, '=') {
            Ok((TokenKind::Compare, i + 2))
        } else {
            Ok((TokenKind::Bang, i + 1))
        }
    } else if c == '=' {
        if is_at(cs, i + 1, '=') {
            Ok((TokenKind::Compare, i + 2))
        } else {
            Ok((TokenKind::Compare, i + 1))
        }
    } else if c == '<' {
        if is_at(cs, i + 1, '=') || is_at(cs, i + 1, '>') {
            Ok((TokenKind::Compare, i + 2))
        } else {
            Ok((TokenKind::Compare, i + 1))
        }
    } else if c == '>' {
        if is_at(cs, i + 1, '=') {
            Ok((TokenKind::Compare, i + 2))
        } else {
            Ok((TokenKind::Compare, i + 1))
        }
    } else {
        Err(ParseErrorKind::UnexpectedCharacter)
    }
}

/// A number that starts with a digit ends behind it.
pub proof fn lemma_number_end(s: Seq<char>, i: int)
    requires
        0 <= i < s.len(),
        is_digit(s[i]),
    ensures
        number_end(s, i) matches Some(end) ==> i < end <= s.len(),
{
    lemma_skips(s, i);
    lemma_skips(s, i + 1);
    let whole = skip_digits(s, i);
    assert(whole > i);
    if whole < s.len() {
        lemma_skips(s, whole + 1);
    }
    let pointed = whole < s.len() && s[whole] == '.';
    let fraction = if pointed {
        skip_digits(s, whole + 1)
    } else {
        whole
    };
    if fraction + 1 <= s.len() {
        lemma_skips(s, fraction + 1);
    }
    if fraction + 2 <= s.len() {
        lemma_skips(s, fraction + 2);
    }
}

fn width_of(c: char) -> (r: usize)
    ensures
        r == utf8_width(c),
{
    let v: u32 = c as u32;
    if v <= 0x7F {
        1
    } else if v <= 0x7FF {
        2
    } else if v <= 0xFFFF {
        3
    } else {
        4
    }
}

/// The offset in bytes of the character `to`, from that of the character
/// `from`.
fn advance(cs: &Vec<char>, from: usize, to: usize, offset: usize) -> (r: usize)
    requires
        from <= to <= cs.len(),
        offset == offset_of(cs@, from as int),
        offset_of(cs@, cs.len() as int) <= usize::MAX,
    ensures
        r == offset_of(cs@, to as int),
{
    let mut k = from;
    let mut r = offset;
    while k < to
        invariant
            from <= k <= to,
            to <= cs.len(),
            r == offset_of(cs@, k as int),
            offset_of(cs@, cs.len() as int) <= usize::MAX,
        decreases to - k,
    {
        proof {
            lemma_offsets_grow(cs@, k + 1, cs.len() as int);
        }
        r = r + width_of(cs[k]);
        k = k + 1;
    }
    r
}

impl Formula {
    /// Reads the tokens of a formula.
    pub fn parse(input: &str) -> (r: Result<Formula, ParseError>)
        ensures
            formula_view(r) == tokens_from(input@, 0),
    {
        let cs = chars_of(input);
        let total = input.as_bytes().len();
        proof {
            lemma_offset_is_bytes(cs@);
        }
        let mut tokens: Vec<Token> = Vec::new();
        let mut i: usize = 0;
        let mut at: usize = 0;
        assert(tokens_view(tokens@) =~= Seq::<TokenView>::empty());
        assert(tokens_from(cs@, 0) == after(tokens_view(tokens@), tokens_from(cs@, 0))) by {
            match tokens_from(cs@, 0) {
                Ok(more) => {
                    assert(Seq::<TokenView>::empty() + more =~= more);
                },
                Err(_) => {},
            }
        }
        loop
            invariant
                i <= cs.len(),
                cs@ == input@,
                at == offset_of(cs@, i as int),
                offset_of(cs@, cs.len() as int) == total,
                tokens_from(cs@, 0) == after(tokens_view(tokens@), tokens_from(cs@, i as int)),
            decreases cs.len() - i,
        {
            let start = scan_spaces(&cs, i);
            let first = advance(&cs, i, start, at);
            if start >= cs.len() {
                assert(tokens_view(tokens@) + Seq::<TokenView>::empty() =~= tokens_view(tokens@));
                return Ok(Formula { paris: tokens });
            }
            match scan_token(&cs, start) {
                Err(kind) => {
                    return Err(ParseError { kind, position: first });
                },
                Ok((kind, end)) => {
                    let behind = advance(&cs, start, end, first);
                    let token = Token {
                        kind,
                        text: text_between(&cs, start, end),
                        range: Range(first, behind),
                    };
                    proof {
                        let done = tokens_view(tokens@);
                        assert(token@ == token_of(cs@, kind, start as int, end as int));
                        assert(tokens_view(tokens@.push(token)) =~= done.push(token@));
                        match tokens_from(cs@, end as int) {
                            Ok(rest) => {
                                assert(done + (seq![token@] + rest) =~= done.push(token@) + rest);
                            },
                            Err(_) => {},
                        }
                    }
                    tokens.push(token);
                    i = end;
                    at = behind;
                },
            }
        }
    }
}

} // verus!
