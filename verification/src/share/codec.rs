//! Bytecode as bytes, for a cache.
//!
//! A program is the number of its instructions and the instructions in turn.
//! An instruction is one byte for its kind and then its operands: a number
//! as its sign, the magnitude of its numerator and its denominator; a string
//! as the number of its characters and four bytes for each. Numbers of
//! eight and four bytes have the least byte first.

use vstd::prelude::*;
use vstd::bytes::{
    lemma_auto_spec_u32_to_from_le_bytes, lemma_auto_spec_u64_to_from_le_bytes,
    spec_u32_from_le_bytes, spec_u32_to_le_bytes, spec_u64_from_le_bytes, spec_u64_to_le_bytes,
    u32_from_le_bytes, u32_to_le_bytes, u64_from_le_bytes, u64_to_le_bytes,
};
use vstd::slice::slice_subrange;
use crate::share::operator::{program_view, OperatorCode, OperatorView};
use crate::share::rational::{coprime, lowest_terms, ratio_reduced, Rational};
use crate::share::text::chars_of;

verus! {

/// `v` is the number of a character: a code point that is no surrogate.
pub open spec fn valid_scalar(v: u32) -> bool {
    v <= 0xD7FF || (0xE000 <= v <= 0x10FFFF)
}

/// `char::from_u32`: the character of a code point, or nothing for a
/// surrogate and for a number beyond the code points.
pub assume_specification[ char::from_u32 ](v: u32) -> (r: Option<char>)
    ensures
        r == (if valid_scalar(v) {
            Some(v as char)
        } else {
            None
        }),
;

/// The eight bytes of a number.
pub open spec fn word(v: u64) -> Seq<u8> {
    spec_u64_to_le_bytes(v)
}

/// The four bytes of a character.
pub open spec fn char_bytes(c: char) -> Seq<u8> {
    spec_u32_to_le_bytes(c as u32)
}

/// The bytes of characters in turn.
pub open spec fn chars_bytes(s: Seq<char>) -> Seq<u8>
    decreases s.len(),
{
    if s.len() == 0 {
        Seq::empty()
    } else {
        char_bytes(s[0]) + chars_bytes(s.drop_first())
    }
}

/// The bytes of a string: its length, then its characters.
pub open spec fn text_bytes(s: Seq<char>) -> Seq<u8> {
    word(s.len() as u64) + chars_bytes(s)
}

/// The bytes of a number: one for a minus, the magnitude of the numerator,
/// the denominator.
pub open spec fn number_bytes(n: Rational) -> Seq<u8> {
    if n.num() < 0 {
        seq![1u8] + word((-n.num()) as u64) + word(n.den() as u64)
    } else {
        seq![0u8] + word(n.num() as u64) + word(n.den() as u64)
    }
}

/// The bytes of an instruction.
#[verifier::opaque]
pub open spec fn item_bytes(op: OperatorView) -> Seq<u8> {
    match op {
        OperatorView::Add => seq![0u8],
        OperatorView::Subtract => seq![1u8],
        OperatorView::Multiply => seq![2u8],
        OperatorView::Divide => seq![3u8],
        OperatorView::Modulo => seq![4u8],
        OperatorView::Factorial => seq![5u8],
        OperatorView::Power => seq![6u8],
        OperatorView::PushNumber(n) => seq![7u8] + number_bytes(n),
        OperatorView::PushString(s) => seq![8u8] + text_bytes(s),
        OperatorView::LoadIdentifier(s) => seq![9u8] + text_bytes(s),
        OperatorView::LoadPropertyAccess(s) => seq![10u8] + text_bytes(s),
        OperatorView::FilterExpression(f, o, l) => seq![11u8] + text_bytes(f) + text_bytes(o)
            + text_bytes(l),
        OperatorView::Call(k) => seq![12u8, k],
    }
}

/// The bytes of instructions in turn.
pub open spec fn items_bytes(ops: Seq<OperatorView>) -> Seq<u8>
    decreases ops.len(),
{
    if ops.len() == 0 {
        Seq::empty()
    } else {
        item_bytes(ops[0]) + items_bytes(ops.drop_first())
    }
}

/// The bytes of a program: the number of its instructions, then they.
pub open spec fn encoded(ops: Seq<OperatorView>) -> Seq<u8> {
    word(ops.len() as u64) + items_bytes(ops)
}

/// The number at the front of `b`, and what follows it.
pub open spec fn read_word(b: Seq<u8>) -> Option<(u64, Seq<u8>)> {
    if b.len() >= 8 {
        Some((spec_u64_from_le_bytes(b.take(8)), b.skip(8)))
    } else {
        None
    }
}

/// The character at the front of `b`, and what follows it.
pub open spec fn read_char(b: Seq<u8>) -> Option<(char, Seq<u8>)> {
    if b.len() >= 4 && valid_scalar(spec_u32_from_le_bytes(b.take(4))) {
        Some((spec_u32_from_le_bytes(b.take(4)) as char, b.skip(4)))
    } else {
        None
    }
}

/// The `n` characters at the front of `b`, and what follows them.
pub open spec fn read_chars(b: Seq<u8>, n: nat) -> Option<(Seq<char>, Seq<u8>)>
    decreases n,
{
    if n == 0 {
        Some((Seq::empty(), b))
    } else {
        match read_char(b) {
            None => None,
            Some((c, rest)) => match read_chars(rest, (n - 1) as nat) {
                None => None,
                Some((cs, left)) => Some((seq![c] + cs, left)),
            },
        }
    }
}

/// The string at the front of `b`, and what follows it.
pub open spec fn read_text(b: Seq<u8>) -> Option<(Seq<char>, Seq<u8>)> {
    match read_word(b) {
        None => None,
        Some((n, rest)) => read_chars(rest, n as nat),
    }
}

/// The numerator that a sign and a magnitude stand for, if there is one.
pub open spec fn signed(sign: u8, magnitude: u64) -> Option<i64> {
    if sign == 0 && magnitude <= i64::MAX {
        Some(magnitude as i64)
    } else if sign == 1 && 1 <= magnitude <= 0x8000_0000_0000_0000 {
        Some((-(magnitude as int)) as i64)
    } else {
        None
    }
}

/// The number at the front of `b`, and what follows it. Only a fraction in
/// lowest terms with a positive denominator is one.
pub open spec fn read_number(b: Seq<u8>) -> Option<(Rational, Seq<u8>)> {
    if b.len() < 1 {
        None
    } else {
        match read_word(b.skip(1)) {
            None => None,
            Some((magnitude, rest)) => match read_word(rest) {
                None => None,
                Some((den, left)) => match signed(b[0], magnitude) {
                    None => None,
                    Some(num) => if 1 <= den <= i64::MAX && coprime(num as int, den as int) {
                        Some((Rational::of(num, den as i64), left))
                    } else {
                        None
                    },
                },
            },
        }
    }
}

/// An instruction with one string, read behind its first byte.
pub open spec fn read_one_text(kind: u8, b: Seq<u8>) -> Option<(OperatorView, Seq<u8>)> {
    match read_text(b) {
        None => None,
        Some((s, rest)) => Some(
            (
                if kind == 8 {
                    OperatorView::PushString(s)
                } else if kind == 9 {
                    OperatorView::LoadIdentifier(s)
                } else {
                    OperatorView::LoadPropertyAccess(s)
                },
                rest,
            ),
        ),
    }
}

/// A filter, read behind its first byte.
pub open spec fn read_filter(b: Seq<u8>) -> Option<(OperatorView, Seq<u8>)> {
    match read_text(b) {
        None => None,
        Some((f, r1)) => match read_text(r1) {
            None => None,
            Some((o, r2)) => match read_text(r2) {
                None => None,
                Some((l, r3)) => Some((OperatorView::FilterExpression(f, o, l), r3)),
            },
        },
    }
}

/// The instruction without operands that a first byte stands for.
pub open spec fn plain_item(kind: u8) -> OperatorView {
    if kind == 0 {
        OperatorView::Add
    } else if kind == 1 {
        OperatorView::Subtract
    } else if kind == 2 {
        OperatorView::Multiply
    } else if kind == 3 {
        OperatorView::Divide
    } else if kind == 4 {
        OperatorView::Modulo
    } else if kind == 5 {
        OperatorView::Factorial
    } else {
        OperatorView::Power
    }
}

/// The instruction at the front of `b`, and what follows it.
#[verifier::opaque]
pub open spec fn read_item(b: Seq<u8>) -> Option<(OperatorView, Seq<u8>)> {
    if b.len() < 1 {
        None
    } else if b[0] <= 6 {
        Some((plain_item(b[0]), b.skip(1)))
    } else if b[0] == 7 {
        match read_number(b.skip(1)) {
            None => None,
            Some((n, rest)) => Some((OperatorView::PushNumber(n), rest)),
        }
    } else if b[0] <= 10 {
        read_one_text(b[0], b.skip(1))
    } else if b[0] == 11 {
        read_filter(b.skip(1))
    } else if b[0] == 12 && b.len() >= 2 {
        Some((OperatorView::Call(b[1]), b.skip(2)))
    } else {
        None
    }
}

/// The `n` instructions at the front of `b`, and what follows them.
pub open spec fn read_items(b: Seq<u8>, n: nat) -> Option<(Seq<OperatorView>, Seq<u8>)>
    decreases n,
{
    if n == 0 {
        Some((Seq::empty(), b))
    } else {
        match read_item(b) {
            None => None,
            Some((op, rest)) => match read_items(rest, (n - 1) as nat) {
                None => None,
                Some((ops, left)) => Some((seq![op] + ops, left)),
            },
        }
    }
}

/// The program that bytes stand for, if they stand for one and for nothing
/// more.
pub open spec fn decoded(b: Seq<u8>) -> Option<Seq<OperatorView>> {
    match read_word(b) {
        None => None,
        Some((n, rest)) => match read_items(rest, n as nat) {
            None => None,
            Some((ops, left)) => if left.len() == 0 {
                Some(ops)
            } else {
                None
            },
        },
    }
}

/// An instruction whose number is in lowest terms and whose strings are of
/// a length that eight bytes can hold.
pub open spec fn valid_item(op: OperatorView) -> bool {
    match op {
        OperatorView::PushNumber(n) => lowest_terms(n.num(), n.den()),
        OperatorView::PushString(s) => s.len() <= u64::MAX,
        OperatorView::LoadIdentifier(s) => s.len() <= u64::MAX,
        OperatorView::LoadPropertyAccess(s) => s.len() <= u64::MAX,
        OperatorView::FilterExpression(f, o, l) => f.len() <= u64::MAX && o.len() <= u64::MAX
            && l.len() <= u64::MAX,
        _ => true,
    }
}

/// A program of valid instructions, of a length that eight bytes can hold.
pub open spec fn valid_program(ops: Seq<OperatorView>) -> bool {
    ops.len() <= u64::MAX && forall|i: int| 0 <= i < ops.len() ==> valid_item(#[trigger] ops[i])
}

/// A number that was written is read again.
pub proof fn lemma_read_word(v: u64, rest: Seq<u8>)
    ensures
        read_word(word(v) + rest) == Some((v, rest)),
        word(v).len() == 8,
{
    lemma_auto_spec_u64_to_from_le_bytes();
    assert((word(v) + rest).take(8) =~= word(v));
    assert((word(v) + rest).skip(8) =~= rest);
}

/// A character that was written is read again.
pub proof fn lemma_read_char(c: char, rest: Seq<u8>)
    ensures
        read_char(char_bytes(c) + rest) == Some((c, rest)),
        char_bytes(c).len() == 4,
{
    lemma_auto_spec_u32_to_from_le_bytes();
    assert((char_bytes(c) + rest).take(4) =~= char_bytes(c));
    assert((char_bytes(c) + rest).skip(4) =~= rest);
}

/// Characters that were written are read again.
pub proof fn lemma_read_chars(s: Seq<char>, rest: Seq<u8>)
    ensures
        read_chars(chars_bytes(s) + rest, s.len()) == Some((s, rest)),
    decreases s.len(),
{
    if s.len() == 0 {
        assert(chars_bytes(s) + rest =~= rest);
        assert(s =~= Seq::<char>::empty());
    } else {
        let tail = s.drop_first();
        lemma_read_char(s[0], chars_bytes(tail) + rest);
        lemma_read_chars(tail, rest);
        assert(chars_bytes(s) + rest =~= char_bytes(s[0]) + (chars_bytes(tail) + rest));
        assert(seq![s[0]] + tail =~= s);
    }
}

/// A string that was written is read again.
pub proof fn lemma_read_text(s: Seq<char>, rest: Seq<u8>)
    requires
        s.len() <= u64::MAX,
    ensures
        read_text(text_bytes(s) + rest) == Some((s, rest)),
{
    lemma_read_word(s.len() as u64, chars_bytes(s) + rest);
    lemma_read_chars(s, rest);
    assert(text_bytes(s) + rest =~= word(s.len() as u64) + (chars_bytes(s) + rest));
}

/// A number that was written is read again.
pub proof fn lemma_read_number(n: Rational, rest: Seq<u8>)
    requires
        lowest_terms(n.num(), n.den()),
    ensures
        read_number(number_bytes(n) + rest) == Some((n, rest)),
{
    n.lemma_parts();
    let magnitude = if n.num() < 0 {
        (-n.num()) as u64
    } else {
        n.num() as u64
    };
    let sign = if n.num() < 0 {
        1u8
    } else {
        0u8
    };
    let den = n.den() as u64;
    let all = number_bytes(n) + rest;
    assert(all =~= seq![sign] + (word(magnitude) + (word(den) + rest)));
    assert(all.skip(1) =~= word(magnitude) + (word(den) + rest));
    lemma_read_word(magnitude, word(den) + rest);
    lemma_read_word(den, rest);
    assert(all[0] == sign);
    assert(signed(sign, magnitude) == Some(n.num() as i64));
}

/// An instruction that was written is read again.
pub proof fn lemma_read_item(op: OperatorView, rest: Seq<u8>)
    requires
        valid_item(op),
    ensures
        read_item(item_bytes(op) + rest) == Some((op, rest)),
{
    reveal(item_bytes);
    reveal(read_item);
    let all = item_bytes(op) + rest;
    match op {
        OperatorView::PushNumber(n) => {
            assert(all =~= seq![7u8] + (number_bytes(n) + rest));
            assert(all.skip(1) =~= number_bytes(n) + rest);
            lemma_read_number(n, rest);
        },
        OperatorView::PushString(s) => {
            assert(all =~= seq![8u8] + (text_bytes(s) + rest));
            assert(all.skip(1) =~= text_bytes(s) + rest);
            lemma_read_text(s, rest);
        },
        OperatorView::LoadIdentifier(s) => {
            assert(all =~= seq![9u8] + (text_bytes(s) + rest));
            assert(all.skip(1) =~= text_bytes(s) + rest);
            lemma_read_text(s, rest);
        },
        OperatorView::LoadPropertyAccess(s) => {
            assert(all =~= seq![10u8] + (text_bytes(s) + rest));
            assert(all.skip(1) =~= text_bytes(s) + rest);
            lemma_read_text(s, rest);
        },
        OperatorView::FilterExpression(f, o, l) => {
            assert(all =~= seq![11u8] + (text_bytes(f) + (text_bytes(o) + (text_bytes(l) + rest))));
            assert(all.skip(1) =~= text_bytes(f) + (text_bytes(o) + (text_bytes(l) + rest)));
            lemma_read_text(f, text_bytes(o) + (text_bytes(l) + rest));
            lemma_read_text(o, text_bytes(l) + rest);
            lemma_read_text(l, rest);
        },
        OperatorView::Call(k) => {
            assert(all.skip(2) =~= rest);
        },
        _ => {
            assert(all.skip(1) =~= rest);
        },
    }
}

/// Instructions that were written are read again.
pub proof fn lemma_read_items(ops: Seq<OperatorView>, rest: Seq<u8>)
    requires
        forall|i: int| 0 <= i < ops.len() ==> valid_item(#[trigger] ops[i]),
    ensures
        read_items(items_bytes(ops) + rest, ops.len()) == Some((ops, rest)),
    decreases ops.len(),
{
    if ops.len() == 0 {
        assert(items_bytes(ops) + rest =~= rest);
        assert(ops =~= Seq::<OperatorView>::empty());
    } else {
        let tail = ops.drop_first();
        assert(valid_item(ops[0]));
        assert forall|i: int| 0 <= i < tail.len() implies valid_item(#[trigger] tail[i]) by {
            assert(tail[i] == ops[i + 1]);
        }
        lemma_read_item(ops[0], items_bytes(tail) + rest);
        lemma_read_items(tail, rest);
        assert(items_bytes(ops) + rest =~= item_bytes(ops[0]) + (items_bytes(tail) + rest));
        assert(seq![ops[0]] + tail =~= ops);
    }
}

/// The round trip: the bytes of a program stand for that program.
pub proof fn lemma_round_trip(ops: Seq<OperatorView>)
    requires
        valid_program(ops),
    ensures
        decoded(encoded(ops)) == Some(ops),
{
    lemma_read_word(ops.len() as u64, items_bytes(ops));
    lemma_read_items(ops, Seq::empty());
    assert(items_bytes(ops) + Seq::<u8>::empty() =~= items_bytes(ops));
}

/// The bytes of characters with one more.
pub proof fn lemma_chars_bytes_push(s: Seq<char>, c: char)
    ensures
        chars_bytes(s.push(c)) == chars_bytes(s) + char_bytes(c),
    decreases s.len(),
{
    if s.len() == 0 {
        assert(s.push(c).drop_first() =~= Seq::<char>::empty());
        assert(s.push(c)[0] == c);
        assert(chars_bytes(s.push(c)) == char_bytes(c) + chars_bytes(s.push(c).drop_first()));
        assert(chars_bytes(s.push(c)) =~= chars_bytes(s) + char_bytes(c));
    } else {
        assert(s.push(c).drop_first() =~= s.drop_first().push(c));
        assert(s.push(c)[0] == s[0]);
        lemma_chars_bytes_push(s.drop_first(), c);
        assert(chars_bytes(s.push(c)) == char_bytes(s[0]) + chars_bytes(s.push(c).drop_first()));
        assert(chars_bytes(s.push(c)) =~= chars_bytes(s) + char_bytes(c));
    }
}

/// The bytes of instructions with one more.
pub proof fn lemma_items_bytes_push(ops: Seq<OperatorView>, op: OperatorView)
    ensures
        items_bytes(ops.push(op)) == items_bytes(ops) + item_bytes(op),
    decreases ops.len(),
{
    if ops.len() == 0 {
        assert(ops.push(op).drop_first() =~= Seq::<OperatorView>::empty());
        assert(ops.push(op)[0] == op);
        assert(items_bytes(ops.push(op)) == item_bytes(op) + items_bytes(
            ops.push(op).drop_first(),
        ));
        assert(items_bytes(ops.push(op)) =~= items_bytes(ops) + item_bytes(op));
    } else {
        assert(ops.push(op).drop_first() =~= ops.drop_first().push(op));
        assert(ops.push(op)[0] == ops[0]);
        lemma_items_bytes_push(ops.drop_first(), op);
        assert(items_bytes(ops.push(op)) == item_bytes(ops[0]) + items_bytes(
            ops.push(op).drop_first(),
        ));
        assert(items_bytes(ops.push(op)) =~= items_bytes(ops) + item_bytes(op));
    }
}

fn put_word(out: &mut Vec<u8>, v: u64)
    ensures
        final(out)@ == old(out)@ + word(v),
{
    let mut bytes = u64_to_le_bytes(v);
    out.append(&mut bytes);
}

fn put_text(out: &mut Vec<u8>, s: &String)
    ensures
        final(out)@ == old(out)@ + text_bytes(s@),
        s@.len() <= u64::MAX,
{
    let cs = chars_of(s.as_str());
    put_word(out, cs.len() as u64);
    let ghost start = out@;
    let mut i: usize = 0;
    assert(cs@.take(0) =~= Seq::<char>::empty());
    assert(out@ =~= start + chars_bytes(cs@.take(0)));
    while i < cs.len()
        invariant
            i <= cs.len(),
            out@ == start + chars_bytes(cs@.take(i as int)),
        decreases cs.len() - i,
    {
        let mut bytes = u32_to_le_bytes(cs[i] as u32);
        proof {
            lemma_chars_bytes_push(cs@.take(i as int), cs@[i as int]);
            assert(cs@.take(i + 1) =~= cs@.take(i as int).push(cs@[i as int]));
            assert(start + (chars_bytes(cs@.take(i as int)) + char_bytes(cs@[i as int])) =~= start
                + chars_bytes(cs@.take(i as int)) + char_bytes(cs@[i as int]));
        }
        out.append(&mut bytes);
        i = i + 1;
    }
    assert(cs@.take(cs.len() as int) =~= cs@);
    assert(out@ =~= old(out)@ + text_bytes(s@));
}

fn put_number(out: &mut Vec<u8>, n: &Rational)
    ensures
        final(out)@ == old(out)@ + number_bytes(*n),
        lowest_terms(n.num(), n.den()),
{
    let numer = n.numer();
    let denom = n.denom();
    if numer < 0 {
        let magnitude: u64 = if numer == i64::MIN {
            0x8000_0000_0000_0000
        } else {
            (-numer) as u64
        };
        out.push(1);
        put_word(out, magnitude);
        put_word(out, denom as u64);
        assert(final(out)@ =~= old(out)@ + number_bytes(*n));
    } else {
        out.push(0);
        put_word(out, numer as u64);
        put_word(out, denom as u64);
        assert(final(out)@ =~= old(out)@ + number_bytes(*n));
    }
}

fn put_item(out: &mut Vec<u8>, op: &OperatorCode)
    ensures
        final(out)@ == old(out)@ + item_bytes(op@),
        valid_item(op@),
{
    reveal(item_bytes);
    match op {
        OperatorCode::Add => {
            out.push(0);
        },
        OperatorCode::Subtract => {
            out.push(1);
        },
        OperatorCode::Multiply => {
            out.push(2);
        },
        OperatorCode::Divide => {
            out.push(3);
        },
        OperatorCode::Modulo => {
            out.push(4);
        },
        OperatorCode::Factorial => {
            out.push(5);
        },
        OperatorCode::Power => {
            out.push(6);
        },
        OperatorCode::PushNumber(n) => {
            out.push(7);
            put_number(out, n);
        },
        OperatorCode::PushString(s) => {
            out.push(8);
            put_text(out, s);
        },
        OperatorCode::LoadIdentifier(s) => {
            out.push(9);
            put_text(out, s);
        },
        OperatorCode::LoadPropertyAccess(s) => {
            out.push(10);
            put_text(out, s);
        },
        OperatorCode::FilterExpression(f, o, l) => {
            out.push(11);
            put_text(out, f);
            put_text(out, o);
            put_text(out, l);
        },
        OperatorCode::Call(k) => {
            out.push(12);
            out.push(*k);
        },
    }
    assert(final(out)@ =~= old(out)@ + item_bytes(op@));
}

/// Writes a program as bytes, from which `decode` reads it again.
pub fn encode(codes: &Vec<OperatorCode>) -> (r: Vec<u8>)
    ensures
        r@ == encoded(program_view(codes@)),
        decoded(r@) == Some(program_view(codes@)),
{
    let mut out: Vec<u8> = Vec::new();
    put_word(&mut out, codes.len() as u64);
    let ghost ops = program_view(codes@);
    let ghost start = out@;
    let mut i: usize = 0;
    assert(ops.take(0) =~= Seq::<OperatorView>::empty());
    assert(out@ =~= start + items_bytes(ops.take(0)));
    while i < codes.len()
        invariant
            i <= codes.len(),
            ops == program_view(codes@),
            out@ == start + items_bytes(ops.take(i as int)),
            forall|j: int| 0 <= j < i ==> valid_item(#[trigger] ops[j]),
        decreases codes.len() - i,
    {
        proof {
            lemma_items_bytes_push(ops.take(i as int), ops[i as int]);
            assert(ops.take(i + 1) =~= ops.take(i as int).push(ops[i as int]));
            assert(start + (items_bytes(ops.take(i as int)) + item_bytes(ops[i as int])) =~= start
                + items_bytes(ops.take(i as int)) + item_bytes(ops[i as int]));
        }
        put_item(&mut out, &codes[i]);
        i = i + 1;
    }
    assert(ops.take(codes.len() as int) =~= ops);
    assert(out@ =~= encoded(ops));
    proof {
        lemma_round_trip(ops);
    }
    out
}

fn take_word(bytes: &Vec<u8>, pos: usize) -> (r: Option<(u64, usize)>)
    requires
        pos <= bytes.len(),
    ensures
        match r {
            Some((v, next)) => read_word(bytes@.skip(pos as int)) == Some(
                (v, bytes@.skip(next as int)),
            ) && pos < next <= bytes.len(),
            None => read_word(bytes@.skip(pos as int)) is None,
        },
{
    if bytes.len() - pos < 8 {
        return None;
    }
    let v = u64_from_le_bytes(slice_subrange(bytes.as_slice(), pos, pos + 8));
    proof {
        assert(bytes@.skip(pos as int).take(8) =~= bytes@.subrange(pos as int, pos + 8));
        assert(bytes@.skip(pos as int).skip(8) =~= bytes@.skip(pos + 8));
    }
    Some((v, pos + 8))
}

fn take_char(bytes: &Vec<u8>, pos: usize) -> (r: Option<(char, usize)>)
    requires
        pos <= bytes.len(),
    ensures
        match r {
            Some((c, next)) => read_char(bytes@.skip(pos as int)) == Some(
                (c, bytes@.skip(next as int)),
            ) && pos < next <= bytes.len(),
            None => read_char(bytes@.skip(pos as int)) is None,
        },
{
    if bytes.len() - pos < 4 {
        return None;
    }
    let v = u32_from_le_bytes(slice_subrange(bytes.as_slice(), pos, pos + 4));
    proof {
        assert(bytes@.skip(pos as int).take(4) =~= bytes@.subrange(pos as int, pos + 4));
        assert(bytes@.skip(pos as int).skip(4) =~= bytes@.skip(pos + 4));
    }
    match char::from_u32(v) {
        Some(c) => Some((c, pos + 4)),
        None => None,
    }
}

/// The characters read so far, before what the rest of the bytes gives.
pub open spec fn chars_after(done: Seq<char>, rest: Option<(Seq<char>, Seq<u8>)>) -> Option<
    (Seq<char>, Seq<u8>),
> {
    match rest {
        Some((cs, left)) => Some((done + cs, left)),
        None => None,
    }
}

fn take_text(bytes: &Vec<u8>, pos: usize) -> (r: Option<(String, usize)>)
    requires
        pos <= bytes.len(),
    ensures
        match r {
            Some((s, next)) => read_text(bytes@.skip(pos as int)) == Some(
                (s@, bytes@.skip(next as int)),
            ) && pos < next <= bytes.len(),
            None => read_text(bytes@.skip(pos as int)) is None,
        },
{
    let (count, first) = match take_word(bytes, pos) {
        Some(found) => found,
        None => {
            return None;
        },
    };
    let ghost whole = read_chars(bytes@.skip(first as int), count as nat);
    let mut out = String::new();
    let mut at = first;
    let mut i: u64 = 0;
    proof {
        match whole {
            Some((cs, left)) => {
                assert(Seq::<char>::empty() + cs =~= cs);
            },
            None => {},
        }
    }
    while i < count
        invariant
            i <= count,
            first <= at <= bytes.len(),
            pos < first,
            read_text(bytes@.skip(pos as int)) == whole,
            whole == read_chars(bytes@.skip(first as int), count as nat),
            whole == chars_after(out@, read_chars(bytes@.skip(at as int), (count - i) as nat)),
        decreases count - i,
    {
        match take_char(bytes, at) {
            None => {
                return None;
            },
            Some((c, next)) => {
                proof {
                    match read_chars(bytes@.skip(next as int), (count - i - 1) as nat) {
                        Some((cs, left)) => {
                            assert(out@ + (seq![c] + cs) =~= out@.push(c) + cs);
                        },
                        None => {},
                    }
                }
                out.push(c);
                at = next;
            },
        }
        i = i + 1;
    }
    assert(out@ + Seq::<char>::empty() =~= out@);
    Some((out, at))
}

fn take_number(bytes: &Vec<u8>, pos: usize) -> (r: Option<(Rational, usize)>)
    requires
        pos <= bytes.len(),
    ensures
        match r {
            Some((n, next)) => read_number(bytes@.skip(pos as int)) == Some(
                (n, bytes@.skip(next as int)),
            ) && pos < next <= bytes.len(),
            None => read_number(bytes@.skip(pos as int)) is None,
        },
{
    if pos >= bytes.len() {
        return None;
    }
    let sign = bytes[pos];
    assert(bytes@.skip(pos as int)[0] == sign);
    assert(bytes@.skip(pos as int).skip(1) =~= bytes@.skip(pos + 1));
    let (magnitude, second) = match take_word(bytes, pos + 1) {
        Some(found) => found,
        None => {
            return None;
        },
    };
    let (den, next) = match take_word(bytes, second) {
        Some(found) => found,
        None => {
            return None;
        },
    };
    let num: i64 = if sign == 0 && magnitude <= 0x7fff_ffff_ffff_ffff {
        magnitude as i64
    } else if sign == 1 && 1 <= magnitude && magnitude <= 0x8000_0000_0000_0000 {
        if magnitude == 0x8000_0000_0000_0000 {
            i64::MIN
        } else {
            -(magnitude as i64)
        }
    } else {
        return None;
    };
    if den < 1 || den > 0x7fff_ffff_ffff_ffff {
        return None;
    }
    let value = ratio_reduced(num, den as i64);
    if value.numer() == num && value.denom() == den as i64 {
        proof {
            Rational::lemma_of(num, den as i64);
            Rational::lemma_eq(value, Rational::of(num, den as i64));
        }
        Some((value, next))
    } else {
        None
    }
}

fn take_item(bytes: &Vec<u8>, pos: usize) -> (r: Option<(OperatorCode, usize)>)
    requires
        pos <= bytes.len(),
    ensures
        match r {
            Some((op, next)) => read_item(bytes@.skip(pos as int)) == Some(
                (op@, bytes@.skip(next as int)),
            ) && pos < next <= bytes.len(),
            None => read_item(bytes@.skip(pos as int)) is None,
        },
{
    reveal(read_item);
    if pos >= bytes.len() {
        return None;
    }
    let kind = bytes[pos];
    let ghost b = bytes@.skip(pos as int);
    assert(b[0] == kind);
    assert(b.skip(1) =~= bytes@.skip(pos + 1));
    if kind <= 6 {
        let op = if kind == 0 {
            OperatorCode::Add
        } else if kind == 1 {
            OperatorCode::Subtract
        } else if kind == 2 {
            OperatorCode::Multiply
        } else if kind == 3 {
            OperatorCode::Divide
        } else if kind == 4 {
            OperatorCode::Modulo
        } else if kind == 5 {
            OperatorCode::Factorial
        } else {
            OperatorCode::Power
        };
        Some((op, pos + 1))
    } else if kind == 7 {
        match take_number(bytes, pos + 1) {
            Some((n, next)) => Some((OperatorCode::PushNumber(n), next)),
            None => None,
        }
    } else if kind <= 10 {
        match take_text(bytes, pos + 1) {
            Some((s, next)) => {
                let op = if kind == 8 {
                    OperatorCode::PushString(s)
                } else if kind == 9 {
                    OperatorCode::LoadIdentifier(s)
                } else {
                    OperatorCode::LoadPropertyAccess(s)
                };
                Some((op, next))
            },
            None => None,
        }
    } else if kind == 11 {
        let (f, second) = match take_text(bytes, pos + 1) {
            Some(found) => found,
            None => {
                return None;
            },
        };
        let (o, third) = match take_text(bytes, second) {
            Some(found) => found,
            None => {
                return None;
            },
        };
        match take_text(bytes, third) {
            Some((l, next)) => Some((OperatorCode::FilterExpression(f, o, l), next)),
            None => None,
        }
    } else if kind == 12 && bytes.len() - pos >= 2 {
        assert(b[1] == bytes@[pos + 1]);
        assert(b.skip(2) =~= bytes@.skip(pos + 2));
        Some((OperatorCode::Call(bytes[pos + 1]), pos + 2))
    } else {
        None
    }
}

/// The instructions read so far, before what the rest of the bytes gives.
pub open spec fn items_after(done: Seq<OperatorView>, rest: Option<(Seq<OperatorView>, Seq<u8>)>) -> Option<
    (Seq<OperatorView>, Seq<u8>),
> {
    match rest {
        Some((ops, left)) => Some((done + ops, left)),
        None => None,
    }
}

/// What `decode` gives.
pub open spec fn decode_view(r: Option<Vec<OperatorCode>>) -> Option<Seq<OperatorView>> {
    match r {
        Some(codes) => Some(program_view(codes@)),
        None => None,
    }
}

/// Reads a program from bytes, if they stand for one.
pub fn decode(bytes: &Vec<u8>) -> (r: Option<Vec<OperatorCode>>)
    ensures
        decode_view(r) == decoded(bytes@),
{
    assert(bytes@.skip(0) =~= bytes@);
    let (count, first) = match take_word(bytes, 0) {
        Some(found) => found,
        None => {
            return None;
        },
    };
    let ghost whole = read_items(bytes@.skip(first as int), count as nat);
    let mut codes: Vec<OperatorCode> = Vec::new();
    let mut at = first;
    let mut i: u64 = 0;
    proof {
        assert(program_view(codes@) =~= Seq::<OperatorView>::empty());
        match whole {
            Some((ops, left)) => {
                assert(Seq::<OperatorView>::empty() + ops =~= ops);
            },
            None => {},
        }
    }
    while i < count
        invariant
            i <= count,
            first <= at <= bytes.len(),
            read_word(bytes@) == Some((count, bytes@.skip(first as int))),
            whole == read_items(bytes@.skip(first as int), count as nat),
            whole == items_after(
                program_view(codes@),
                read_items(bytes@.skip(at as int), (count - i) as nat),
            ),
        decreases count - i,
    {
        match take_item(bytes, at) {
            None => {
                return None;
            },
            Some((op, next)) => {
                proof {
                    let done = program_view(codes@);
                    assert(program_view(codes@.push(op)) =~= done.push(op@));
                    match read_items(bytes@.skip(next as int), (count - i - 1) as nat) {
                        Some((ops, left)) => {
                            assert(done + (seq![op@] + ops) =~= done.push(op@) + ops);
                        },
                        None => {},
                    }
                }
                codes.push(op);
                at = next;
            },
        }
        i = i + 1;
    }
    assert(program_view(codes@) + Seq::<OperatorView>::empty() =~= program_view(codes@));
    if at == bytes.len() {
        Some(codes)
    } else {
        None
    }
}

} // verus!
