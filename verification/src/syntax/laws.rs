//! What holds of every source: where the spans of its tokens lie, and how
//! many lines the tokenizer finds in it.

use vstd::prelude::*;
use crate::chars::{digit_of, java_ident_part, java_ident_start, java_whitespace};
use crate::diagnostics::ReportView;
use crate::filemap::Span;
use crate::syntax::ast::Modifier;
use crate::syntax::decode::{decoded_text, fetch, lemma_units, tail, units};
use crate::syntax::lexing::{
    bump, bump_n, char_at, comment_starts, fatal, fault_at, invalid_digit_message, left,
    lemma_pos_monotone, Lexing, lines_upto, next_real_token, next_token, number_starts, pos_at,
    scan_digits, scan_float_exp, scan_number_literal, scan_radix, scan_whole, scan_word,
    skip_whitespace, symbol, word_token,
};
use crate::syntax::parsing::{
    advance, has_modifier, lemma_advance, modifier_of, ordered, parse_modifiers, Parsing, work_left,
};
use crate::syntax::lexemes::{lemma_symbol_is_its_lexeme, spelled};
use crate::syntax::progress::{lemma_bump_n, lemma_next_token, lemma_skip_whitespace};
use crate::syntax::token::{lemma_keyword_round_trip, LitView, TokenView};
use crate::text::byte_len;

verus! {

/// Whether the character with index `k` ends a line of `text`: a line
/// feed, or a carriage return that no line feed follows.
pub open spec fn ends_line(text: Seq<char>, k: int) -> bool {
    text[k] == '\n' || (text[k] == '\r' && (k + 1 >= text.len() || text[k + 1] != '\n'))
}

/// Number of characters of `text` up to index `k` that end a line.
pub open spec fn breaks_upto(text: Seq<char>, k: int) -> nat
    decreases k + 1,
{
    if k < 0 {
        0
    } else {
        breaks_upto(text, k - 1) + if k < text.len() && ends_line(text, k) {
            1nat
        } else {
            0nat
        }
    }
}

/// Number of line terminators in `text`, where a carriage return with the
/// line feed behind it counts once.
pub open spec fn line_breaks(text: Seq<char>) -> nat {
    breaks_upto(text, text.len() - 1)
}

/// Once character `k` is the current one, the tokenizer has recorded one
/// line start for each line terminator that ends up to it, and the start
/// of the first line.
pub proof fn lemma_lines_counted(raw: Seq<char>, k: int)
    requires
        -1 <= k < units(raw).len(),
    ensures
        lines_upto(raw, k).len() == 1 + breaks_upto(decoded_text(raw), k),
    decreases k + 1,
{
    lemma_units(raw);
    if k >= 0 {
        lemma_lines_counted(raw, k - 1);
    }
}

/// Behind the last character no line start is added.
pub proof fn lemma_lines_settle(raw: Seq<char>, k: int)
    requires
        k >= units(raw).len() - 1,
    ensures
        lines_upto(raw, k) == lines_upto(raw, units(raw).len() - 1),
    decreases k + 1,
{
    if k > units(raw).len() - 1 {
        lemma_lines_settle(raw, k - 1);
    }
}

/// After the whole source was read, the number of line starts recorded
/// behind the first is the number of line terminators in the source, its
/// unicode escapes resolved.
pub proof fn lemma_all_lines_found(raw: Seq<char>, s: Lexing)
    requires
        s.at >= 0,
        char_at(raw, s.at) is None,
    ensures
        lines_upto(raw, s.at).len() - 1 == line_breaks(decoded_text(raw)),
{
    lemma_units(raw);
    lemma_lines_settle(raw, s.at);
    lemma_lines_counted(raw, units(raw).len() - 1);
}

/// The span of a token lies in the source: it starts where the tokenizer
/// stood and ends where the tokenizer stands then, and it is not empty.
pub proof fn lemma_token_span(raw: Seq<char>, s: Lexing)
    requires
        s.at >= 0,
        byte_len(raw) <= usize::MAX,
    ensures
        next_token(raw, s).1 matches Some(t) ==> {
            let then = next_token(raw, s).0;
            &&& s.at < then.at
            &&& t.span.lo == pos_at(raw, s.at)
            &&& t.span.hi == pos_at(raw, then.at)
            &&& t.span.lo < t.span.hi <= byte_len(raw)
        },
{
    lemma_next_token(raw, s);
    let then = next_token(raw, s).0;
    if next_token(raw, s).1 is Some {
        lemma_pos_monotone(raw, s.at, then.at);
    }
}

/// The span of a token holds the characters that the token was read from,
/// and no other: a character of the source starts inside the span if and
/// only if the tokenizer passed over it while it read the token. So the
/// text of the source in the span, its unicode escapes resolved, is the
/// lexeme of the token.
pub proof fn lemma_span_holds_the_lexeme(raw: Seq<char>, s: Lexing, k: int)
    requires
        s.at >= 0,
        byte_len(raw) <= usize::MAX,
        next_token(raw, s).1 is Some,
        0 <= k < units(raw).len(),
    ensures
        ({
            let then = next_token(raw, s).0;
            let span = next_token(raw, s).1.unwrap().span;
            (s.at <= k < then.at) <==> (span.lo <= pos_at(raw, k) < span.hi)
        }),
{
    let then = next_token(raw, s).0;
    lemma_token_span(raw, s);
    lemma_pos_monotone(raw, k, k);
    if k < s.at {
        lemma_pos_monotone(raw, k, s.at);
    } else {
        lemma_pos_monotone(raw, s.at, k);
    }
    if k < then.at {
        lemma_pos_monotone(raw, k, then.at);
    } else {
        lemma_pos_monotone(raw, then.at, k);
    }
}

/// Two tokens read one after the other lie side by side: the second starts
/// at the byte at which the first ends, so that the spans neither leave a
/// gap nor overlap.
pub proof fn lemma_tokens_tile(raw: Seq<char>, s: Lexing)
    requires
        s.at >= 0,
        byte_len(raw) <= usize::MAX,
    ensures
        ({
            let first = next_token(raw, s);
            let second = next_token(raw, first.0);
            first.1 is Some && second.1 is Some ==> {
                let a = first.1.unwrap().span;
                let b = second.1.unwrap().span;
                a.lo < a.hi == b.lo < b.hi
            }
        }),
{
    let first = next_token(raw, s);
    lemma_token_span(raw, s);
    if first.1 is Some {
        lemma_token_span(raw, first.0);
    }
}

/// The first token starts with the first byte of the source, unless an
/// escape was rejected there; and the token that reaches the end of the
/// source ends with its last byte, unless a substitute character was
/// dropped there.
pub proof fn lemma_tokens_cover_the_source(raw: Seq<char>, s: Lexing)
    requires
        s.at >= 0,
        byte_len(raw) <= usize::MAX,
    ensures
        fault_at(raw, 0) is None ==> pos_at(raw, 0) == 0,
        next_token(raw, s).1 matches Some(t) ==> {
            &&& s.at == 0 && fault_at(raw, 0) is None ==> t.span.lo == 0
            &&& char_at(raw, next_token(raw, s).0.at) is None && tail(raw).start == raw.len()
                ==> t.span.hi == byte_len(raw)
        },
{
    lemma_token_span(raw, s);
    lemma_units(raw);
    assert(raw.take(0) =~= Seq::<char>::empty());
    assert(raw.take(raw.len() as int) =~= raw);
    let f = fetch(raw, 0, None);
    if f.ch is Some {
        assert(units(raw)[0] == f);
    }
}

/// Whether two tokens are of the same kind: both identifiers, both
/// keywords, both literals, both whitespace, both comments, or the same
/// separator or operator.
pub open spec fn same_kind(a: TokenView, b: TokenView) -> bool {
    (a is Ident && b is Ident) || (a is Literal && b is Literal) || (a is KeyW && b is KeyW) || a
        == b
}

/// Whether a token is real depends on its kind alone.
pub proof fn lemma_real_by_kind(a: TokenView, b: TokenView)
    requires
        same_kind(a, b),
    ensures
        a.is_real() == b.is_real(),
{
}

/// The characters of the source with the indices from `from` up to `to`,
/// unicode escapes resolved.
pub open spec fn lexeme(raw: Seq<char>, from: int, to: int) -> Seq<char> {
    decoded_text(raw).subrange(from, to)
}

/// A word is the text that it is read from.
pub proof fn lemma_word_is_its_lexeme(raw: Seq<char>, s: Lexing, acc: Seq<char>)
    requires
        s.at >= 0,
    ensures
        s.at <= scan_word(raw, s, acc).0.at,
        char_at(raw, s.at) is Some ==> scan_word(raw, s, acc).0.at <= units(raw).len()
            && scan_word(raw, s, acc).1 == acc + lexeme(raw, s.at, scan_word(raw, s, acc).0.at),
        char_at(raw, s.at) is None ==> scan_word(raw, s, acc) == (s, acc),
    decreases left(raw, s),
{
    lemma_units(raw);
    match char_at(raw, s.at) {
        Some(c) if java_ident_part(c) => {
            lemma_word_is_its_lexeme(raw, bump(raw, s), acc.push(c));
        },
        _ => {},
    }
}

/// No modifier stands twice among those that `parse_modifiers` gives.
pub proof fn lemma_modifiers_once(raw: Seq<char>, p: Parsing, acc: Seq<(Modifier, Span)>)
    requires
        forall|i: int, j: int| 0 <= i < j < acc.len() ==> acc[i].0 != acc[j].0,
    ensures
        parse_modifiers(raw, p, acc).1 matches Some(ms) ==> forall|i: int, j: int|
            0 <= i < j < ms.len() ==> ms[i].0 != ms[j].0,
    decreases work_left(raw, p),
{
    lemma_advance(raw, p);
    match p.curr {
        None => {},
        Some(c) => match modifier_of(c.tok) {
            Some(m) => if !has_modifier(acc, m) {
                let more = acc.push((m, c.span));
                assert forall|i: int, j: int| 0 <= i < j < more.len() implies more[i].0
                    != more[j].0 by {}
                lemma_modifiers_once(raw, advance(raw, p), more);
            },
            None => {},
        },
    }
}

/// A real token starts at or behind the character at which the tokenizer
/// stood, and before the one at which it stands then.
pub proof fn lemma_real_token_span(raw: Seq<char>, s: Lexing)
    requires
        s.at >= 0,
        byte_len(raw) <= usize::MAX,
    ensures
        next_real_token(raw, s).0.at >= s.at,
        pos_at(raw, s.at) <= pos_at(raw, next_real_token(raw, s).0.at),
        next_real_token(raw, s).1 matches Some(t) ==> pos_at(raw, s.at) <= t.span.lo < pos_at(
            raw,
            next_real_token(raw, s).0.at,
        ),
    decreases left(raw, s),
{
    let r = next_token(raw, s);
    lemma_next_token(raw, s);
    lemma_token_span(raw, s);
    lemma_pos_monotone(raw, s.at, r.0.at);
    match r.1 {
        Some(t) if !t.tok.is_real() => {
            lemma_real_token_span(raw, r.0);
        },
        _ => {},
    }
}

/// A step of the parser keeps its tokens in the order of the source.
pub proof fn lemma_advance_ordered(raw: Seq<char>, p: Parsing)
    requires
        p.lex.at >= 0,
        byte_len(raw) <= usize::MAX,
        ordered(raw, p),
    ensures
        advance(raw, p).lex.at >= 0,
        ordered(raw, advance(raw, p)),
{
    reveal(advance);
    lemma_real_token_span(raw, p.lex);
}

/// Whether the modifiers stand in the list in the order in which they
/// stand in the source.
pub open spec fn in_source_order(mods: Seq<(Modifier, Span)>) -> bool {
    forall|i: int, j: int| 0 <= i < j < mods.len() ==> mods[i].1.lo < mods[j].1.lo
}

/// The modifiers that `parse_modifiers` gives stand in the order in
/// which they stand in the source.
pub proof fn lemma_modifiers_in_source_order(
    raw: Seq<char>,
    p: Parsing,
    acc: Seq<(Modifier, Span)>,
)
    requires
        p.lex.at >= 0,
        byte_len(raw) <= usize::MAX,
        ordered(raw, p),
        in_source_order(acc),
        acc.len() > 0 ==> match p.curr {
            Some(c) => acc.last().1.lo < c.span.lo,
            None => true,
        },
    ensures
        parse_modifiers(raw, p, acc).1 matches Some(ms) ==> in_source_order(ms),
    decreases work_left(raw, p),
{
    lemma_advance(raw, p);
    lemma_advance_ordered(raw, p);
    match p.curr {
        None => {},
        Some(c) => match modifier_of(c.tok) {
            Some(m) => if !has_modifier(acc, m) {
                let more = acc.push((m, c.span));
                assert(advance(raw, p).curr == p.peek) by {
                    reveal(advance);
                }
                assert(in_source_order(more)) by {
                    assert forall|i: int, j: int| 0 <= i < j < more.len() implies more[i].1.lo
                        < more[j].1.lo by {
                        if j == acc.len() && i < acc.len() - 1 {
                            assert(acc[i].1.lo < acc[acc.len() - 1].1.lo);
                        }
                    }
                }
                lemma_modifiers_in_source_order(raw, advance(raw, p), more);
            },
            None => {},
        },
    }
}

/// Whether each character of `text` from index `from` on is a digit of
/// the radix in which digits are read.
pub open spec fn digits_from(text: Seq<char>, from: int, radix: u32) -> bool {
    forall|i: int| from <= i < text.len() ==> digit_of(#[trigger] text[i], scan_radix(radix)) is Some
}

/// What `scan_digits` adds to a text are digits: it starts with the text
/// that was there, and holds no underscore behind it.
pub proof fn lemma_scan_digits_gives_digits(raw: Seq<char>, s: Lexing, radix: u32, acc: Seq<char>)
    ensures
        scan_digits(raw, s, radix, acc).1.len() >= acc.len(),
        scan_digits(raw, s, radix, acc).1.take(acc.len() as int) == acc,
        digits_from(scan_digits(raw, s, radix, acc).1, acc.len() as int, radix),
    decreases left(raw, s),
{
    let out = scan_digits(raw, s, radix, acc);
    match char_at(raw, s.at) {
        Some(c) if c == '_' => {
            lemma_scan_digits_gives_digits(raw, bump(raw, s), radix, acc);
        },
        Some(c) if digit_of(c, scan_radix(radix)) is Some => {
            let more = acc.push(c);
            lemma_scan_digits_gives_digits(raw, scan_digits_state(raw, s, radix), radix, more);
            assert(out.1.take(acc.len() as int) =~= out.1.take(more.len() as int).take(
                acc.len() as int,
            ));
            assert(more.take(acc.len() as int) =~= acc);
            assert(out.1[acc.len() as int] == out.1.take(more.len() as int)[acc.len() as int]);
        },
        _ => {
            assert(acc.take(acc.len() as int) =~= acc);
        },
    }
}

/// The state in which `scan_digits` goes on behind a digit: the digit is
/// reported if the radix does not have it, and passed.
pub open spec fn scan_digits_state(raw: Seq<char>, s: Lexing, radix: u32) -> Lexing {
    match char_at(raw, s.at) {
        Some(c) if digit_of(c, radix) is None => bump(
            raw,
            Lexing {
                diags: s.diags.push(
                    ReportView::error(
                        Span {
                            lo: pos_at(raw, s.at) as usize,
                            hi: pos_at(raw, s.at + 1) as usize,
                        },
                        invalid_digit_message(radix),
                    ),
                ),
                ..s
            },
        ),
        _ => bump(raw, s),
    }
}

/// An integer is written in radix 2, 8, 10 or 16, and a float in radix 10
/// or 16.
pub proof fn lemma_radix_of_a_number(raw: Seq<char>, s: Lexing, lo: usize)
    ensures
        match scan_number_literal(raw, s, lo).1 {
            LitView::Integer { radix, .. } => radix == 2 || radix == 8 || radix == 10 || radix
                == 16,
            LitView::Float { radix, .. } => radix == 10 || radix == 16,
            _ => false,
        },
{
}

/// Whether `text` is made of digits of the radix, with at most one dot
/// among them.
pub open spec fn float_digits(text: Seq<char>, radix: u32) -> bool {
    exists|n: int|
        0 <= n <= text.len() && #[trigger] digits_from(text.take(n), 0, radix) && (n == text.len()
            || (text[n] == '.' && digits_from(text, n + 1, radix)))
}

/// Whether `text` is an exponent: decimal digits, behind a minus or
/// without one.
pub open spec fn exponent_digits(text: Seq<char>) -> bool {
    digits_from(text, 0, 10) || (text.len() > 0 && text[0] == '-' && digits_from(text, 1, 10))
}

/// The exponent that `scan_float_exp` reads is made of decimal digits,
/// behind a minus or without one.
pub proof fn lemma_exponent_digits(raw: Seq<char>, s: Lexing, hex: bool)
    ensures
        scan_float_exp(raw, s, hex) matches Some(e) ==> exponent_digits(e.1),
{
    let after = bump(raw, s);
    lemma_scan_digits_gives_digits(raw, bump(raw, after), 10, seq!['-']);
    lemma_scan_digits_gives_digits(raw, after, 10, Seq::empty());
    let minus = scan_digits(raw, bump(raw, after), 10, seq!['-']).1;
    assert(minus.take(1)[0] == minus[0]);
}

/// The texts of a number hold digits only: no underscore, in a float at
/// most one dot, and in an exponent at most a minus before the digits.
pub proof fn lemma_text_of_a_number(raw: Seq<char>, s: Lexing, lo: usize)
    ensures
        match scan_number_literal(raw, s, lo).1 {
            LitView::Integer { raw: digits, radix, .. } => digits_from(digits, 0, radix as u32),
            LitView::Float { raw: digits, radix, exp, .. } => float_digits(digits, radix as u32)
                && exponent_digits(exp),
            _ => false,
        },
{
    lemma_scan_digits_gives_digits(raw, bump_n(raw, s, 2), 16, Seq::empty());
    lemma_scan_digits_gives_digits(raw, bump_n(raw, s, 2), 2, Seq::empty());
    lemma_scan_digits_gives_digits(raw, bump(raw, s), 8, Seq::empty());
    lemma_scan_digits_gives_digits(raw, s, 10, Seq::empty());
    let w = scan_whole(raw, s);
    assert(digits_from(w.digits, 0, w.radix));
    let t = w.state;
    lemma_exponent_digits(raw, t, w.radix == 16);
    assert(exponent_digits(Seq::empty()));
    assert(w.digits.take(w.digits.len() as int) =~= w.digits);
    match scan_number_literal(raw, s, lo).1 {
        LitView::Float { raw: digits, radix, exp, .. } => {
            if char_at(raw, t.at) == Some('.') {
                let f = scan_digits(raw, bump(raw, t), w.radix, Seq::empty());
                lemma_scan_digits_gives_digits(raw, bump(raw, t), w.radix, Seq::empty());
                let hex = w.radix == 16;
                let s1 = if hex && w.digits.len() == 0 && f.1.len() == 0 {
                    fatal(
                        raw,
                        f.0,
                        lo,
                        "hex float literals need either a whole number or a fraction part"@,
                    )
                } else {
                    f.0
                };
                lemma_exponent_digits(raw, s1, hex);
                let n = w.digits.len() as int;
                assert(digits == w.digits.push('.') + f.1);
                assert(digits.take(n) =~= w.digits);
                assert(digits[n] == '.');
                assert forall|i: int| n + 1 <= i < digits.len() implies digit_of(
                    #[trigger] digits[i],
                    scan_radix(w.radix),
                ) is Some by {
                    assert(digits[i] == f.1[i - n - 1]);
                }
                assert(digits_from(digits.take(n), 0, w.radix));
            } else {
                assert(digits == w.digits);
                assert(digits_from(digits.take(digits.len() as int), 0, w.radix));
            }
        },
        _ => {},
    }
}

/// Whitespace is passed over as far as it goes: each character passed is
/// whitespace.
pub proof fn lemma_whitespace_run(raw: Seq<char>, s: Lexing, k: int)
    requires
        s.at >= 0,
        s.at <= k < skip_whitespace(raw, s).at,
    ensures
        k < units(raw).len(),
        java_whitespace(decoded_text(raw)[k]),
    decreases left(raw, s),
{
    match char_at(raw, s.at) {
        Some(c) if java_whitespace(c) => {
            if k > s.at {
                lemma_whitespace_run(raw, bump(raw, s), k);
            }
        },
        _ => {},
    }
}

/// A word is written as the text that it was read from.
pub proof fn lemma_word_token_text(raw: Seq<char>, s: Lexing)
    requires
        s.at >= 0,
        char_at(raw, s.at) is Some,
    ensures
        ({
            let r = scan_word(raw, s, Seq::empty());
            &&& r.1 == lexeme(raw, s.at, r.0.at)
            &&& word_token(r.1) matches TokenView::Ident(name) ==> name == r.1
            &&& word_token(r.1) matches TokenView::KeyW(k) ==> k.java_text() == r.1
        }),
{
    lemma_word_is_its_lexeme(raw, s, Seq::empty());
    let r = scan_word(raw, s, Seq::empty());
    assert(Seq::<char>::empty() + lexeme(raw, s.at, r.0.at) =~= lexeme(raw, s.at, r.0.at));
    match word_token(r.1) {
        TokenView::KeyW(k) => lemma_keyword_round_trip(k),
        _ => {},
    }
}

/// A separator or an operator is written as the text that it was read
/// from, and it is neither a word nor a literal.
pub proof fn lemma_symbol_token_text(raw: Seq<char>, s: Lexing, c: char)
    requires
        s.at >= 0,
        char_at(raw, s.at) == Some(c),
    ensures
        symbol(c, char_at(raw, s.at + 1), char_at(raw, s.at + 2), char_at(raw, s.at + 3))
            matches Some(sym) ==> {
            &&& sym.1 >= 1
            &&& bump_n(raw, s, sym.1).at == s.at + sym.1
            &&& sym.0.java_text() == lexeme(raw, s.at, s.at + sym.1)
            &&& sym.0.is_real() && !sym.0.has_payload() && !(sym.0 is KeyW)
        },
{
    lemma_units(raw);
    let p = char_at(raw, s.at + 1);
    let q = char_at(raw, s.at + 2);
    let r = char_at(raw, s.at + 3);
    match symbol(c, p, q, r) {
        Some(sym) => {
            lemma_bump_n(raw, s, sym.1);
            lemma_symbol_is_its_lexeme(c, p, q, r);
            assert(decoded_text(raw)[s.at] == c);
            assert(spelled(c, p, q, r, sym.1) =~= lexeme(raw, s.at, s.at + sym.1));
        },
        None => {},
    }
}

/// Whitespace is read from blanks only.
pub proof fn lemma_whitespace_token_text(raw: Seq<char>, s: Lexing)
    requires
        s.at >= 0,
        char_at(raw, s.at) is Some,
    ensures
        ({
            let then = skip_whitespace(raw, s);
            let text = lexeme(raw, s.at, then.at);
            then.at <= units(raw).len() && forall|i: int|
                0 <= i < text.len() ==> java_whitespace(#[trigger] text[i])
        }),
{
    let then = skip_whitespace(raw, s);
    lemma_skip_whitespace(raw, s);
    if then.at > s.at {
        lemma_whitespace_run(raw, s, then.at - 1);
    }
    let text = lexeme(raw, s.at, then.at);
    assert forall|i: int| 0 <= i < text.len() implies java_whitespace(#[trigger] text[i]) by {
        lemma_whitespace_run(raw, s, s.at + i);
    }
}

/// The text of a token is the text of the source in its span, unicode
/// escapes resolved: an identifier is named by it, a keyword, a separator
/// or an operator is written as it, and whitespace is made of blanks.
pub proof fn lemma_token_is_its_lexeme(raw: Seq<char>, s: Lexing)
    requires
        s.at >= 0,
    ensures
        next_token(raw, s).1 matches Some(t) ==> {
            let then = next_token(raw, s).0;
            let text = lexeme(raw, s.at, then.at);
            &&& s.at < then.at
            &&& t.tok matches TokenView::Ident(name) ==> name == text
            &&& t.tok.is_real() && !t.tok.has_payload() ==> t.tok.java_text() == text
            &&& t.tok is Whitespace ==> then.at <= units(raw).len() && forall|i: int|
                0 <= i < text.len() ==> java_whitespace(#[trigger] text[i])
        },
{
    lemma_next_token(raw, s);
    match char_at(raw, s.at) {
        None => {},
        Some(c) => {
            lemma_word_token_text(raw, s);
            lemma_symbol_token_text(raw, s, c);
            lemma_whitespace_token_text(raw, s);
        },
    }
}

} // verus!
