//! Reading only moves forward: no step of the tokenizer gives a character
//! back, and each token takes at least one.

use vstd::prelude::*;
use crate::chars::{digit_of, java_ident_part, java_ident_start, java_whitespace};
use crate::diagnostics::ReportView;
use crate::filemap::Span;
use crate::syntax::lexing::{
    bump, bump_n, char_at, comment_starts, fatal, invalid_digit_message, left, Lexing,
    next_real_token, next_token, number_starts, pos_at, scan_digits, scan_escaped_char,
    scan_float_exp, scan_number_literal, scan_radix, scan_string_body, scan_token, scan_whole,
    scan_word, skip_block_comment, skip_line_comment, skip_whitespace, symbol,
};

verus! {

/// `n` steps move on by `n` characters.
pub proof fn lemma_bump_n(raw: Seq<char>, s: Lexing, n: nat)
    ensures
        bump_n(raw, s, n).at == s.at + n,
    decreases n,
{
    if n > 0 {
        lemma_bump_n(raw, bump(raw, s), (n - 1) as nat);
    }
}

/// Passing over whitespace gives no character back.
pub proof fn lemma_skip_whitespace(raw: Seq<char>, s: Lexing)
    ensures
        skip_whitespace(raw, s).at >= s.at,
    decreases left(raw, s),
{
    match char_at(raw, s.at) {
        Some(c) if java_whitespace(c) => lemma_skip_whitespace(raw, bump(raw, s)),
        _ => {},
    }
}

/// Passing over the inside of a block comment gives no character back.
pub proof fn lemma_skip_block_comment(raw: Seq<char>, s: Lexing)
    ensures
        skip_block_comment(raw, s).at >= s.at,
    decreases left(raw, s),
{
    if char_at(raw, s.at) is Some && char_at(raw, s.at + 1) is Some && !(char_at(raw, s.at)
        == Some('*') && char_at(raw, s.at + 1) == Some('/')) {
        lemma_skip_block_comment(raw, bump(raw, s));
    }
}

/// Passing over a line comment gives no character back.
pub proof fn lemma_skip_line_comment(raw: Seq<char>, s: Lexing)
    ensures
        skip_line_comment(raw, s).at >= s.at,
    decreases left(raw, s),
{
    match char_at(raw, s.at) {
        Some(c) if c != '\n' && c != '\r' => lemma_skip_line_comment(raw, bump(raw, s)),
        _ => {},
    }
}

/// A word takes each character that may stand in an identifier.
pub proof fn lemma_scan_word(raw: Seq<char>, s: Lexing, acc: Seq<char>)
    ensures
        scan_word(raw, s, acc).0.at >= s.at,
        match char_at(raw, s.at) {
            Some(c) => java_ident_part(c) ==> scan_word(raw, s, acc).0.at > s.at,
            None => true,
        },
    decreases left(raw, s),
{
    match char_at(raw, s.at) {
        Some(c) if java_ident_part(c) => lemma_scan_word(raw, bump(raw, s), acc.push(c)),
        _ => {},
    }
}

/// Digits take each digit and each underscore.
pub proof fn lemma_scan_digits(raw: Seq<char>, s: Lexing, radix: u32, acc: Seq<char>)
    ensures
        scan_digits(raw, s, radix, acc).0.at >= s.at,
        match char_at(raw, s.at) {
            Some(c) => digit_of(c, scan_radix(radix)) is Some ==> scan_digits(
                raw,
                s,
                radix,
                acc,
            ).0.at > s.at,
            None => true,
        },
    decreases left(raw, s),
{
    match char_at(raw, s.at) {
        Some(c) if c == '_' => lemma_scan_digits(raw, bump(raw, s), radix, acc),
        Some(c) if digit_of(c, scan_radix(radix)) is Some => {
            let s1 = if digit_of(c, radix) is None {
                Lexing {
                    diags: s.diags.push(
                        ReportView::error(
                            Span {
                                lo: pos_at(raw, s.at) as usize,
                                hi: pos_at(raw, s.at + 1) as usize,
                            },
                            invalid_digit_message(radix),
                        ),
                    ),
                    ..s
                }
            } else {
                s
            };
            lemma_scan_digits(raw, bump(raw, s1), radix, acc.push(c));
        },
        _ => {},
    }
}

/// A character read inside a literal moves the tokenizer on.
pub proof fn lemma_scan_escaped_char(raw: Seq<char>, s: Lexing, lo: usize)
    ensures
        scan_escaped_char(raw, s, lo).state.at >= s.at,
        scan_escaped_char(raw, s, lo).ch is Some ==> left(raw, scan_escaped_char(raw, s, lo).state)
            < left(raw, s),
{
}

/// The inside of a string gives no character back.
pub proof fn lemma_scan_string_body(raw: Seq<char>, s: Lexing, lo: usize, acc: Seq<char>)
    ensures
        scan_string_body(raw, s, lo, acc).0.at >= s.at,
    decreases left(raw, s),
{
    let r = scan_escaped_char(raw, s, lo);
    lemma_scan_escaped_char(raw, s, lo);
    match r.ch {
        None => {},
        Some(c) => if c == '"' && !r.escaped {
        } else {
            lemma_scan_string_body(raw, r.state, lo, acc.push(c));
        },
    }
}

/// An exponent, where there is one, takes its mark.
pub proof fn lemma_scan_float_exp(raw: Seq<char>, s: Lexing, hex: bool)
    ensures
        scan_float_exp(raw, s, hex) matches Some(e) ==> e.0.at > s.at,
{
    let s1 = bump(raw, s);
    lemma_scan_digits(raw, bump(raw, s1), 10, seq!['-']);
    lemma_scan_digits(raw, s1, 10, Seq::empty());
}

/// A number literal takes the digit or the dot that it starts with.
pub proof fn lemma_scan_number_literal(raw: Seq<char>, s: Lexing, lo: usize)
    ensures
        scan_number_literal(raw, s, lo).0.at >= s.at,
        match char_at(raw, s.at) {
            Some(c) => number_starts(c, char_at(raw, s.at + 1)) ==> scan_number_literal(
                raw,
                s,
                lo,
            ).0.at > s.at,
            None => true,
        },
{
    lemma_bump_n(raw, s, 2);
    lemma_scan_digits(raw, bump_n(raw, s, 2), 16, Seq::empty());
    lemma_scan_digits(raw, bump_n(raw, s, 2), 2, Seq::empty());
    lemma_scan_digits(raw, bump(raw, s), 8, Seq::empty());
    lemma_scan_digits(raw, s, 10, Seq::empty());
    let w = scan_whole(raw, s);
    assert(w.state.at >= s.at);
    let t = w.state;
    lemma_scan_float_exp(raw, t, w.radix == 16);
    match scan_float_exp(raw, t, w.radix == 16) {
        Some(e) => {},
        None => {},
    }
    // the fraction
    let f = scan_digits(raw, bump(raw, t), w.radix, Seq::empty());
    lemma_scan_digits(raw, bump(raw, t), w.radix, Seq::empty());
    let hex = w.radix == 16;
    let s1 = if hex && w.digits.len() == 0 && f.1.len() == 0 {
        fatal(raw, f.0, lo, "hex float literals need either a whole number or a fraction part"@)
    } else {
        f.0
    };
    lemma_scan_float_exp(raw, s1, hex);
}

/// Reading a token gives no character back, and a token takes at least one.
pub proof fn lemma_scan_token(raw: Seq<char>, s: Lexing, c: char)
    requires
        char_at(raw, s.at) == Some(c),
    ensures
        scan_token(raw, s, c).0.at >= s.at,
        scan_token(raw, s, c).1 is Some ==> scan_token(raw, s, c).0.at > s.at,
{
    let lo = pos_at(raw, s.at) as usize;
    let p = char_at(raw, s.at + 1);
    if java_whitespace(c) {
        lemma_skip_whitespace(raw, bump(raw, s));
    } else if comment_starts(c, p) {
        lemma_skip_block_comment(raw, s);
        lemma_bump_n(raw, skip_block_comment(raw, s), 2);
        lemma_skip_line_comment(raw, bump(raw, s));
    } else if number_starts(c, p) {
        lemma_scan_number_literal(raw, s, lo);
    } else if c == '"' {
        lemma_scan_string_body(raw, bump(raw, s), lo, Seq::empty());
    } else if c == '\'' {
        lemma_scan_escaped_char(raw, bump(raw, s), lo);
    } else if symbol(c, p, char_at(raw, s.at + 2), char_at(raw, s.at + 3)) is Some {
        let sym = symbol(c, p, char_at(raw, s.at + 2), char_at(raw, s.at + 3)).unwrap();
        lemma_bump_n(raw, s, sym.1);
    } else if java_ident_start(c) {
        lemma_scan_word(raw, s, Seq::empty());
    }
}

/// Reading a token gives no character back, and a token takes at least one.
pub proof fn lemma_next_token(raw: Seq<char>, s: Lexing)
    ensures
        next_token(raw, s).0.at >= s.at,
        next_token(raw, s).1 is Some ==> next_token(raw, s).0.at > s.at && left(
            raw,
            next_token(raw, s).0,
        ) < left(raw, s),
{
    match char_at(raw, s.at) {
        None => {},
        Some(c) => lemma_scan_token(raw, s, c),
    }
}

/// Looking for a real token gives no character back, and a real token
/// takes at least one.
pub proof fn lemma_next_real_token(raw: Seq<char>, s: Lexing)
    ensures
        next_real_token(raw, s).0.at >= s.at,
        left(raw, next_real_token(raw, s).0) <= left(raw, s),
        next_real_token(raw, s).1 matches Some(t) ==> t.tok.is_real() && next_real_token(
            raw,
            s,
        ).0.at > s.at && left(raw, next_real_token(raw, s).0) < left(raw, s),
    decreases left(raw, s),
{
    let r = next_token(raw, s);
    lemma_next_token(raw, s);
    match r.1 {
        Some(t) if !t.tok.is_real() => lemma_next_real_token(raw, r.0),
        _ => {},
    }
}

} // verus!
