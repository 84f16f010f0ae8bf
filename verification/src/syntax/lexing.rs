//! What the tokenizer does, as mathematics: the state of reading a source,
//! and for each kind of token the state that reading it leads to.
//!
//! The source is seen through `units`: its characters after unicode escapes
//! were resolved. The tokenizer looks at one of them, the current one, and
//! knows the one before and the one behind it.

use vstd::prelude::*;
use crate::chars::{digit_of, is_ascii_digit, java_ident_part, java_ident_start, java_whitespace};
use crate::diagnostics::ReportView;
use crate::filemap::Span;
use crate::syntax::decode::{EscapeFault, Fault, fault_span, lemma_units, tail, units};
use crate::syntax::token::{Keyword, LitView, TokenSpanView, TokenView};
use crate::text::{byte_len, byte_offset, lemma_byte_offset_monotone};

verus! {

/// The state of reading a source.
pub struct Lexing {
    /// Index in `units` of the current character. It is negative while the
    /// tokenizer is being set up, and at least the number of characters once
    /// the end is reached.
    pub at: int,
    /// The reports made so far.
    pub diags: Seq<ReportView>,
}

/// The character with index `k`, if there is one.
pub open spec fn char_at(raw: Seq<char>, k: int) -> Option<char> {
    if 0 <= k < units(raw).len() {
        units(raw)[k].ch
    } else {
        None
    }
}

/// Byte offset at which the text of character `k` starts. Behind the last
/// character it is the offset at which the search for a further one ended.
pub open spec fn pos_at(raw: Seq<char>, k: int) -> nat {
    if k < 0 {
        0
    } else if k < units(raw).len() {
        byte_offset(raw, units(raw)[k].start)
    } else {
        byte_offset(raw, tail(raw).start)
    }
}

/// Byte offset just behind the text of character `k`.
pub open spec fn end_at(raw: Seq<char>, k: int) -> nat {
    if 0 <= k < units(raw).len() {
        byte_offset(raw, units(raw)[k].next)
    } else {
        pos_at(raw, k)
    }
}

/// The escape that was rejected while character `k` was looked for.
pub open spec fn fault_at(raw: Seq<char>, k: int) -> Option<Fault> {
    if 0 <= k < units(raw).len() {
        units(raw)[k].fault
    } else if k == units(raw).len() {
        tail(raw).fault
    } else {
        None
    }
}

/// The message for a rejected escape.
pub open spec fn escape_message(kind: EscapeFault) -> Seq<char> {
    match kind {
        EscapeFault::TooShort => "Invalid unicode escape (less than 4 digits)"@,
        EscapeFault::NotScalar => "Invalid unicode escape (not a valid unicode scalar value)"@,
    }
}

/// The report on a rejected escape.
pub open spec fn escape_report(raw: Seq<char>, ft: Fault) -> ReportView {
    ReportView::error(fault_span(raw, ft), escape_message(ft.kind))
}

/// Whether character `k` ends a line: a line feed, or a carriage return
/// that no line feed follows. A carriage return and the line feed behind
/// it are one line terminator, which ends with the line feed.
pub open spec fn line_ends_at(raw: Seq<char>, k: int) -> bool {
    char_at(raw, k) == Some('\n') || (char_at(raw, k) == Some('\r') && char_at(raw, k + 1) != Some(
        '\n',
    ))
}

/// The line starts that are known once character `k` is the current one:
/// offset 0, and for each character up to `k` that ends a line the offset
/// just behind it, which is where the next line starts.
pub open spec fn lines_upto(raw: Seq<char>, k: int) -> Seq<usize>
    decreases k + 1,
{
    if k < 0 {
        seq![0usize]
    } else if line_ends_at(raw, k) {
        lines_upto(raw, k - 1).push(end_at(raw, k) as usize)
    } else {
        lines_upto(raw, k - 1)
    }
}

/// How many characters are left from the current one on.
pub open spec fn left(raw: Seq<char>, s: Lexing) -> nat {
    if s.at < units(raw).len() {
        (units(raw).len() - s.at) as nat
    } else {
        0
    }
}

/// Moves on by one character. The character two places on is looked for,
/// and an escape rejected on the way is reported.
pub open spec fn bump(raw: Seq<char>, s: Lexing) -> Lexing {
    Lexing {
        at: s.at + 1,
        diags: match fault_at(raw, s.at + 2) {
            Some(ft) => s.diags.push(escape_report(raw, ft)),
            None => s.diags,
        },
    }
}

/// Moves on by `n` characters.
pub open spec fn bump_n(raw: Seq<char>, s: Lexing, n: nat) -> Lexing
    decreases n,
{
    if n == 0 {
        s
    } else {
        bump_n(raw, bump(raw, s), (n - 1) as nat)
    }
}

/// The state of a new tokenizer: the first character is the current one.
pub open spec fn start(raw: Seq<char>) -> Lexing {
    bump(raw, bump(raw, Lexing { at: -2, diags: Seq::empty() }))
}

/// Reports an error for the bytes from `lo` up to the start of the
/// character behind the current one.
pub open spec fn fatal(raw: Seq<char>, s: Lexing, lo: usize, message: Seq<char>) -> Lexing {
    Lexing {
        diags: s.diags.push(
            ReportView::error(Span { lo, hi: pos_at(raw, s.at + 1) as usize }, message),
        ),
        ..s
    }
}

/// Passes over whitespace.
pub open spec fn skip_whitespace(raw: Seq<char>, s: Lexing) -> Lexing
    decreases left(raw, s),
{
    match char_at(raw, s.at) {
        Some(c) if java_whitespace(c) => skip_whitespace(raw, bump(raw, s)),
        _ => s,
    }
}

/// Passes over the inside of a block comment, up to the `*` of the `*/`
/// that ends it or to the last character of the source.
pub open spec fn skip_block_comment(raw: Seq<char>, s: Lexing) -> Lexing
    decreases left(raw, s),
{
    if char_at(raw, s.at) is Some && char_at(raw, s.at + 1) is Some && !(char_at(raw, s.at)
        == Some('*') && char_at(raw, s.at + 1) == Some('/')) {
        skip_block_comment(raw, bump(raw, s))
    } else {
        s
    }
}

/// Passes over a line comment, up to the character that ends the line.
pub open spec fn skip_line_comment(raw: Seq<char>, s: Lexing) -> Lexing
    decreases left(raw, s),
{
    match char_at(raw, s.at) {
        Some(c) if c != '\n' && c != '\r' => skip_line_comment(raw, bump(raw, s)),
        _ => s,
    }
}

/// Passes over a comment. The current character is `/` and the next one
/// `*` or `/`.
pub open spec fn skip_comment(raw: Seq<char>, s: Lexing) -> Lexing {
    if char_at(raw, s.at + 1) == Some('*') {
        bump_n(raw, skip_block_comment(raw, s), 2)
    } else {
        skip_line_comment(raw, s)
    }
}

/// Reads the characters of a word behind those in `acc`.
pub open spec fn scan_word(raw: Seq<char>, s: Lexing, acc: Seq<char>) -> (Lexing, Seq<char>)
    decreases left(raw, s),
{
    match char_at(raw, s.at) {
        Some(c) if java_ident_part(c) => scan_word(raw, bump(raw, s), acc.push(c)),
        _ => (s, acc),
    }
}

/// The token that a word is: a literal, a keyword or an identifier.
pub open spec fn word_token(w: Seq<char>) -> TokenView {
    if w == "true"@ {
        TokenView::Literal(LitView::Bool(true))
    } else if w == "false"@ {
        TokenView::Literal(LitView::Bool(false))
    } else if w == "null"@ {
        TokenView::Literal(LitView::Null)
    } else {
        match Keyword::lookup(w) {
            Some(k) => TokenView::KeyW(k),
            None => TokenView::Ident(w),
        }
    }
}

/// One character of a string or character literal, as it was read.
pub struct CharScan {
    pub state: Lexing,
    /// The character; `None` where the source ended.
    pub ch: Option<char>,
    /// Whether the character was written with a backslash.
    pub escaped: bool,
}

/// The character that a backslash and `c` stand for.
pub open spec fn escape_of(c: char) -> Option<char> {
    if c == 'b' {
        Some('\u{8}')
    } else if c == 't' {
        Some('\t')
    } else if c == 'n' {
        Some('\n')
    } else if c == 'f' {
        Some('\u{c}')
    } else if c == 'r' {
        Some('\r')
    } else if c == '\'' || c == '"' || c == '\\' {
        Some(c)
    } else {
        None
    }
}

/// The message for a backslash before a character that it cannot stand
/// before.
pub open spec fn invalid_escape_message(c: char) -> Seq<char> {
    "invalid escape sequence \\"@.push(c)
}

/// Reads one character inside a string or character literal. After a
/// backslash that no known escape follows, the error is reported and the
/// character behind the backslash is taken.
pub open spec fn scan_escaped_char(raw: Seq<char>, s: Lexing, lo: usize) -> CharScan {
    match char_at(raw, s.at) {
        Some(c) if c == '\\' => {
            let s1 = bump(raw, s);
            match char_at(raw, s1.at) {
                None => CharScan { state: s1, ch: None, escaped: true },
                Some(e) => match escape_of(e) {
                    Some(x) => CharScan { state: bump(raw, s1), ch: Some(x), escaped: true },
                    None => CharScan {
                        state: bump(raw, fatal(raw, s1, lo, invalid_escape_message(e))),
                        ch: Some(e),
                        escaped: true,
                    },
                },
            }
        },
        Some(c) => CharScan { state: bump(raw, s), ch: Some(c), escaped: false },
        None => CharScan { state: s, ch: None, escaped: false },
    }
}

/// Reads the inside of a string literal behind the characters in `acc`, and
/// the quote that ends it.
pub open spec fn scan_string_body(raw: Seq<char>, s: Lexing, lo: usize, acc: Seq<char>) -> (
    Lexing,
    Seq<char>,
)
    decreases left(raw, s),
    via scan_string_body_ends
{
    let r = scan_escaped_char(raw, s, lo);
    match r.ch {
        None => (fatal(raw, r.state, lo, "unexpected EOF in string literal"@), acc),
        Some(c) => if c == '"' && !r.escaped {
            (r.state, acc)
        } else {
            scan_string_body(raw, r.state, lo, acc.push(c))
        },
    }
}

/// Each character read leaves fewer to read.
#[via_fn]
proof fn scan_string_body_ends(raw: Seq<char>, s: Lexing, lo: usize, acc: Seq<char>) {
    crate::syntax::progress::lemma_scan_escaped_char(raw, s, lo);
}

/// Reads a string literal. The current character is its opening quote.
pub open spec fn scan_string_literal(raw: Seq<char>, s: Lexing, lo: usize) -> (Lexing, Seq<char>) {
    scan_string_body(raw, bump(raw, s), lo, Seq::empty())
}

/// Reads a character literal. The current character is its opening quote.
/// Where the literal is broken, the character is NUL.
pub open spec fn scan_char_literal(raw: Seq<char>, s: Lexing, lo: usize) -> (Lexing, char) {
    let r = scan_escaped_char(raw, bump(raw, s), lo);
    match r.ch {
        None => (fatal(raw, r.state, lo, "unexpected EOF in character literal"@), '\0'),
        Some(c) => if c == '\'' && !r.escaped {
            (fatal(raw, r.state, lo, "empty character literal"@), '\0')
        } else if char_at(raw, r.state.at) == Some('\'') {
            (bump(raw, r.state), c)
        } else {
            (fatal(raw, r.state, lo, "unclosed character literal"@), '\0')
        },
    }
}

/// The message for a digit that the radix of its literal does not have.
pub open spec fn invalid_digit_message(radix: u32) -> Seq<char> {
    if radix == 2 {
        "Invalid digit for base 2 literal"@
    } else {
        "Invalid digit for base 8 literal"@
    }
}

/// The radix in which digits are read: no less than ten, so that each digit
/// too high for a lower radix is read, and reported.
pub open spec fn scan_radix(radix: u32) -> u32 {
    if radix <= 10 {
        10
    } else {
        radix
    }
}

/// Reads digits behind those in `acc`. Underscores between them are passed
/// over. A digit that the radix does not have is reported and kept.
pub open spec fn scan_digits(raw: Seq<char>, s: Lexing, radix: u32, acc: Seq<char>) -> (
    Lexing,
    Seq<char>,
)
    decreases left(raw, s),
{
    match char_at(raw, s.at) {
        Some(c) if c == '_' => scan_digits(raw, bump(raw, s), radix, acc),
        Some(c) if digit_of(c, scan_radix(radix)) is Some => {
            let s1 = if digit_of(c, radix) is None {
                Lexing {
                    diags: s.diags.push(
                        ReportView::error(
                            Span {
                                lo: pos_at(raw, s.at) as usize,
                                hi: pos_at(raw, s.at + 1) as usize,
                            },
                            invalid_digit_message(radix),
                        ),
                    ),
                    ..s
                }
            } else {
                s
            };
            scan_digits(raw, bump(raw, s1), radix, acc.push(c))
        },
        _ => (s, acc),
    }
}

/// Reads the suffix that tells a `float` from a `double`, if there is one,
/// and says whether it asks for a `double`.
pub open spec fn scan_double_suffix(raw: Seq<char>, s: Lexing) -> (Lexing, Option<bool>) {
    match char_at(raw, s.at) {
        Some(c) if c == 'd' || c == 'D' => (bump(raw, s), Some(true)),
        Some(c) if c == 'f' || c == 'F' => (bump(raw, s), Some(false)),
        _ => (s, None),
    }
}

/// Whether `c` introduces the exponent of a float: `p` in a hexadecimal
/// one, `e` in a decimal one.
pub open spec fn is_exponent_mark(c: char, hex: bool) -> bool {
    if hex {
        c == 'p' || c == 'P'
    } else {
        c == 'e' || c == 'E'
    }
}

/// Reads the exponent of a float, if the current character introduces one:
/// its sign, if it is a minus, and its decimal digits.
pub open spec fn scan_float_exp(raw: Seq<char>, s: Lexing, hex: bool) -> Option<
    (Lexing, Seq<char>),
> {
    match char_at(raw, s.at) {
        Some(c) if is_exponent_mark(c, hex) => {
            let s1 = bump(raw, s);
            if char_at(raw, s1.at) == Some('-') {
                Some(scan_digits(raw, bump(raw, s1), 10, seq!['-']))
            } else {
                Some(scan_digits(raw, s1, 10, Seq::empty()))
            }
        },
        _ => None,
    }
}

/// The message for a dot in a literal that is neither decimal nor
/// hexadecimal.
pub open spec fn float_base_message(radix: u32) -> Seq<char> {
    if radix == 2 {
        "float literals may only be expressed in decimal or hexadecimal, not base 2"@
    } else {
        "float literals may only be expressed in decimal or hexadecimal, not base 8"@
    }
}

/// The message for an exponent that the radix of its literal does not
/// take.
pub open spec fn exponent_message(radix: u32) -> Seq<char> {
    if radix == 16 {
        "invalid exponent indicator for hex float literal (use 'p' or 'P' instead)"@
    } else {
        "invalid exponent indicator for decimal float literal (use 'e' or 'E' instead)"@
    }
}

/// The prefix of a number literal, read: the state behind it, the radix it
/// announces and the digits of the whole part.
pub struct Whole {
    pub state: Lexing,
    pub radix: u32,
    pub digits: Seq<char>,
}

/// Reads the prefix and the whole part of a number literal: `0x` announces
/// radix 16, `0b` radix 2, `0` before a digit radix 8. A literal that starts
/// with a dot has no whole part.
pub open spec fn scan_whole(raw: Seq<char>, s: Lexing) -> Whole {
    if char_at(raw, s.at) == Some('0') {
        match char_at(raw, s.at + 1) {
            Some(p) if p == 'x' || p == 'X' => {
                let r = scan_digits(raw, bump_n(raw, s, 2), 16, Seq::empty());
                Whole { state: r.0, radix: 16, digits: r.1 }
            },
            Some(p) if p == 'b' || p == 'B' => {
                let r = scan_digits(raw, bump_n(raw, s, 2), 2, Seq::empty());
                Whole { state: r.0, radix: 2, digits: r.1 }
            },
            Some(p) if is_ascii_digit(p) => {
                let r = scan_digits(raw, bump(raw, s), 8, Seq::empty());
                Whole { state: r.0, radix: 8, digits: r.1 }
            },
            _ => Whole { state: bump(raw, s), radix: 10, digits: seq!['0'] },
        }
    } else if char_at(raw, s.at) == Some('.') {
        Whole { state: s, radix: 10, digits: Seq::empty() }
    } else {
        let r = scan_digits(raw, s, 10, Seq::empty());
        Whole { state: r.0, radix: 10, digits: r.1 }
    }
}

/// Reads a float from its dot on, behind the whole part `whole`.
pub open spec fn scan_fraction(raw: Seq<char>, s: Lexing, lo: usize, radix: u32, whole: Seq<char>) -> (
    Lexing,
    LitView,
) {
    let hex = radix == 16;
    let f = scan_digits(raw, bump(raw, s), radix, Seq::empty());
    let s1 = if hex && whole.len() == 0 && f.1.len() == 0 {
        fatal(
            raw,
            f.0,
            lo,
            "hex float literals need either a whole number or a fraction part"@,
        )
    } else {
        f.0
    };
    let e = match scan_float_exp(raw, s1, hex) {
        Some(e) => e,
        None => (s1, Seq::empty()),
    };
    let s2 = if hex && e.1.len() == 0 {
        fatal(raw, e.0, lo, "hex float literals are required to have an exponent"@)
    } else {
        e.0
    };
    let d = scan_double_suffix(raw, s2);
    (
        d.0,
        LitView::Float {
            raw: whole.push('.') + f.1,
            is_double: d.1 != Some(false),
            radix: radix as u8,
            exp: e.1,
        },
    )
}

/// Whether a float may be written in the radix: in 10 and in 16.
pub open spec fn float_radix(radix: u32) -> bool {
    radix == 10 || radix == 16
}

/// Whether `c`, behind the whole part of a number, makes the number a
/// float: a suffix, the mark of an exponent, or a dot. A suffix or a mark
/// does so only behind digits.
pub open spec fn float_mark(c: char, digits: Seq<char>) -> bool {
    c == '.' || (digits.len() > 0 && (c == 'f' || c == 'F' || c == 'd' || c == 'D' || c == 'p'
        || c == 'P' || c == 'e' || c == 'E'))
}

/// Reads what follows the whole part of a number literal, and says which
/// literal it is. A float in a radix other than 10 and 16 is reported, and
/// the whole part is given as an integer.
pub open spec fn scan_number_tail(raw: Seq<char>, w: Whole, lo: usize) -> (Lexing, LitView) {
    let s = w.state;
    let int_lit = LitView::Integer { raw: w.digits, is_long: false, radix: w.radix as u8 };
    match char_at(raw, s.at) {
        Some(c) if c == 'l' || c == 'L' => (
            bump(raw, s),
            LitView::Integer { raw: w.digits, is_long: true, radix: w.radix as u8 },
        ),
        Some(c) if float_mark(c, w.digits) && !float_radix(w.radix) => (
            fatal(raw, s, lo, float_base_message(w.radix)),
            int_lit,
        ),
        Some(c) if (c == 'f' || c == 'F' || c == 'd' || c == 'D') && w.digits.len() > 0 => (
            bump(raw, s),
            LitView::Float {
                raw: w.digits,
                is_double: c == 'd' || c == 'D',
                radix: w.radix as u8,
                exp: Seq::empty(),
            },
        ),
        Some(c) if (c == 'p' || c == 'P' || c == 'e' || c == 'E') && w.digits.len() > 0 => {
            match scan_float_exp(raw, s, w.radix == 16) {
                None => (fatal(raw, s, lo, exponent_message(w.radix)), int_lit),
                Some(e) => {
                    let d = scan_double_suffix(raw, e.0);
                    (
                        d.0,
                        LitView::Float {
                            raw: w.digits,
                            is_double: d.1 != Some(false),
                            radix: w.radix as u8,
                            exp: e.1,
                        },
                    )
                },
            }
        },
        Some(c) if c == '.' => scan_fraction(raw, s, lo, w.radix, w.digits),
        _ => (s, int_lit),
    }
}

/// Reads a number literal. The current character is a digit, or a dot
/// before a digit.
pub open spec fn scan_number_literal(raw: Seq<char>, s: Lexing, lo: usize) -> (Lexing, LitView) {
    scan_number_tail(raw, scan_whole(raw, s), lo)
}

/// The separator or operator that starts with `c`, given the three
/// characters behind `c`, and the number of characters it is made of: the
/// longest that fits.
pub open spec fn symbol(c: char, p: Option<char>, q: Option<char>, r: Option<char>) -> Option<
    (TokenView, nat),
> {
    if c == '(' {
        Some((TokenView::ParenOp, 1))
    } else if c == ')' {
        Some((TokenView::ParenCl, 1))
    } else if c == '{' {
        Some((TokenView::BraceOp, 1))
    } else if c == '}' {
        Some((TokenView::BraceCl, 1))
    } else if c == '[' {
        Some((TokenView::BracketOp, 1))
    } else if c == ']' {
        Some((TokenView::BracketCl, 1))
    } else if c == ';' {
        Some((TokenView::Semi, 1))
    } else if c == ',' {
        Some((TokenView::Comma, 1))
    } else if c == '@' {
        Some((TokenView::At, 1))
    } else if c == '~' {
        Some((TokenView::Tilde, 1))
    } else if c == '?' {
        Some((TokenView::Question, 1))
    } else if c == '.' {
        if p == Some('.') && q == Some('.') {
            Some((TokenView::DotDotDot, 3))
        } else {
            Some((TokenView::Dot, 1))
        }
    } else if c == ':' {
        if p == Some(':') {
            Some((TokenView::ColonSep, 2))
        } else {
            Some((TokenView::Colon, 1))
        }
    } else if c == '=' {
        if p == Some('=') {
            Some((TokenView::EqEq, 2))
        } else {
            Some((TokenView::Eq, 1))
        }
    } else if c == '>' {
        if p == Some('>') {
            if q == Some('>') {
                if r == Some('=') {
                    Some((TokenView::ShrUnEq, 4))
                } else {
                    Some((TokenView::ShrUn, 3))
                }
            } else if q == Some('=') {
                Some((TokenView::ShrEq, 3))
            } else {
                Some((TokenView::Shr, 2))
            }
        } else if p == Some('=') {
            Some((TokenView::Ge, 2))
        } else {
            Some((TokenView::Gt, 1))
        }
    } else if c == '<' {
        if p == Some('<') {
            if q == Some('=') {
                Some((TokenView::ShlEq, 3))
            } else {
                Some((TokenView::Shl, 2))
            }
        } else if p == Some('=') {
            Some((TokenView::Le, 2))
        } else {
            Some((TokenView::Lt, 1))
        }
    } else if c == '!' {
        if p == Some('=') {
            Some((TokenView::Ne, 2))
        } else {
            Some((TokenView::Bang, 1))
        }
    } else if c == '+' {
        if p == Some('=') {
            Some((TokenView::PlusEq, 2))
        } else if p == Some('+') {
            Some((TokenView::PlusPlus, 2))
        } else {
            Some((TokenView::Plus, 1))
        }
    } else if c == '-' {
        if p == Some('=') {
            Some((TokenView::MinusEq, 2))
        } else if p == Some('>') {
            Some((TokenView::Arrow, 2))
        } else if p == Some('-') {
            Some((TokenView::MinusMinus, 2))
        } else {
            Some((TokenView::Minus, 1))
        }
    } else if c == '&' {
        if p == Some('=') {
            Some((TokenView::AndEq, 2))
        } else if p == Some('&') {
            Some((TokenView::AndAnd, 2))
        } else {
            Some((TokenView::And, 1))
        }
    } else if c == '|' {
        if p == Some('=') {
            Some((TokenView::OrEq, 2))
        } else if p == Some('|') {
            Some((TokenView::OrOr, 2))
        } else {
            Some((TokenView::Or, 1))
        }
    } else if c == '*' {
        if p == Some('=') {
            Some((TokenView::StarEq, 2))
        } else {
            Some((TokenView::Star, 1))
        }
    } else if c == '/' {
        if p == Some('=') {
            Some((TokenView::SlashEq, 2))
        } else {
            Some((TokenView::Slash, 1))
        }
    } else if c == '^' {
        if p == Some('=') {
            Some((TokenView::CaretEq, 2))
        } else {
            Some((TokenView::Caret, 1))
        }
    } else if c == '%' {
        if p == Some('=') {
            Some((TokenView::PercentEq, 2))
        } else {
            Some((TokenView::Percent, 1))
        }
    } else {
        None
    }
}

/// Whether a comment starts with `c` before `p`.
pub open spec fn comment_starts(c: char, p: Option<char>) -> bool {
    c == '/' && (p == Some('/') || p == Some('*'))
}

/// Whether a number literal starts with `c` before `p`.
pub open spec fn number_starts(c: char, p: Option<char>) -> bool {
    is_ascii_digit(c) || (c == '.' && match p {
        Some(d) => is_ascii_digit(d),
        None => false,
    })
}

/// Reads the token that starts with the current character `c`: the state
/// behind it and the token, or `None` where `c` can start no token.
pub open spec fn scan_token(raw: Seq<char>, s: Lexing, c: char) -> (Lexing, Option<TokenView>) {
    let lo = pos_at(raw, s.at) as usize;
    let p = char_at(raw, s.at + 1);
    if java_whitespace(c) {
        (skip_whitespace(raw, s), Some(TokenView::Whitespace))
    } else if comment_starts(c, p) {
        (skip_comment(raw, s), Some(TokenView::Comment))
    } else if number_starts(c, p) {
        let r = scan_number_literal(raw, s, lo);
        (r.0, Some(TokenView::Literal(r.1)))
    } else if c == '"' {
        let r = scan_string_literal(raw, s, lo);
        (r.0, Some(TokenView::Literal(LitView::Str(r.1))))
    } else if c == '\'' {
        let r = scan_char_literal(raw, s, lo);
        (r.0, Some(TokenView::Literal(LitView::Char(r.1))))
    } else if symbol(c, p, char_at(raw, s.at + 2), char_at(raw, s.at + 3)) is Some {
        let sym = symbol(c, p, char_at(raw, s.at + 2), char_at(raw, s.at + 3)).unwrap();
        (bump_n(raw, s, sym.1), Some(sym.0))
    } else if java_ident_start(c) {
        let r = scan_word(raw, s, Seq::empty());
        (r.0, Some(word_token(r.1)))
    } else {
        (fatal(raw, s, lo, "illegal character in this context"@), None)
    }
}

/// Reads the next token: the state behind it, and the token with its span.
/// The span runs from the first byte of the token up to the byte at which
/// the tokenizer stands then, where the next token starts. At the end of
/// the source, and before a character that can start no token, there is no
/// token.
pub open spec fn next_token(raw: Seq<char>, s: Lexing) -> (Lexing, Option<TokenSpanView>) {
    match char_at(raw, s.at) {
        None => (s, None),
        Some(c) => {
            let r = scan_token(raw, s, c);
            match r.1 {
                None => (r.0, None),
                Some(tok) => (
                    r.0,
                    Some(
                        TokenSpanView {
                            tok,
                            span: Span {
                                lo: pos_at(raw, s.at) as usize,
                                hi: pos_at(raw, r.0.at) as usize,
                            },
                        },
                    ),
                ),
            }
        },
    }
}

/// Reads the next token that is neither whitespace nor a comment.
pub open spec fn next_real_token(raw: Seq<char>, s: Lexing) -> (Lexing, Option<TokenSpanView>)
    decreases left(raw, s),
    via next_real_token_ends
{
    let r = next_token(raw, s);
    match r.1 {
        Some(t) if !t.tok.is_real() => next_real_token(raw, r.0),
        _ => r,
    }
}

/// Each token read leaves fewer characters to read.
#[via_fn]
proof fn next_real_token_ends(raw: Seq<char>, s: Lexing) {
    crate::syntax::progress::lemma_next_token(raw, s);
}

/// Characters stand in the source in their order: one with a lower index
/// starts at a lower byte offset, and none starts behind the end.
pub proof fn lemma_pos_monotone(raw: Seq<char>, j: int, k: int)
    requires
        j <= k,
    ensures
        pos_at(raw, j) <= pos_at(raw, k) <= byte_len(raw),
        0 <= j < k && j < units(raw).len() ==> pos_at(raw, j) < end_at(raw, j) <= pos_at(raw, k),
    decreases k - j,
{
    lemma_units(raw);
    let u = units(raw);
    let t = tail(raw);
    lemma_byte_offset_monotone(raw, t.start, raw.len() as int);
    if 0 <= k < u.len() {
        lemma_byte_offset_monotone(raw, u[k].start, u[k].next);
        lemma_byte_offset_monotone(raw, u[k].next, raw.len() as int);
    }
    if j < k {
        lemma_pos_monotone(raw, j, k - 1);
        if 0 <= k - 1 < u.len() {
            let a = u[k - 1];
            lemma_byte_offset_monotone(raw, a.start, a.next);
            if k < u.len() {
                lemma_byte_offset_monotone(raw, a.next, u[k].start);
            } else {
                assert(u.last() == a);
                lemma_byte_offset_monotone(raw, a.next, t.start);
            }
        }
    }
}

} // verus!
