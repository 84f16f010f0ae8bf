//! Separators, operators and keywords are read back from their own texts:
//! one alone, and several with spaces between them.

use vstd::prelude::*;
use crate::chars::{java_ident_part, java_ident_start, java_whitespace};
use crate::diagnostics::ReportView;
use crate::syntax::decode::{decode_from, fetch, Fetch, sub_char, tail_from, units};
use crate::syntax::lexing::{
    bump, bump_n, char_at, comment_starts, fault_at, left, Lexing, next_real_token, next_token,
    number_starts, scan_token, scan_word, skip_whitespace, start, symbol, word_token,
};
use crate::syntax::progress::lemma_next_real_token;
use crate::syntax::token::{Keyword, lemma_keyword_round_trip, lemma_keyword_texts, TokenView};

verus! {

/// The token that `text` is: the one that a tokenizer reads from it, if
/// that token ends where the text ends.
pub open spec fn from_lexeme(text: Seq<char>) -> Option<TokenView> {
    let first = next_token(text, start(text));
    match first.1 {
        Some(t) => if char_at(text, first.0.at) is None {
            Some(t.tok)
        } else {
            None
        },
        None => None,
    }
}

/// Whether `text` holds neither a backslash nor a substitute character, so
/// that it reads as it stands.
pub open spec fn plain(text: Seq<char>) -> bool {
    forall|j: int| 0 <= j < text.len() ==> #[trigger] text[j] != '\\' && text[j] != sub_char()
}

/// The character of a plain text with index `k`, as it is found.
pub open spec fn plain_unit(text: Seq<char>, k: int) -> Fetch {
    Fetch { ch: Some(text[k]), start: k, next: k + 1, fault: None }
}

/// A plain text reads as it stands, from any index on.
pub proof fn lemma_plain_decode(text: Seq<char>, i: int, prev: Option<char>)
    requires
        plain(text),
        0 <= i <= text.len(),
    ensures
        decode_from(text, i, prev).len() == text.len() - i,
        forall|k: int|
            0 <= k < text.len() - i ==> #[trigger] decode_from(text, i, prev)[k] == plain_unit(
                text,
                i + k,
            ),
        tail_from(text, i, prev) == (Fetch {
            ch: None,
            start: text.len() as int,
            next: text.len() as int,
            fault: None,
        }),
    decreases text.len() - i,
{
    if i < text.len() {
        assert(text[i] != '\\' && text[i] != sub_char());
        let f = fetch(text, i, prev);
        assert(f == plain_unit(text, i));
        lemma_plain_decode(text, i + 1, f.ch);
        let rest = decode_from(text, i + 1, f.ch);
        let all = decode_from(text, i, prev);
        assert(all == seq![f] + rest);
        assert forall|k: int| 0 <= k < text.len() - i implies #[trigger] all[k] == plain_unit(
            text,
            i + k,
        ) by {
            if k > 0 {
                assert(all[k] == rest[k - 1]);
            }
        }
    }
}

/// A plain text reads as it stands, and nothing in it is reported.
pub proof fn lemma_plain(text: Seq<char>)
    requires
        plain(text),
    ensures
        units(text).len() == text.len(),
        forall|k: int| 0 <= k < text.len() ==> #[trigger] char_at(text, k) == Some(text[k]),
        forall|k: int| k < 0 || k >= text.len() ==> #[trigger] char_at(text, k) is None,
        forall|k: int| #[trigger] fault_at(text, k) is None,
        forall|s: Lexing| #[trigger] bump(text, s) == (Lexing { at: s.at + 1, diags: s.diags }),
        start(text) == (Lexing { at: 0, diags: Seq::empty() }),
{
    lemma_plain_decode(text, 0, None);
    assert forall|k: int| 0 <= k < text.len() implies #[trigger] char_at(text, k) == Some(
        text[k],
    ) by {
        assert(units(text)[k] == plain_unit(text, 0 + k));
    }
    assert forall|k: int| #[trigger] fault_at(text, k) is None by {
        if 0 <= k < text.len() {
            assert(units(text)[k] == plain_unit(text, 0 + k));
        }
    }
    assert forall|s: Lexing| #[trigger] bump(text, s) == (Lexing { at: s.at + 1, diags: s.diags }) by {
        assert(fault_at(text, s.at + 2) is None);
    }
}

/// In a plain text `n` steps lead `n` characters on and report nothing.
pub proof fn lemma_plain_bump_n(text: Seq<char>, s: Lexing, n: nat)
    requires
        plain(text),
    ensures
        bump_n(text, s, n) == (Lexing { at: s.at + n, diags: s.diags }),
    decreases n,
{
    lemma_plain(text);
    if n > 0 {
        lemma_plain_bump_n(text, bump(text, s), (n - 1) as nat);
    }
}

/// A state of reading.
pub open spec fn state(at: int, diags: Seq<ReportView>) -> Lexing {
    Lexing { at, diags }
}

/// Whether `word` stands in `text` at index `k`, with a space or the end of
/// the text behind it.
pub open spec fn placed(text: Seq<char>, k: int, word: Seq<char>) -> bool {
    &&& 0 <= k
    &&& k + word.len() <= text.len()
    &&& text.subrange(k, k + word.len()) == word
    &&& (k + word.len() == text.len() || text[k + word.len()] == ' ')
}

/// Whether the tokenizer, standing at index `k` of `text`, reads the token
/// `t` from the next `n` characters and reports nothing.
pub open spec fn reads_at(text: Seq<char>, k: int, t: TokenView, n: int) -> bool {
    forall|d: Seq<ReportView>|
        {
            let r = #[trigger] next_token(text, state(k, d));
            r.0 == state(k + n, d) && r.1 is Some && r.1.unwrap().tok == t
        }
}

/// A separator or an operator that starts at index `k` of a plain text is
/// read as that token.
pub proof fn lemma_symbol_at(text: Seq<char>, k: int, t: TokenView, n: nat)
    requires
        plain(text),
        0 <= k < text.len(),
        !java_whitespace(text[k]),
        !comment_starts(text[k], char_at(text, k + 1)),
        !number_starts(text[k], char_at(text, k + 1)),
        text[k] != '"',
        text[k] != '\'',
        symbol(text[k], char_at(text, k + 1), char_at(text, k + 2), char_at(text, k + 3)) == Some(
            (t, n),
        ),
    ensures
        reads_at(text, k, t, n as int),
{
    lemma_plain(text);
    assert forall|d: Seq<ReportView>|
        {
            let r = #[trigger] next_token(text, state(k, d));
            r.0 == state(k + n, d) && r.1 is Some && r.1.unwrap().tok == t
        } by {
        let s = state(k, d);
        assert(char_at(text, k) == Some(text[k]));
        lemma_plain_bump_n(text, s, n);
        assert(scan_token(text, s, text[k]).0 == bump_n(text, s, n));
    }
}

/// Whether the characters of `text` from index `k` up to `e` are small
/// ASCII letters.
pub open spec fn small_letters(text: Seq<char>, k: int, e: int) -> bool {
    forall|j: int| k <= j < e ==> 'a' <= #[trigger] text[j] && text[j] <= 'z'
}

/// A run of small letters in a plain text, with a space or the end of the
/// text behind it, is read as one word.
pub proof fn lemma_word_from(text: Seq<char>, s: Lexing, e: int, acc: Seq<char>)
    requires
        plain(text),
        0 <= s.at <= e <= text.len(),
        small_letters(text, s.at, e),
        e == text.len() || text[e] == ' ',
    ensures
        scan_word(text, s, acc) == (state(e, s.diags), acc + text.subrange(s.at, e)),
    decreases e - s.at,
{
    lemma_plain(text);
    if s.at < e {
        let c = text[s.at];
        assert(char_at(text, s.at) == Some(c));
        assert('a' <= c && c <= 'z');
        assert(java_ident_part(c));
        lemma_word_from(text, bump(text, s), e, acc.push(c));
        assert(acc.push(c) + text.subrange(s.at + 1, e) =~= acc + text.subrange(s.at, e));
    } else {
        if e < text.len() {
            assert(char_at(text, e) == Some(' '));
            assert(!java_ident_part(' '));
        } else {
            assert(char_at(text, e) is None);
        }
        assert(acc + text.subrange(s.at, e) =~= acc);
    }
}

/// A run of small letters in a plain text, with a space or the end of the
/// text behind it, is read as the word that it is.
pub proof fn lemma_word_at(text: Seq<char>, k: int, e: int)
    requires
        plain(text),
        0 <= k < e <= text.len(),
        small_letters(text, k, e),
        e == text.len() || text[e] == ' ',
    ensures
        reads_at(text, k, word_token(text.subrange(k, e)), e - k),
{
    lemma_plain(text);
    let c = text[k];
    assert('a' <= c && c <= 'z');
    assert(char_at(text, k) == Some(c));
    assert(java_ident_start(c));
    assert(symbol(c, char_at(text, k + 1), char_at(text, k + 2), char_at(text, k + 3)) is None);
    assert forall|d: Seq<ReportView>|
        {
            let r = #[trigger] next_token(text, state(k, d));
            r.0 == state(k + (e - k), d) && r.1 is Some && r.1.unwrap().tok == word_token(
                text.subrange(k, e),
            )
        } by {
        lemma_word_from(text, state(k, d), e, Seq::empty());
        assert(Seq::<char>::empty() + text.subrange(k, e) =~= text.subrange(k, e));
    }
}

/// `(` in a plain text, with a space or the end behind it, is read as
/// the token that it is.
proof fn lemma_at_paren_op(text: Seq<char>, k: int)
    requires
        plain(text),
        placed(text, k, "("@),
    ensures
        reads_at(text, k, TokenView::ParenOp, 1),
        !java_whitespace(text[k]),
{
    reveal_strlit("(");
    assert("("@ =~= seq!['(']);
    lemma_plain(text);
    assert(text[k + 0] == text.subrange(k, k + 1)[0]);
    lemma_symbol_at(text, k, TokenView::ParenOp, 1);
}

/// `)` in a plain text, with a space or the end behind it, is read as
/// the token that it is.
proof fn lemma_at_paren_cl(text: Seq<char>, k: int)
    requires
        plain(text),
        placed(text, k, ")"@),
    ensures
        reads_at(text, k, TokenView::ParenCl, 1),
        !java_whitespace(text[k]),
{
    reveal_strlit(")");
    assert(")"@ =~= seq![')']);
    lemma_plain(text);
    assert(text[k + 0] == text.subrange(k, k + 1)[0]);
    lemma_symbol_at(text, k, TokenView::ParenCl, 1);
}

/// `{` in a plain text, with a space or the end behind it, is read as
/// the token that it is.
proof fn lemma_at_brace_op(text: Seq<char>, k: int)
    requires
        plain(text),
        placed(text, k, "{"@),
    ensures
        reads_at(text, k, TokenView::BraceOp, 1),
        !java_whitespace(text[k]),
{
    reveal_strlit("{");
    assert("{"@ =~= seq!['{']);
    lemma_plain(text);
    assert(text[k + 0] == text.subrange(k, k + 1)[0]);
    lemma_symbol_at(text, k, TokenView::BraceOp, 1);
}

/// `}` in a plain text, with a space or the end behind it, is read as
/// the token that it is.
proof fn lemma_at_brace_cl(text: Seq<char>, k: int)
    requires
        plain(text),
        placed(text, k, "}"@),
    ensures
        reads_at(text, k, TokenView::BraceCl, 1),
        !java_whitespace(text[k]),
{
    reveal_strlit("}");
    assert("}"@ =~= seq!['}']);
    lemma_plain(text);
    assert(text[k + 0] == text.subrange(k, k + 1)[0]);
    lemma_symbol_at(text, k, TokenView::BraceCl, 1);
}

/// `[` in a plain text, with a space or the end behind it, is read as
/// the token that it is.
proof fn lemma_at_bracket_op(text: Seq<char>, k: int)
    requires
        plain(text),
        placed(text, k, "["@),
    ensures
        reads_at(text, k, TokenView::BracketOp, 1),
        !java_whitespace(text[k]),
{
    reveal_strlit("[");
    assert("["@ =~= seq!['[']);
    lemma_plain(text);
    assert(text[k + 0] == text.subrange(k, k + 1)[0]);
    lemma_symbol_at(text, k, TokenView::BracketOp, 1);
}

/// `]` in a plain text, with a space or the end behind it, is read as
/// the token that it is.
proof fn lemma_at_bracket_cl(text: Seq<char>, k: int)
    requires
        plain(text),
        placed(text, k, "]"@),
    ensures
        reads_at(text, k, TokenView::BracketCl, 1),
        !java_whitespace(text[k]),
{
    reveal_strlit("]");
    assert("]"@ =~= seq![']']);
    lemma_plain(text);
    assert(text[k + 0] == text.subrange(k, k + 1)[0]);
    lemma_symbol_at(text, k, TokenView::BracketCl, 1);
}

/// `;` in a plain text, with a space or the end behind it, is read as
/// the token that it is.
proof fn lemma_at_semi(text: Seq<char>, k: int)
    requires
        plain(text),
        placed(text, k, ";"@),
    ensures
        reads_at(text, k, TokenView::Semi, 1),
        !java_whitespace(text[k]),
{
    reveal_strlit(";");
    assert(";"@ =~= seq![';']);
    lemma_plain(text);
    assert(text[k + 0] == text.subrange(k, k + 1)[0]);
    lemma_symbol_at(text, k, TokenView::Semi, 1);
}

/// `,` in a plain text, with a space or the end behind it, is read as
/// the token that it is.
proof fn lemma_at_comma(text: Seq<char>, k: int)
    requires
        plain(text),
        placed(text, k, ","@),
    ensures
        reads_at(text, k, TokenView::Comma, 1),
        !java_whitespace(text[k]),
{
    reveal_strlit(",");
    assert(","@ =~= seq![',']);
    lemma_plain(text);
    assert(text[k + 0] == text.subrange(k, k + 1)[0]);
    lemma_symbol_at(text, k, TokenView::Comma, 1);
}

/// `.` in a plain text, with a space or the end behind it, is read as
/// the token that it is.
proof fn lemma_at_dot(text: Seq<char>, k: int)
    requires
        plain(text),
        placed(text, k, "."@),
    ensures
        reads_at(text, k, TokenView::Dot, 1),
        !java_whitespace(text[k]),
{
    reveal_strlit(".");
    assert("."@ =~= seq!['.']);
    lemma_plain(text);
    assert(text[k + 0] == text.subrange(k, k + 1)[0]);
    lemma_symbol_at(text, k, TokenView::Dot, 1);
}

/// `...` in a plain text, with a space or the end behind it, is read as
/// the token that it is.
proof fn lemma_at_dot_dot_dot(text: Seq<char>, k: int)
    requires
        plain(text),
        placed(text, k, "..."@),
    ensures
        reads_at(text, k, TokenView::DotDotDot, 3),
        !java_whitespace(text[k]),
{
    reveal_strlit("...");
    assert("..."@ =~= seq!['.', '.', '.']);
    lemma_plain(text);
    assert(text[k + 0] == text.subrange(k, k + 3)[0]);
    assert(text[k + 1] == text.subrange(k, k + 3)[1]);
    assert(text[k + 2] == text.subrange(k, k + 3)[2]);
    lemma_symbol_at(text, k, TokenView::DotDotDot, 3);
}

/// `@` in a plain text, with a space or the end behind it, is read as
/// the token that it is.
proof fn lemma_at_at(text: Seq<char>, k: int)
    requires
        plain(text),
        placed(text, k, "@"@),
    ensures
        reads_at(text, k, TokenView::At, 1),
        !java_whitespace(text[k]),
{
    reveal_strlit("@");
    assert("@"@ =~= seq!['@']);
    lemma_plain(text);
    assert(text[k + 0] == text.subrange(k, k + 1)[0]);
    lemma_symbol_at(text, k, TokenView::At, 1);
}

/// `::` in a plain text, with a space or the end behind it, is read as
/// the token that it is.
proof fn lemma_at_colon_sep(text: Seq<char>, k: int)
    requires
        plain(text),
        placed(text, k, "::"@),
    ensures
        reads_at(text, k, TokenView::ColonSep, 2),
        !java_whitespace(text[k]),
{
    reveal_strlit("::");
    assert("::"@ =~= seq![':', ':']);
    lemma_plain(text);
    assert(text[k + 0] == text.subrange(k, k + 2)[0]);
    assert(text[k + 1] == text.subrange(k, k + 2)[1]);
    lemma_symbol_at(text, k, TokenView::ColonSep, 2);
}

/// `=` in a plain text, with a space or the end behind it, is read as
/// the token that it is.
proof fn lemma_at_eq(text: Seq<char>, k: int)
    requires
        plain(text),
        placed(text, k, "="@),
    ensures
        reads_at(text, k, TokenView::Eq, 1),
        !java_whitespace(text[k]),
{
    reveal_strlit("=");
    assert("="@ =~= seq!['=']);
    lemma_plain(text);
    assert(text[k + 0] == text.subrange(k, k + 1)[0]);
    lemma_symbol_at(text, k, TokenView::Eq, 1);
}

/// `>` in a plain text, with a space or the end behind it, is read as
/// the token that it is.
proof fn lemma_at_gt(text: Seq<char>, k: int)
    requires
        plain(text),
        placed(text, k, ">"@),
    ensures
        reads_at(text, k, TokenView::Gt, 1),
        !java_whitespace(text[k]),
{
    reveal_strlit(">");
    assert(">"@ =~= seq!['>']);
    lemma_plain(text);
    assert(text[k + 0] == text.subrange(k, k + 1)[0]);
    lemma_symbol_at(text, k, TokenView::Gt, 1);
}

/// `<` in a plain text, with a space or the end behind it, is read as
/// the token that it is.
proof fn lemma_at_lt(text: Seq<char>, k: int)
    requires
        plain(text),
        placed(text, k, "<"@),
    ensures
        reads_at(text, k, TokenView::Lt, 1),
        !java_whitespace(text[k]),
{
    reveal_strlit("<");
    assert("<"@ =~= seq!['<']);
    lemma_plain(text);
    assert(text[k + 0] == text.subrange(k, k + 1)[0]);
    lemma_symbol_at(text, k, TokenView::Lt, 1);
}

/// `!` in a plain text, with a space or the end behind it, is read as
/// the token that it is.
proof fn lemma_at_bang(text: Seq<char>, k: int)
    requires
        plain(text),
        placed(text, k, "!"@),
    ensures
        reads_at(text, k, TokenView::Bang, 1),
        !java_whitespace(text[k]),
{
    reveal_strlit("!");
    assert("!"@ =~= seq!['!']);
    lemma_plain(text);
    assert(text[k + 0] == text.subrange(k, k + 1)[0]);
    lemma_symbol_at(text, k, TokenView::Bang, 1);
}

/// `~` in a plain text, with a space or the end behind it, is read as
/// the token that it is.
proof fn lemma_at_tilde(text: Seq<char>, k: int)
    requires
        plain(text),
        placed(text, k, "~"@),
    ensures
        reads_at(text, k, TokenView::Tilde, 1),
        !java_whitespace(text[k]),
{
    reveal_strlit("~");
    assert("~"@ =~= seq!['~']);
    lemma_plain(text);
    assert(text[k + 0] == text.subrange(k, k + 1)[0]);
    lemma_symbol_at(text, k, TokenView::Tilde, 1);
}

/// `?` in a plain text, with a space or the end behind it, is read as
/// the token that it is.
proof fn lemma_at_question(text: Seq<char>, k: int)
    requires
        plain(text),
        placed(text, k, "?"@),
    ensures
        reads_at(text, k, TokenView::Question, 1),
        !java_whitespace(text[k]),
{
    reveal_strlit("?");
    assert("?"@ =~= seq!['?']);
    lemma_plain(text);
    assert(text[k + 0] == text.subrange(k, k + 1)[0]);
    lemma_symbol_at(text, k, TokenView::Question, 1);
}

/// `:` in a plain text, with a space or the end behind it, is read as
/// the token that it is.
proof fn lemma_at_colon(text: Seq<char>, k: int)
    requires
        plain(text),
        placed(text, k, ":"@),
    ensures
        reads_at(text, k, TokenView::Colon, 1),
        !java_whitespace(text[k]),
{
    reveal_strlit(":");
    assert(":"@ =~= seq![':']);
    lemma_plain(text);
    assert(text[k + 0] == text.subrange(k, k + 1)[0]);
    lemma_symbol_at(text, k, TokenView::Colon, 1);
}

/// `->` in a plain text, with a space or the end behind it, is read as
/// the token that it is.
proof fn lemma_at_arrow(text: Seq<char>, k: int)
    requires
        plain(text),
        placed(text, k, "->"@),
    ensures
        reads_at(text, k, TokenView::Arrow, 2),
        !java_whitespace(text[k]),
{
    reveal_strlit("->");
    assert("->"@ =~= seq!['-', '>']);
    lemma_plain(text);
    assert(text[k + 0] == text.subrange(k, k + 2)[0]);
    assert(text[k + 1] == text.subrange(k, k + 2)[1]);
    lemma_symbol_at(text, k, TokenView::Arrow, 2);
}

/// `==` in a plain text, with a space or the end behind it, is read as
/// the token that it is.
proof fn lemma_at_eq_eq(text: Seq<char>, k: int)
    requires
        plain(text),
        placed(text, k, "=="@),
    ensures
        reads_at(text, k, TokenView::EqEq, 2),
        !java_whitespace(text[k]),
{
    reveal_strlit("==");
    assert("=="@ =~= seq!['=', '=']);
    lemma_plain(text);
    assert(text[k + 0] == text.subrange(k, k + 2)[0]);
    assert(text[k + 1] == text.subrange(k, k + 2)[1]);
    lemma_symbol_at(text, k, TokenView::EqEq, 2);
}

/// `>=` in a plain text, with a space or the end behind it, is read as
/// the token that it is.
proof fn lemma_at_ge(text: Seq<char>, k: int)
    requires
        plain(text),
        placed(text, k, ">="@),
    ensures
        reads_at(text, k, TokenView::Ge, 2),
        !java_whitespace(text[k]),
{
    reveal_strlit(">=");
    assert(">="@ =~= seq!['>', '=']);
    lemma_plain(text);
    assert(text[k + 0] == text.subrange(k, k + 2)[0]);
    assert(text[k + 1] == text.subrange(k, k + 2)[1]);
    lemma_symbol_at(text, k, TokenView::Ge, 2);
}

/// `<=` in a plain text, with a space or the end behind it, is read as
/// the token that it is.
proof fn lemma_at_le(text: Seq<char>, k: int)
    requires
        plain(text),
        placed(text, k, "<="@),
    ensures
        reads_at(text, k, TokenView::Le, 2),
        !java_whitespace(text[k]),
{
    reveal_strlit("<=");
    assert("<="@ =~= seq!['<', '=']);
    lemma_plain(text);
    assert(text[k + 0] == text.subrange(k, k + 2)[0]);
    assert(text[k + 1] == text.subrange(k, k + 2)[1]);
    lemma_symbol_at(text, k, TokenView::Le, 2);
}

/// `!=` in a plain text, with a space or the end behind it, is read as
/// the token that it is.
proof fn lemma_at_ne(text: Seq<char>, k: int)
    requires
        plain(text),
        placed(text, k, "!="@),
    ensures
        reads_at(text, k, TokenView::Ne, 2),
        !java_whitespace(text[k]),
{
    reveal_strlit("!=");
    assert("!="@ =~= seq!['!', '=']);
    lemma_plain(text);
    assert(text[k + 0] == text.subrange(k, k + 2)[0]);
    assert(text[k + 1] == text.subrange(k, k + 2)[1]);
    lemma_symbol_at(text, k, TokenView::Ne, 2);
}

/// `&&` in a plain text, with a space or the end behind it, is read as
/// the token that it is.
proof fn lemma_at_and_and(text: Seq<char>, k: int)
    requires
        plain(text),
        placed(text, k, "&&"@),
    ensures
        reads_at(text, k, TokenView::AndAnd, 2),
        !java_whitespace(text[k]),
{
    reveal_strlit("&&");
    assert("&&"@ =~= seq!['&', '&']);
    lemma_plain(text);
    assert(text[k + 0] == text.subrange(k, k + 2)[0]);
    assert(text[k + 1] == text.subrange(k, k + 2)[1]);
    lemma_symbol_at(text, k, TokenView::AndAnd, 2);
}

/// `||` in a plain text, with a space or the end behind it, is read as
/// the token that it is.
proof fn lemma_at_or_or(text: Seq<char>, k: int)
    requires
        plain(text),
        placed(text, k, "||"@),
    ensures
        reads_at(text, k, TokenView::OrOr, 2),
        !java_whitespace(text[k]),
{
    reveal_strlit("||");
    assert("||"@ =~= seq!['|', '|']);
    lemma_plain(text);
    assert(text[k + 0] == text.subrange(k, k + 2)[0]);
    assert(text[k + 1] == text.subrange(k, k + 2)[1]);
    lemma_symbol_at(text, k, TokenView::OrOr, 2);
}

/// `++` in a plain text, with a space or the end behind it, is read as
/// the token that it is.
proof fn lemma_at_plus_plus(text: Seq<char>, k: int)
    requires
        plain(text),
        placed(text, k, "++"@),
    ensures
        reads_at(text, k, TokenView::PlusPlus, 2),
        !java_whitespace(text[k]),
{
    reveal_strlit("++");
    assert("++"@ =~= seq!['+', '+']);
    lemma_plain(text);
    assert(text[k + 0] == text.subrange(k, k + 2)[0]);
    assert(text[k + 1] == text.subrange(k, k + 2)[1]);
    lemma_symbol_at(text, k, TokenView::PlusPlus, 2);
}

/// `--` in a plain text, with a space or the end behind it, is read as
/// the token that it is.
proof fn lemma_at_minus_minus(text: Seq<char>, k: int)
    requires
        plain(text),
        placed(text, k, "--"@),
    ensures
        reads_at(text, k, TokenView::MinusMinus, 2),
        !java_whitespace(text[k]),
{
    reveal_strlit("--");
    assert("--"@ =~= seq!['-', '-']);
    lemma_plain(text);
    assert(text[k + 0] == text.subrange(k, k + 2)[0]);
    assert(text[k + 1] == text.subrange(k, k + 2)[1]);
    lemma_symbol_at(text, k, TokenView::MinusMinus, 2);
}

/// `+` in a plain text, with a space or the end behind it, is read as
/// the token that it is.
proof fn lemma_at_plus(text: Seq<char>, k: int)
    requires
        plain(text),
        placed(text, k, "+"@),
    ensures
        reads_at(text, k, TokenView::Plus, 1),
        !java_whitespace(text[k]),
{
    reveal_strlit("+");
    assert("+"@ =~= seq!['+']);
    lemma_plain(text);
    assert(text[k + 0] == text.subrange(k, k + 1)[0]);
    lemma_symbol_at(text, k, TokenView::Plus, 1);
}

/// `-` in a plain text, with a space or the end behind it, is read as
/// the token that it is.
proof fn lemma_at_minus(text: Seq<char>, k: int)
    requires
        plain(text),
        placed(text, k, "-"@),
    ensures
        reads_at(text, k, TokenView::Minus, 1),
        !java_whitespace(text[k]),
{
    reveal_strlit("-");
    assert("-"@ =~= seq!['-']);
    lemma_plain(text);
    assert(text[k + 0] == text.subrange(k, k + 1)[0]);
    lemma_symbol_at(text, k, TokenView::Minus, 1);
}

/// `*` in a plain text, with a space or the end behind it, is read as
/// the token that it is.
proof fn lemma_at_star(text: Seq<char>, k: int)
    requires
        plain(text),
        placed(text, k, "*"@),
    ensures
        reads_at(text, k, TokenView::Star, 1),
        !java_whitespace(text[k]),
{
    reveal_strlit("*");
    assert("*"@ =~= seq!['*']);
    lemma_plain(text);
    assert(text[k + 0] == text.subrange(k, k + 1)[0]);
    lemma_symbol_at(text, k, TokenView::Star, 1);
}

/// `/` in a plain text, with a space or the end behind it, is read as
/// the token that it is.
proof fn lemma_at_slash(text: Seq<char>, k: int)
    requires
        plain(text),
        placed(text, k, "/"@),
    ensures
        reads_at(text, k, TokenView::Slash, 1),
        !java_whitespace(text[k]),
{
    reveal_strlit("/");
    assert("/"@ =~= seq!['/']);
    lemma_plain(text);
    assert(text[k + 0] == text.subrange(k, k + 1)[0]);
    lemma_symbol_at(text, k, TokenView::Slash, 1);
}

/// `&` in a plain text, with a space or the end behind it, is read as
/// the token that it is.
proof fn lemma_at_and(text: Seq<char>, k: int)
    requires
        plain(text),
        placed(text, k, "&"@),
    ensures
        reads_at(text, k, TokenView::And, 1),
        !java_whitespace(text[k]),
{
    reveal_strlit("&");
    assert("&"@ =~= seq!['&']);
    lemma_plain(text);
    assert(text[k + 0] == text.subrange(k, k + 1)[0]);
    lemma_symbol_at(text, k, TokenView::And, 1);
}

/// `|` in a plain text, with a space or the end behind it, is read as
/// the token that it is.
proof fn lemma_at_or(text: Seq<char>, k: int)
    requires
        plain(text),
        placed(text, k, "|"@),
    ensures
        reads_at(text, k, TokenView::Or, 1),
        !java_whitespace(text[k]),
{
    reveal_strlit("|");
    assert("|"@ =~= seq!['|']);
    lemma_plain(text);
    assert(text[k + 0] == text.subrange(k, k + 1)[0]);
    lemma_symbol_at(text, k, TokenView::Or, 1);
}

/// `^` in a plain text, with a space or the end behind it, is read as
/// the token that it is.
proof fn lemma_at_caret(text: Seq<char>, k: int)
    requires
        plain(text),
        placed(text, k, "^"@),
    ensures
        reads_at(text, k, TokenView::Caret, 1),
        !java_whitespace(text[k]),
{
    reveal_strlit("^");
    assert("^"@ =~= seq!['^']);
    lemma_plain(text);
    assert(text[k + 0] == text.subrange(k, k + 1)[0]);
    lemma_symbol_at(text, k, TokenView::Caret, 1);
}

/// `%` in a plain text, with a space or the end behind it, is read as
/// the token that it is.
proof fn lemma_at_percent(text: Seq<char>, k: int)
    requires
        plain(text),
        placed(text, k, "%"@),
    ensures
        reads_at(text, k, TokenView::Percent, 1),
        !java_whitespace(text[k]),
{
    reveal_strlit("%");
    assert("%"@ =~= seq!['%']);
    lemma_plain(text);
    assert(text[k + 0] == text.subrange(k, k + 1)[0]);
    lemma_symbol_at(text, k, TokenView::Percent, 1);
}

/// `<<` in a plain text, with a space or the end behind it, is read as
/// the token that it is.
proof fn lemma_at_shl(text: Seq<char>, k: int)
    requires
        plain(text),
        placed(text, k, "<<"@),
    ensures
        reads_at(text, k, TokenView::Shl, 2),
        !java_whitespace(text[k]),
{
    reveal_strlit("<<");
    assert("<<"@ =~= seq!['<', '<']);
    lemma_plain(text);
    assert(text[k + 0] == text.subrange(k, k + 2)[0]);
    assert(text[k + 1] == text.subrange(k, k + 2)[1]);
    lemma_symbol_at(text, k, TokenView::Shl, 2);
}

/// `>>` in a plain text, with a space or the end behind it, is read as
/// the token that it is.
proof fn lemma_at_shr(text: Seq<char>, k: int)
    requires
        plain(text),
        placed(text, k, ">>"@),
    ensures
        reads_at(text, k, TokenView::Shr, 2),
        !java_whitespace(text[k]),
{
    reveal_strlit(">>");
    assert(">>"@ =~= seq!['>', '>']);
    lemma_plain(text);
    assert(text[k + 0] == text.subrange(k, k + 2)[0]);
    assert(text[k + 1] == text.subrange(k, k + 2)[1]);
    lemma_symbol_at(text, k, TokenView::Shr, 2);
}

/// `>>>` in a plain text, with a space or the end behind it, is read as
/// the token that it is.
proof fn lemma_at_shr_un(text: Seq<char>, k: int)
    requires
        plain(text),
        placed(text, k, ">>>"@),
    ensures
        reads_at(text, k, TokenView::ShrUn, 3),
        !java_whitespace(text[k]),
{
    reveal_strlit(">>>");
    assert(">>>"@ =~= seq!['>', '>', '>']);
    lemma_plain(text);
    assert(text[k + 0] == text.subrange(k, k + 3)[0]);
    assert(text[k + 1] == text.subrange(k, k + 3)[1]);
    assert(text[k + 2] == text.subrange(k, k + 3)[2]);
    lemma_symbol_at(text, k, TokenView::ShrUn, 3);
}

/// `+=` in a plain text, with a space or the end behind it, is read as
/// the token that it is.
proof fn lemma_at_plus_eq(text: Seq<char>, k: int)
    requires
        plain(text),
        placed(text, k, "+="@),
    ensures
        reads_at(text, k, TokenView::PlusEq, 2),
        !java_whitespace(text[k]),
{
    reveal_strlit("+=");
    assert("+="@ =~= seq!['+', '=']);
    lemma_plain(text);
    assert(text[k + 0] == text.subrange(k, k + 2)[0]);
    assert(text[k + 1] == text.subrange(k, k + 2)[1]);
    lemma_symbol_at(text, k, TokenView::PlusEq, 2);
}

/// `-=` in a plain text, with a space or the end behind it, is read as
/// the token that it is.
proof fn lemma_at_minus_eq(text: Seq<char>, k: int)
    requires
        plain(text),
        placed(text, k, "-="@),
    ensures
        reads_at(text, k, TokenView::MinusEq, 2),
        !java_whitespace(text[k]),
{
    reveal_strlit("-=");
    assert("-="@ =~= seq!['-', '=']);
    lemma_plain(text);
    assert(text[k + 0] == text.subrange(k, k + 2)[0]);
    assert(text[k + 1] == text.subrange(k, k + 2)[1]);
    lemma_symbol_at(text, k, TokenView::MinusEq, 2);
}

/// `*=` in a plain text, with a space or the end behind it, is read as
/// the token that it is.
proof fn lemma_at_star_eq(text: Seq<char>, k: int)
    requires
        plain(text),
        placed(text, k, "*="@),
    ensures
        reads_at(text, k, TokenView::StarEq, 2),
        !java_whitespace(text[k]),
{
    reveal_strlit("*=");
    assert("*="@ =~= seq!['*', '=']);
    lemma_plain(text);
    assert(text[k + 0] == text.subrange(k, k + 2)[0]);
    assert(text[k + 1] == text.subrange(k, k + 2)[1]);
    lemma_symbol_at(text, k, TokenView::StarEq, 2);
}

/// `/=` in a plain text, with a space or the end behind it, is read as
/// the token that it is.
proof fn lemma_at_slash_eq(text: Seq<char>, k: int)
    requires
        plain(text),
        placed(text, k, "/="@),
    ensures
        reads_at(text, k, TokenView::SlashEq, 2),
        !java_whitespace(text[k]),
{
    reveal_strlit("/=");
    assert("/="@ =~= seq!['/', '=']);
    lemma_plain(text);
    assert(text[k + 0] == text.subrange(k, k + 2)[0]);
    assert(text[k + 1] == text.subrange(k, k + 2)[1]);
    lemma_symbol_at(text, k, TokenView::SlashEq, 2);
}

/// `&=` in a plain text, with a space or the end behind it, is read as
/// the token that it is.
proof fn lemma_at_and_eq(text: Seq<char>, k: int)
    requires
        plain(text),
        placed(text, k, "&="@),
    ensures
        reads_at(text, k, TokenView::AndEq, 2),
        !java_whitespace(text[k]),
{
    reveal_strlit("&=");
    assert("&="@ =~= seq!['&', '=']);
    lemma_plain(text);
    assert(text[k + 0] == text.subrange(k, k + 2)[0]);
    assert(text[k + 1] == text.subrange(k, k + 2)[1]);
    lemma_symbol_at(text, k, TokenView::AndEq, 2);
}

/// `|=` in a plain text, with a space or the end behind it, is read as
/// the token that it is.
proof fn lemma_at_or_eq(text: Seq<char>, k: int)
    requires
        plain(text),
        placed(text, k, "|="@),
    ensures
        reads_at(text, k, TokenView::OrEq, 2),
        !java_whitespace(text[k]),
{
    reveal_strlit("|=");
    assert("|="@ =~= seq!['|', '=']);
    lemma_plain(text);
    assert(text[k + 0] == text.subrange(k, k + 2)[0]);
    assert(text[k + 1] == text.subrange(k, k + 2)[1]);
    lemma_symbol_at(text, k, TokenView::OrEq, 2);
}

/// `^=` in a plain text, with a space or the end behind it, is read as
/// the token that it is.
proof fn lemma_at_caret_eq(text: Seq<char>, k: int)
    requires
        plain(text),
        placed(text, k, "^="@),
    ensures
        reads_at(text, k, TokenView::CaretEq, 2),
        !java_whitespace(text[k]),
{
    reveal_strlit("^=");
    assert("^="@ =~= seq!['^', '=']);
    lemma_plain(text);
    assert(text[k + 0] == text.subrange(k, k + 2)[0]);
    assert(text[k + 1] == text.subrange(k, k + 2)[1]);
    lemma_symbol_at(text, k, TokenView::CaretEq, 2);
}

/// `%=` in a plain text, with a space or the end behind it, is read as
/// the token that it is.
proof fn lemma_at_percent_eq(text: Seq<char>, k: int)
    requires
        plain(text),
        placed(text, k, "%="@),
    ensures
        reads_at(text, k, TokenView::PercentEq, 2),
        !java_whitespace(text[k]),
{
    reveal_strlit("%=");
    assert("%="@ =~= seq!['%', '=']);
    lemma_plain(text);
    assert(text[k + 0] == text.subrange(k, k + 2)[0]);
    assert(text[k + 1] == text.subrange(k, k + 2)[1]);
    lemma_symbol_at(text, k, TokenView::PercentEq, 2);
}

/// `<<=` in a plain text, with a space or the end behind it, is read as
/// the token that it is.
proof fn lemma_at_shl_eq(text: Seq<char>, k: int)
    requires
        plain(text),
        placed(text, k, "<<="@),
    ensures
        reads_at(text, k, TokenView::ShlEq, 3),
        !java_whitespace(text[k]),
{
    reveal_strlit("<<=");
    assert("<<="@ =~= seq!['<', '<', '=']);
    lemma_plain(text);
    assert(text[k + 0] == text.subrange(k, k + 3)[0]);
    assert(text[k + 1] == text.subrange(k, k + 3)[1]);
    assert(text[k + 2] == text.subrange(k, k + 3)[2]);
    lemma_symbol_at(text, k, TokenView::ShlEq, 3);
}

/// `>>=` in a plain text, with a space or the end behind it, is read as
/// the token that it is.
proof fn lemma_at_shr_eq(text: Seq<char>, k: int)
    requires
        plain(text),
        placed(text, k, ">>="@),
    ensures
        reads_at(text, k, TokenView::ShrEq, 3),
        !java_whitespace(text[k]),
{
    reveal_strlit(">>=");
    assert(">>="@ =~= seq!['>', '>', '=']);
    lemma_plain(text);
    assert(text[k + 0] == text.subrange(k, k + 3)[0]);
    assert(text[k + 1] == text.subrange(k, k + 3)[1]);
    assert(text[k + 2] == text.subrange(k, k + 3)[2]);
    lemma_symbol_at(text, k, TokenView::ShrEq, 3);
}

/// `>>>=` in a plain text, with a space or the end behind it, is read as
/// the token that it is.
proof fn lemma_at_shr_un_eq(text: Seq<char>, k: int)
    requires
        plain(text),
        placed(text, k, ">>>="@),
    ensures
        reads_at(text, k, TokenView::ShrUnEq, 4),
        !java_whitespace(text[k]),
{
    reveal_strlit(">>>=");
    assert(">>>="@ =~= seq!['>', '>', '>', '=']);
    lemma_plain(text);
    assert(text[k + 0] == text.subrange(k, k + 4)[0]);
    assert(text[k + 1] == text.subrange(k, k + 4)[1]);
    assert(text[k + 2] == text.subrange(k, k + 4)[2]);
    assert(text[k + 3] == text.subrange(k, k + 4)[3]);
    lemma_symbol_at(text, k, TokenView::ShrUnEq, 4);
}

/// A keyword in a plain text, with a space or the end behind it, is read
/// as that keyword.
proof fn lemma_at_keyword(text: Seq<char>, k: int, kw: Keyword)
    requires
        plain(text),
        placed(text, k, kw.java_text()),
    ensures
        reads_at(text, k, TokenView::KeyW(kw), kw.java_text().len() as int),
        kw.java_text().len() >= 1,
        !java_whitespace(text[k]),
{
    lemma_keyword_texts();
    lemma_keyword_round_trip(kw);
    reveal_strlit("true");
    reveal_strlit("false");
    reveal_strlit("null");
    assert("true"@.len() == 4 && "true"@[0] == 't');
    assert("false"@.len() == 5 && "false"@[1] == 'a');
    assert("null"@.len() == 4 && "null"@[0] == 'n');
    let word = kw.java_text();
    let e = k + word.len();
    assert forall|j: int| k <= j < e implies 'a' <= #[trigger] text[j] && text[j] <= 'z' by {
        assert(text[j] == text.subrange(k, e)[j - k]);
        assert('a' <= word[j - k] && word[j - k] <= 'z');
    }
    assert(text[k] == text.subrange(k, e)[0]);
    lemma_word_at(text, k, e);
}

/// Whether a token is a separator, an operator or a keyword.
pub open spec fn is_symbol(t: TokenView) -> bool {
    t.is_real() && !t.has_payload()
}

/// A separator, an operator or a keyword that stands in a plain text, with
/// a space or the end of the text behind it, is read as that token, and
/// nothing is reported.
pub proof fn lemma_token_at(text: Seq<char>, k: int, t: TokenView)
    requires
        plain(text),
        is_symbol(t),
        placed(text, k, t.java_text()),
    ensures
        reads_at(text, k, t, t.java_text().len() as int),
        t.java_text().len() >= 1,
        !java_whitespace(text[k]),
{
    match t {
        TokenView::KeyW(kw) => lemma_at_keyword(text, k, kw),
        TokenView::ParenOp => {
            reveal_strlit("(");
            lemma_at_paren_op(text, k);
        },
        TokenView::ParenCl => {
            reveal_strlit(")");
            lemma_at_paren_cl(text, k);
        },
        TokenView::BraceOp => {
            reveal_strlit("{");
            lemma_at_brace_op(text, k);
        },
        TokenView::BraceCl => {
            reveal_strlit("}");
            lemma_at_brace_cl(text, k);
        },
        TokenView::BracketOp => {
            reveal_strlit("[");
            lemma_at_bracket_op(text, k);
        },
        TokenView::BracketCl => {
            reveal_strlit("]");
            lemma_at_bracket_cl(text, k);
        },
        TokenView::Semi => {
            reveal_strlit(";");
            lemma_at_semi(text, k);
        },
        TokenView::Comma => {
            reveal_strlit(",");
            lemma_at_comma(text, k);
        },
        TokenView::Dot => {
            reveal_strlit(".");
            lemma_at_dot(text, k);
        },
        TokenView::DotDotDot => {
            reveal_strlit("...");
            lemma_at_dot_dot_dot(text, k);
        },
        TokenView::At => {
            reveal_strlit("@");
            lemma_at_at(text, k);
        },
        TokenView::ColonSep => {
            reveal_strlit("::");
            lemma_at_colon_sep(text, k);
        },
        TokenView::Eq => {
            reveal_strlit("=");
            lemma_at_eq(text, k);
        },
        TokenView::Gt => {
            reveal_strlit(">");
            lemma_at_gt(text, k);
        },
        TokenView::Lt => {
            reveal_strlit("<");
            lemma_at_lt(text, k);
        },
        TokenView::Bang => {
            reveal_strlit("!");
            lemma_at_bang(text, k);
        },
        TokenView::Tilde => {
            reveal_strlit("~");
            lemma_at_tilde(text, k);
        },
        TokenView::Question => {
            reveal_strlit("?");
            lemma_at_question(text, k);
        },
        TokenView::Colon => {
            reveal_strlit(":");
            lemma_at_colon(text, k);
        },
        TokenView::Arrow => {
            reveal_strlit("->");
            lemma_at_arrow(text, k);
        },
        TokenView::EqEq => {
            reveal_strlit("==");
            lemma_at_eq_eq(text, k);
        },
        TokenView::Ge => {
            reveal_strlit(">=");
            lemma_at_ge(text, k);
        },
        TokenView::Le => {
            reveal_strlit("<=");
            lemma_at_le(text, k);
        },
        TokenView::Ne => {
            reveal_strlit("!=");
            lemma_at_ne(text, k);
        },
        TokenView::AndAnd => {
            reveal_strlit("&&");
            lemma_at_and_and(text, k);
        },
        TokenView::OrOr => {
            reveal_strlit("||");
            lemma_at_or_or(text, k);
        },
        TokenView::PlusPlus => {
            reveal_strlit("++");
            lemma_at_plus_plus(text, k);
        },
        TokenView::MinusMinus => {
            reveal_strlit("--");
            lemma_at_minus_minus(text, k);
        },
        TokenView::Plus => {
            reveal_strlit("+");
            lemma_at_plus(text, k);
        },
        TokenView::Minus => {
            reveal_strlit("-");
            lemma_at_minus(text, k);
        },
        TokenView::Star => {
            reveal_strlit("*");
            lemma_at_star(text, k);
        },
        TokenView::Slash => {
            reveal_strlit("/");
            lemma_at_slash(text, k);
        },
        TokenView::And => {
            reveal_strlit("&");
            lemma_at_and(text, k);
        },
        TokenView::Or => {
            reveal_strlit("|");
            lemma_at_or(text, k);
        },
        TokenView::Caret => {
            reveal_strlit("^");
            lemma_at_caret(text, k);
        },
        TokenView::Percent => {
            reveal_strlit("%");
            lemma_at_percent(text, k);
        },
        TokenView::Shl => {
            reveal_strlit("<<");
            lemma_at_shl(text, k);
        },
        TokenView::Shr => {
            reveal_strlit(">>");
            lemma_at_shr(text, k);
        },
        TokenView::ShrUn => {
            reveal_strlit(">>>");
            lemma_at_shr_un(text, k);
        },
        TokenView::PlusEq => {
            reveal_strlit("+=");
            lemma_at_plus_eq(text, k);
        },
        TokenView::MinusEq => {
            reveal_strlit("-=");
            lemma_at_minus_eq(text, k);
        },
        TokenView::StarEq => {
            reveal_strlit("*=");
            lemma_at_star_eq(text, k);
        },
        TokenView::SlashEq => {
            reveal_strlit("/=");
            lemma_at_slash_eq(text, k);
        },
        TokenView::AndEq => {
            reveal_strlit("&=");
            lemma_at_and_eq(text, k);
        },
        TokenView::OrEq => {
            reveal_strlit("|=");
            lemma_at_or_eq(text, k);
        },
        TokenView::CaretEq => {
            reveal_strlit("^=");
            lemma_at_caret_eq(text, k);
        },
        TokenView::PercentEq => {
            reveal_strlit("%=");
            lemma_at_percent_eq(text, k);
        },
        TokenView::ShlEq => {
            reveal_strlit("<<=");
            lemma_at_shl_eq(text, k);
        },
        TokenView::ShrEq => {
            reveal_strlit(">>=");
            lemma_at_shr_eq(text, k);
        },
        TokenView::ShrUnEq => {
            reveal_strlit(">>>=");
            lemma_at_shr_un_eq(text, k);
        },
        _ => {},
    }
}

/// The text of a separator, an operator or a keyword is plain.
pub proof fn lemma_token_text_is_plain(t: TokenView)
    requires
        is_symbol(t),
    ensures
        plain(t.java_text()),
{
    lemma_symbol_texts();
    lemma_keyword_texts();
}

/// The text of a separator, an operator or a keyword is read back as that
/// token, and nothing is reported.
pub proof fn lemma_lexeme_round_trip(t: TokenView)
    requires
        is_symbol(t),
    ensures
        from_lexeme(t.java_text()) == Some(t),
        next_token(t.java_text(), start(t.java_text())).0.diags.len() == 0,
{
    let text = t.java_text();
    lemma_token_text_is_plain(t);
    lemma_plain(text);
    assert(text.subrange(0, text.len() as int) =~= text);
    lemma_token_at(text, 0, t);
    assert(start(text) == state(0, Seq::empty()));
    let r = next_token(text, state(0, Seq::empty()));
    assert(r.0 == state(text.len() as int, Seq::empty()));
    assert(char_at(text, text.len() as int) is None);
}

/// The texts of the tokens, with one space between each two.
pub open spec fn spaced(tokens: Seq<TokenView>) -> Seq<char>
    decreases tokens.len(),
{
    if tokens.len() == 0 {
        Seq::empty()
    } else if tokens.len() == 1 {
        tokens[0].java_text()
    } else {
        tokens[0].java_text() + seq![' '] + spaced(tokens.drop_first())
    }
}

/// The real tokens that the tokenizer reads from the state `s` on, up to
/// the end of the source or to a character that starts no token.
pub open spec fn real_tokens_from(raw: Seq<char>, s: Lexing) -> Seq<TokenView>
    decreases left(raw, s),
    via real_tokens_from_ends
{
    let r = next_real_token(raw, s);
    match r.1 {
        Some(t) => seq![t.tok] + real_tokens_from(raw, r.0),
        None => Seq::empty(),
    }
}

/// Each token read leaves fewer characters to read.
#[via_fn]
proof fn real_tokens_from_ends(raw: Seq<char>, s: Lexing) {
    lemma_next_real_token(raw, s);
}

/// The real tokens of a source.
pub open spec fn real_tokens(raw: Seq<char>) -> Seq<TokenView> {
    real_tokens_from(raw, start(raw))
}

/// Whether each of the tokens is a separator, an operator or a keyword.
pub open spec fn all_symbols(tokens: Seq<TokenView>) -> bool {
    forall|i: int| 0 <= i < tokens.len() ==> is_symbol(#[trigger] tokens[i])
}

/// Where the texts of some tokens stand in a text from index `k` on, the
/// first of them stands at `k`, and the others stand behind a space.
proof fn lemma_first_is_placed(text: Seq<char>, k: int, tokens: Seq<TokenView>)
    requires
        0 <= k <= text.len(),
        tokens.len() > 0,
        text.skip(k) == spaced(tokens),
    ensures
        placed(text, k, tokens[0].java_text()),
        tokens.len() == 1 ==> k + tokens[0].java_text().len() == text.len(),
        tokens.len() > 1 ==> text.skip(k + tokens[0].java_text().len()) == seq![' '] + spaced(
            tokens.drop_first(),
        ),
{
    let word = tokens[0].java_text();
    let n = word.len() as int;
    let rest = text.skip(k);
    if tokens.len() == 1 {
        assert(rest.len() == n);
        assert(text.subrange(k, k + n) =~= rest);
    } else {
        let more = seq![' '] + spaced(tokens.drop_first());
        assert(rest =~= word + more);
        assert(rest.len() == n + more.len());
        assert(text.subrange(k, k + n) =~= word) by {
            assert forall|i: int| 0 <= i < n implies text.subrange(k, k + n)[i] == word[i] by {
                assert(rest[i] == word[i]);
            }
        }
        assert(text[k + n] == rest[n]);
        assert(rest[n] == more[0]);
        assert(text.skip(k + n) =~= more) by {
            assert forall|i: int| 0 <= i < more.len() implies text.skip(k + n)[i] == more[i] by {
                assert(rest[n + i] == more[i]);
            }
        }
    }
}

/// The texts of separators, operators and keywords that stand in a plain
/// text with one space between each two are read as those tokens. `lead`
/// says whether the tokenizer stands at the space before the first.
proof fn lemma_spaced_from(
    text: Seq<char>,
    k: int,
    d: Seq<ReportView>,
    tokens: Seq<TokenView>,
    lead: bool,
)
    requires
        plain(text),
        all_symbols(tokens),
        tokens.len() > 0,
        0 <= k <= text.len(),
        text.skip(k) == if lead {
            seq![' '] + spaced(tokens)
        } else {
            spaced(tokens)
        },
    ensures
        real_tokens_from(text, state(k, d)) == tokens,
    decreases tokens.len(), if lead { 1int } else { 0int },
{
    lemma_plain(text);
    let s = state(k, d);
    if lead {
        let rest = text.skip(k);
        assert(rest.len() >= 1);
        assert(text[k] == rest[0]);
        assert(text.skip(k + 1) =~= spaced(tokens)) by {
            assert forall|i: int| 0 <= i < spaced(tokens).len() implies text.skip(k + 1)[i]
                == spaced(tokens)[i] by {
                assert(rest[i + 1] == spaced(tokens)[i]);
            }
        }
        lemma_first_is_placed(text, k + 1, tokens);
        assert(is_symbol(tokens[0]));
        lemma_token_at(text, k + 1, tokens[0]);
        assert(char_at(text, k) == Some(' '));
        assert(char_at(text, k + 1) == Some(text[k + 1]));
        assert(skip_whitespace(text, bump(text, s)) == bump(text, s));
        assert(skip_whitespace(text, s) == state(k + 1, d));
        assert(scan_token(text, s, ' ').0 == state(k + 1, d));
        assert(next_token(text, s).0 == state(k + 1, d));
        assert(next_token(text, s).1.unwrap().tok == TokenView::Whitespace);
        assert(next_real_token(text, s) == next_real_token(text, state(k + 1, d)));
        lemma_spaced_from(text, k + 1, d, tokens, false);
    } else {
        lemma_first_is_placed(text, k, tokens);
        let t = tokens[0];
        assert(is_symbol(t));
        lemma_token_at(text, k, t);
        let n = t.java_text().len() as int;
        let r = next_token(text, state(k, d));
        assert(r.0 == state(k + n, d));
        assert(next_real_token(text, s) == r);
        if tokens.len() == 1 {
            assert(char_at(text, k + n) is None);
            assert(next_token(text, state(k + n, d)).1 is None);
            assert(next_real_token(text, state(k + n, d)).1 is None);
            assert(real_tokens_from(text, state(k + n, d)) =~= Seq::<TokenView>::empty());
            assert(seq![t] + Seq::<TokenView>::empty() =~= tokens);
        } else {
            let others = tokens.drop_first();
            assert(all_symbols(others)) by {
                assert forall|i: int| 0 <= i < others.len() implies is_symbol(
                    #[trigger] others[i],
                ) by {
                    assert(others[i] == tokens[i + 1]);
                }
            }
            lemma_spaced_from(text, k + n, d, others, true);
            assert(seq![t] + others =~= tokens);
        }
    }
}

/// The text of separators, operators and keywords with a space between
/// each two is plain.
proof fn lemma_spaced_is_plain(tokens: Seq<TokenView>)
    requires
        all_symbols(tokens),
    ensures
        plain(spaced(tokens)),
    decreases tokens.len(),
{
    if tokens.len() > 0 {
        assert(is_symbol(tokens[0]));
        lemma_token_text_is_plain(tokens[0]);
        if tokens.len() > 1 {
            let others = tokens.drop_first();
            assert forall|i: int| 0 <= i < others.len() implies is_symbol(#[trigger] others[i]) by {
                assert(others[i] == tokens[i + 1]);
            }
            lemma_spaced_is_plain(others);
            let word = tokens[0].java_text();
            let all = spaced(tokens);
            assert forall|j: int| 0 <= j < all.len() implies #[trigger] all[j] != '\\' && all[j]
                != sub_char() by {
                if j < word.len() {
                    assert(all[j] == word[j]);
                } else if j > word.len() {
                    assert(all[j] == spaced(others)[j - word.len() - 1]);
                }
            }
        }
    }
}

/// Separators, operators and keywords, written one behind the other with
/// a space between each two, are read back as the same tokens in the same
/// order.
pub proof fn lemma_spaced_round_trip(tokens: Seq<TokenView>)
    requires
        all_symbols(tokens),
    ensures
        real_tokens(spaced(tokens)) == tokens,
{
    let text = spaced(tokens);
    lemma_spaced_is_plain(tokens);
    lemma_plain(text);
    if tokens.len() == 0 {
        assert(char_at(text, 0) is None);
        assert(real_tokens(text) =~= tokens);
    } else {
        assert(text.skip(0) =~= text);
        lemma_spaced_from(text, 0, Seq::empty(), tokens, false);
    }
}

/// The text that `c` and the characters behind it spell, `n` of them.
pub open spec fn spelled(c: char, p: Option<char>, q: Option<char>, r: Option<char>, n: nat) -> Seq<
    char,
> {
    if n <= 1 {
        seq![c]
    } else if n == 2 {
        seq![c, p.unwrap()]
    } else if n == 3 {
        seq![c, p.unwrap(), q.unwrap()]
    } else {
        seq![c, p.unwrap(), q.unwrap(), r.unwrap()]
    }
}

/// What the text of each separator and operator holds.
proof fn lemma_symbol_texts()
    ensures
        "("@ == seq!['('],
        ")"@ == seq![')'],
        "{"@ == seq!['{'],
        "}"@ == seq!['}'],
        "["@ == seq!['['],
        "]"@ == seq![']'],
        ";"@ == seq![';'],
        ","@ == seq![','],
        "."@ == seq!['.'],
        "..."@ == seq!['.', '.', '.'],
        "@"@ == seq!['@'],
        "::"@ == seq![':', ':'],
        "="@ == seq!['='],
        ">"@ == seq!['>'],
        "<"@ == seq!['<'],
        "!"@ == seq!['!'],
        "~"@ == seq!['~'],
        "?"@ == seq!['?'],
        ":"@ == seq![':'],
        "->"@ == seq!['-', '>'],
        "=="@ == seq!['=', '='],
        ">="@ == seq!['>', '='],
        "<="@ == seq!['<', '='],
        "!="@ == seq!['!', '='],
        "&&"@ == seq!['&', '&'],
        "||"@ == seq!['|', '|'],
        "++"@ == seq!['+', '+'],
        "--"@ == seq!['-', '-'],
        "+"@ == seq!['+'],
        "-"@ == seq!['-'],
        "*"@ == seq!['*'],
        "/"@ == seq!['/'],
        "&"@ == seq!['&'],
        "|"@ == seq!['|'],
        "^"@ == seq!['^'],
        "%"@ == seq!['%'],
        "<<"@ == seq!['<', '<'],
        ">>"@ == seq!['>', '>'],
        ">>>"@ == seq!['>', '>', '>'],
        "+="@ == seq!['+', '='],
        "-="@ == seq!['-', '='],
        "*="@ == seq!['*', '='],
        "/="@ == seq!['/', '='],
        "&="@ == seq!['&', '='],
        "|="@ == seq!['|', '='],
        "^="@ == seq!['^', '='],
        "%="@ == seq!['%', '='],
        "<<="@ == seq!['<', '<', '='],
        ">>="@ == seq!['>', '>', '='],
        ">>>="@ == seq!['>', '>', '>', '='],
{
    reveal_strlit("(");
    assert("("@ =~= seq!['(']);
    reveal_strlit(")");
    assert(")"@ =~= seq![')']);
    reveal_strlit("{");
    assert("{"@ =~= seq!['{']);
    reveal_strlit("}");
    assert("}"@ =~= seq!['}']);
    reveal_strlit("[");
    assert("["@ =~= seq!['[']);
    reveal_strlit("]");
    assert("]"@ =~= seq![']']);
    reveal_strlit(";");
    assert(";"@ =~= seq![';']);
    reveal_strlit(",");
    assert(","@ =~= seq![',']);
    reveal_strlit(".");
    assert("."@ =~= seq!['.']);
    reveal_strlit("...");
    assert("..."@ =~= seq!['.', '.', '.']);
    reveal_strlit("@");
    assert("@"@ =~= seq!['@']);
    reveal_strlit("::");
    assert("::"@ =~= seq![':', ':']);
    reveal_strlit("=");
    assert("="@ =~= seq!['=']);
    reveal_strlit(">");
    assert(">"@ =~= seq!['>']);
    reveal_strlit("<");
    assert("<"@ =~= seq!['<']);
    reveal_strlit("!");
    assert("!"@ =~= seq!['!']);
    reveal_strlit("~");
    assert("~"@ =~= seq!['~']);
    reveal_strlit("?");
    assert("?"@ =~= seq!['?']);
    reveal_strlit(":");
    assert(":"@ =~= seq![':']);
    reveal_strlit("->");
    assert("->"@ =~= seq!['-', '>']);
    reveal_strlit("==");
    assert("=="@ =~= seq!['=', '=']);
    reveal_strlit(">=");
    assert(">="@ =~= seq!['>', '=']);
    reveal_strlit("<=");
    assert("<="@ =~= seq!['<', '=']);
    reveal_strlit("!=");
    assert("!="@ =~= seq!['!', '=']);
    reveal_strlit("&&");
    assert("&&"@ =~= seq!['&', '&']);
    reveal_strlit("||");
    assert("||"@ =~= seq!['|', '|']);
    reveal_strlit("++");
    assert("++"@ =~= seq!['+', '+']);
    reveal_strlit("--");
    assert("--"@ =~= seq!['-', '-']);
    reveal_strlit("+");
    assert("+"@ =~= seq!['+']);
    reveal_strlit("-");
    assert("-"@ =~= seq!['-']);
    reveal_strlit("*");
    assert("*"@ =~= seq!['*']);
    reveal_strlit("/");
    assert("/"@ =~= seq!['/']);
    reveal_strlit("&");
    assert("&"@ =~= seq!['&']);
    reveal_strlit("|");
    assert("|"@ =~= seq!['|']);
    reveal_strlit("^");
    assert("^"@ =~= seq!['^']);
    reveal_strlit("%");
    assert("%"@ =~= seq!['%']);
    reveal_strlit("<<");
    assert("<<"@ =~= seq!['<', '<']);
    reveal_strlit(">>");
    assert(">>"@ =~= seq!['>', '>']);
    reveal_strlit(">>>");
    assert(">>>"@ =~= seq!['>', '>', '>']);
    reveal_strlit("+=");
    assert("+="@ =~= seq!['+', '=']);
    reveal_strlit("-=");
    assert("-="@ =~= seq!['-', '=']);
    reveal_strlit("*=");
    assert("*="@ =~= seq!['*', '=']);
    reveal_strlit("/=");
    assert("/="@ =~= seq!['/', '=']);
    reveal_strlit("&=");
    assert("&="@ =~= seq!['&', '=']);
    reveal_strlit("|=");
    assert("|="@ =~= seq!['|', '=']);
    reveal_strlit("^=");
    assert("^="@ =~= seq!['^', '=']);
    reveal_strlit("%=");
    assert("%="@ =~= seq!['%', '=']);
    reveal_strlit("<<=");
    assert("<<="@ =~= seq!['<', '<', '=']);
    reveal_strlit(">>=");
    assert(">>="@ =~= seq!['>', '>', '=']);
    reveal_strlit(">>>=");
    assert(">>>="@ =~= seq!['>', '>', '>', '=']);
}

/// A separator or an operator is written as the characters that it is read
/// from.
pub proof fn lemma_symbol_is_its_lexeme(c: char, p: Option<char>, q: Option<char>, r: Option<char>)
    ensures
        symbol(c, p, q, r) matches Some(sym) ==> sym.0.java_text() == spelled(c, p, q, r, sym.1),
{
    lemma_symbol_texts();
}

} // verus!
