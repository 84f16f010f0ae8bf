//! What the parser does, as mathematics: the state of parsing a source, and
//! for each construct the state that parsing it leads to and the tree that
//! comes out.
//!
//! A step that fails has reported why; the parsing of the file ends there,
//! with no tree.

use vstd::prelude::*;
use crate::diagnostics::{RemarkKind, RemarkView, ReportView, Severity, SnippetView};
use crate::filemap::Span;
use crate::syntax::ast::{
    ClassView, CUnitView, FormalParameterView, IdentView, ImportView, ItemView, MethodView,
    Modifier, NameView, Visibility,
};
use crate::syntax::lexing::{left, Lexing, next_real_token, pos_at};
use crate::syntax::progress::lemma_next_real_token;
use crate::syntax::token::{Keyword, TokenSpanView, TokenView};

verus! {

/// The state of parsing a source: the state of reading it, and the last
/// real tokens around the place where the parser stands. The parser decides
/// by the current token.
pub struct Parsing {
    pub lex: Lexing,
    /// Where the token before the current one stands.
    pub last: Option<Span>,
    pub curr: Option<TokenSpanView>,
    pub peek: Option<TokenSpanView>,
}

/// A measure of what is left to parse.
pub open spec fn work_left(raw: Seq<char>, p: Parsing) -> nat {
    2 * left(raw, p.lex) + if p.curr is Some {
        1nat
    } else {
        0nat
    } + if p.peek is Some {
        1nat
    } else {
        0nat
    }
}

/// Moves on by one token.
#[verifier::opaque]
pub open spec fn advance(raw: Seq<char>, p: Parsing) -> Parsing {
    let r = next_real_token(raw, p.lex);
    Parsing {
        lex: r.0,
        last: match p.curr {
            Some(t) => Some(t.span),
            None => None,
        },
        curr: p.peek,
        peek: r.1,
    }
}

/// The state of a new parser over a tokenizer in state `lex`: the first real
/// token is the current one.
pub open spec fn begin(raw: Seq<char>, lex: Lexing) -> Parsing {
    advance(raw, advance(raw, Parsing { lex, last: None, curr: None, peek: None }))
}

/// The tokens that the parser holds stand in the source in their order,
/// before the place up to which the source was read.
pub open spec fn ordered(raw: Seq<char>, p: Parsing) -> bool {
    &&& match p.curr {
        Some(c) => c.span.lo < pos_at(raw, p.lex.at) && match p.peek {
            Some(n) => c.span.lo < n.span.lo,
            None => true,
        },
        None => true,
    }
    &&& match p.peek {
        Some(n) => n.span.lo < pos_at(raw, p.lex.at),
        None => true,
    }
}

/// Adds a report.
pub open spec fn report(p: Parsing, r: ReportView) -> Parsing {
    Parsing { lex: Lexing { diags: p.lex.diags.push(r), ..p.lex }, ..p }
}

/// Where the end of the source is reported: at the last token before it.
pub open spec fn eof_span(p: Parsing) -> Span {
    match p.last {
        Some(span) => span,
        None => Span { lo: 0, hi: 0 },
    }
}

/// Reports that the source ended where a token was expected.
pub open spec fn err_eof(p: Parsing) -> Parsing {
    report(p, ReportView::error(eof_span(p), "Expected token, found '<eof>'"@))
}

/// How a token is named in a list of expected tokens: an identifier or a
/// literal by the name of its kind, any other in backticks.
pub open spec fn token_label(t: TokenView) -> Seq<char> {
    if t.has_payload() {
        t.java_text()
    } else {
        "`"@ + t.java_text() + "`"@
    }
}

/// The labels of the tokens, with a comma and a space between them.
pub open spec fn expected_list(expected: Seq<TokenView>) -> Seq<char>
    decreases expected.len(),
{
    if expected.len() == 0 {
        Seq::empty()
    } else if expected.len() == 1 {
        token_label(expected[0])
    } else {
        expected_list(expected.drop_last()) + ", "@ + token_label(expected.last())
    }
}

/// The message for a token that stands where one of `expected` should.
pub open spec fn unexpected_message(expected: Seq<TokenView>, found: TokenView) -> Seq<char> {
    "Unexpected token: Expected "@ + if expected.len() > 1 {
        "one of "@
    } else {
        Seq::empty()
    } + expected_list(expected) + ", found `"@ + found.java_text() + "`"@
}

/// Reports that the current token `found` is none of `expected`.
pub open spec fn err_unexpected(p: Parsing, expected: Seq<TokenView>, found: TokenSpanView) -> Parsing {
    report(p, ReportView::error(found.span, unexpected_message(expected, found.tok)))
}

/// Reports that the token at `span` stands there for the second time.
pub open spec fn err_dupe(p: Parsing, tok: TokenView, span: Span) -> Parsing {
    report(p, ReportView::error(span, "Duplicate token `"@ + tok.java_text() + "`"@))
}

/// An identifier, as the token to expect.
pub open spec fn any_ident() -> TokenView {
    TokenView::Ident(Seq::empty())
}

/// Takes the current token, which has to be an identifier.
#[verifier::opaque]
pub open spec fn eat_ident(raw: Seq<char>, p: Parsing) -> (Parsing, Option<IdentView>) {
    match p.curr {
        None => (err_eof(p), None),
        Some(c) => match c.tok {
            TokenView::Ident(name) => (advance(raw, p), Some(IdentView { name, span: c.span })),
            _ => (err_unexpected(p, seq![any_ident()], c), None),
        },
    }
}

/// Takes the current token, which has to be `t`, and says whether it was.
#[verifier::opaque]
pub open spec fn eat(raw: Seq<char>, p: Parsing, t: TokenView) -> (Parsing, bool) {
    match p.curr {
        None => (err_eof(p), false),
        Some(c) => if c.tok == t {
            (advance(raw, p), true)
        } else {
            (err_unexpected(p, seq![t], c), false)
        },
    }
}

/// Takes the current token if it is `t`, and says whether it was. At the
/// end of the source there is no answer.
#[verifier::opaque]
pub open spec fn eat_maybe(raw: Seq<char>, p: Parsing, t: TokenView) -> (Parsing, Option<bool>) {
    match p.curr {
        None => (err_eof(p), None),
        Some(c) => if c.tok == t {
            (advance(raw, p), Some(true))
        } else {
            (p, Some(false))
        },
    }
}

/// A step with the current token leaves less work; none leaves more.
pub proof fn lemma_advance(raw: Seq<char>, p: Parsing)
    ensures
        work_left(raw, advance(raw, p)) <= work_left(raw, p),
        p.curr is Some ==> work_left(raw, advance(raw, p)) < work_left(raw, p),
        advance(raw, p).lex.at >= p.lex.at,
{
    reveal(advance);
    lemma_next_real_token(raw, p.lex);
}

/// Taking a token leaves no more work, and less where a token was taken.
pub proof fn lemma_eat(raw: Seq<char>, p: Parsing, t: TokenView)
    ensures
        work_left(raw, eat_ident(raw, p).0) <= work_left(raw, p),
        eat_ident(raw, p).1 is Some ==> work_left(raw, eat_ident(raw, p).0) < work_left(raw, p),
        work_left(raw, eat(raw, p, t).0) <= work_left(raw, p),
        eat(raw, p, t).1 ==> work_left(raw, eat(raw, p, t).0) < work_left(raw, p),
        work_left(raw, eat_maybe(raw, p, t).0) <= work_left(raw, p),
        eat_maybe(raw, p, t).1 == Some(true) ==> work_left(raw, eat_maybe(raw, p, t).0)
            < work_left(raw, p),
{
    reveal(eat_ident);
    reveal(eat);
    reveal(eat_maybe);
    lemma_advance(raw, p);
}

/// Counts the pairs `[]` from the current token on, behind the `count` that
/// were counted before.
pub open spec fn parse_dims(raw: Seq<char>, p: Parsing, count: nat) -> (Parsing, Option<nat>)
    decreases work_left(raw, p),
    via parse_dims_ends
{
    let open = eat_maybe(raw, p, TokenView::BracketOp);
    match open.1 {
        None => (open.0, None),
        Some(false) => (open.0, Some(count)),
        Some(true) => {
            let close = eat(raw, open.0, TokenView::BracketCl);
            if close.1 {
                parse_dims(raw, close.0, count + 1)
            } else {
                (close.0, None)
            }
        },
    }
}

/// Each pair taken leaves less work.
#[via_fn]
proof fn parse_dims_ends(raw: Seq<char>, p: Parsing, count: nat) {
    lemma_eat(raw, p, TokenView::BracketOp);
    lemma_eat(raw, eat_maybe(raw, p, TokenView::BracketOp).0, TokenView::BracketCl);
}

/// Counting pairs leaves no more work.
pub proof fn lemma_parse_dims(raw: Seq<char>, p: Parsing, count: nat)
    ensures
        work_left(raw, parse_dims(raw, p, count).0) <= work_left(raw, p),
    decreases work_left(raw, p),
{
    lemma_eat(raw, p, TokenView::BracketOp);
    let open = eat_maybe(raw, p, TokenView::BracketOp);
    lemma_eat(raw, open.0, TokenView::BracketCl);
    if open.1 == Some(true) {
        let close = eat(raw, open.0, TokenView::BracketCl);
        if close.1 {
            lemma_parse_dims(raw, close.0, count + 1);
        }
    }
}

/// The token that closes what `opening` opens.
pub open spec fn closing_of(opening: TokenView) -> TokenView {
    match opening {
        TokenView::ParenOp => TokenView::ParenCl,
        TokenView::BracketOp => TokenView::BracketCl,
        _ => TokenView::BraceCl,
    }
}

/// Passes over tokens until the block that is open `depth` times is closed.
/// The end of the source before that is an error.
pub open spec fn skip_block_rest(raw: Seq<char>, p: Parsing, opening: TokenView, depth: nat) -> (
    Parsing,
    bool,
)
    decreases work_left(raw, p),
    via skip_block_rest_ends
{
    if depth == 0 {
        (p, true)
    } else {
        match p.curr {
            None => (err_eof(p), false),
            Some(c) => {
                let d = if c.tok == opening {
                    depth + 1
                } else if c.tok == closing_of(opening) {
                    (depth - 1) as nat
                } else {
                    depth
                };
                skip_block_rest(raw, advance(raw, p), opening, d)
            },
        }
    }
}

/// Each token passed leaves less work.
#[via_fn]
proof fn skip_block_rest_ends(raw: Seq<char>, p: Parsing, opening: TokenView, depth: nat) {
    lemma_advance(raw, p);
}

/// Passes over a block with all the blocks inside it. The current token has
/// to be `opening`.
pub open spec fn skip_block(raw: Seq<char>, p: Parsing, opening: TokenView) -> (Parsing, bool) {
    let open = eat(raw, p, opening);
    if open.1 {
        skip_block_rest(raw, open.0, opening, 1)
    } else {
        open
    }
}

/// Passing over a block leaves no more work.
pub proof fn lemma_skip_block_rest(raw: Seq<char>, p: Parsing, opening: TokenView, depth: nat)
    ensures
        work_left(raw, skip_block_rest(raw, p, opening, depth).0) <= work_left(raw, p),
    decreases work_left(raw, p),
{
    lemma_advance(raw, p);
    if depth != 0 {
        match p.curr {
            None => {},
            Some(c) => {
                let d = if c.tok == opening {
                    depth + 1
                } else if c.tok == closing_of(opening) {
                    (depth - 1) as nat
                } else {
                    depth
                };
                lemma_skip_block_rest(raw, advance(raw, p), opening, d);
            },
        }
    }
}

/// The modifier that a keyword is, if it is one.
pub open spec fn modifier_of(tok: TokenView) -> Option<Modifier> {
    match tok {
        TokenView::KeyW(k) => match k {
            Keyword::Public => Some(Modifier::Public),
            Keyword::Protected => Some(Modifier::Protected),
            Keyword::Private => Some(Modifier::Private),
            Keyword::Abstract => Some(Modifier::Abstract),
            Keyword::Static => Some(Modifier::Static),
            Keyword::Final => Some(Modifier::Final),
            Keyword::Synchronized => Some(Modifier::Synchronized),
            Keyword::Native => Some(Modifier::Native),
            Keyword::Strictfp => Some(Modifier::Strictfp),
            Keyword::Transient => Some(Modifier::Transient),
            Keyword::Volatile => Some(Modifier::Volatile),
            _ => None,
        },
        _ => None,
    }
}

/// Whether `m` is among the modifiers.
pub open spec fn has_modifier(mods: Seq<(Modifier, Span)>, m: Modifier) -> bool {
    exists|i: int| 0 <= i < mods.len() && #[trigger] mods[i].0 == m
}

/// Reads modifiers behind those in `acc`, each with its place, up to the
/// first token that is none. A modifier that stands twice is an error.
pub open spec fn parse_modifiers(raw: Seq<char>, p: Parsing, acc: Seq<(Modifier, Span)>) -> (
    Parsing,
    Option<Seq<(Modifier, Span)>>,
)
    decreases work_left(raw, p),
    via parse_modifiers_ends
{
    match p.curr {
        None => (err_eof(p), None),
        Some(c) => match modifier_of(c.tok) {
            Some(m) => if has_modifier(acc, m) {
                (err_dupe(p, c.tok, c.span), None)
            } else {
                parse_modifiers(raw, advance(raw, p), acc.push((m, c.span)))
            },
            None => (p, Some(acc)),
        },
    }
}

/// Each modifier taken leaves less work.
#[via_fn]
proof fn parse_modifiers_ends(raw: Seq<char>, p: Parsing, acc: Seq<(Modifier, Span)>) {
    lemma_advance(raw, p);
}

/// Reading modifiers leaves no more work.
pub proof fn lemma_parse_modifiers(raw: Seq<char>, p: Parsing, acc: Seq<(Modifier, Span)>)
    ensures
        work_left(raw, parse_modifiers(raw, p, acc).0) <= work_left(raw, p),
    decreases work_left(raw, p),
{
    lemma_advance(raw, p);
    match p.curr {
        None => {},
        Some(c) => match modifier_of(c.tok) {
            Some(m) => if !has_modifier(acc, m) {
                lemma_parse_modifiers(raw, advance(raw, p), acc.push((m, c.span)));
            },
            None => {},
        },
    }
}

/// What the modifiers of a method say, as far as they were read.
#[derive(Debug, Clone, Copy, PartialEq, Eq)]
pub struct MethodFlags {
    pub vis: Visibility,
    /// The modifier that gave the visibility, with its place.
    pub seen: Option<(Modifier, Span)>,
    pub static_: bool,
    pub final_: bool,
}

/// The flags of a method without modifiers.
pub open spec fn no_flags() -> MethodFlags {
    MethodFlags { vis: Visibility::Package, seen: None, static_: false, final_: false }
}

/// The visibility that a modifier gives.
pub open spec fn visibility_of(m: Modifier) -> Option<Visibility> {
    match m {
        Modifier::Public => Some(Visibility::Public),
        Modifier::Protected => Some(Visibility::Protected),
        Modifier::Private => Some(Visibility::Private),
        _ => None,
    }
}

/// The report on a second visibility `m` at `span`, with a note at the
/// first one.
pub open spec fn second_visibility_report(m: Modifier, span: Span, first: (Modifier, Span)) -> ReportView {
    ReportView {
        severity: Severity::Error,
        message: "Unexpected visibility modifier `"@ + m.java_text() + "`"@,
        span,
        remarks: seq![
            RemarkView {
                kind: RemarkKind::Note,
                message: "Already parsed the visibility modifier `"@ + first.0.java_text()
                    + "` here"@,
                snippet: SnippetView::Highlight(first.1),
            },
        ],
    }
}

/// The report on a modifier that a method cannot have.
pub open spec fn method_modifier_report(m: Modifier, span: Span) -> ReportView {
    ReportView::error(span, "Unexpected method modifier `"@ + m.java_text() + "`"@)
}

/// The report on a modifier that a class cannot have.
pub open spec fn class_modifier_report(m: Modifier, span: Span) -> ReportView {
    ReportView::error(span, "Unexpected class modifier `"@ + m.java_text() + "`"@)
}

/// Goes through the modifiers of a method from index `i` on, in the order
/// in which they stand in the source: one visibility at most, `static` and
/// `final`, and no other.
pub open spec fn method_flags(mods: Seq<(Modifier, Span)>, i: int, flags: MethodFlags) -> Result<
    MethodFlags,
    ReportView,
>
    decreases mods.len() - i,
{
    if i < 0 || i >= mods.len() {
        Ok(flags)
    } else {
        let m = mods[i].0;
        let span = mods[i].1;
        match visibility_of(m) {
            Some(vis) => match flags.seen {
                Some(first) => Err(second_visibility_report(m, span, first)),
                None => method_flags(
                    mods,
                    i + 1,
                    MethodFlags { vis, seen: Some((m, span)), ..flags },
                ),
            },
            None => if m == Modifier::Static {
                method_flags(mods, i + 1, MethodFlags { static_: true, ..flags })
            } else if m == Modifier::Final {
                method_flags(mods, i + 1, MethodFlags { final_: true, ..flags })
            } else {
                Err(method_modifier_report(m, span))
            },
        }
    }
}

/// The first modifier from index `i` on that a class cannot have: any but
/// `public`.
pub open spec fn class_fault(mods: Seq<(Modifier, Span)>, i: int) -> Option<(Modifier, Span)>
    decreases mods.len() - i,
{
    if i < 0 || i >= mods.len() {
        None
    } else if mods[i].0 != Modifier::Public {
        Some(mods[i])
    } else {
        class_fault(mods, i + 1)
    }
}

/// Parses one parameter: `final`, if it stands there, the type, the name,
/// and the pairs `[]` behind the type or else behind the name; and takes
/// the comma behind it, if there is one.
pub open spec fn parse_param(raw: Seq<char>, p: Parsing) -> (Parsing, Option<FormalParameterView>) {
    let fin = eat_maybe(raw, p, TokenView::KeyW(Keyword::Final));
    if fin.1 is None {
        (fin.0, None)
    } else {
        let ty = eat_ident(raw, fin.0);
        if ty.1 is None {
            (ty.0, None)
        } else {
            let dims = parse_dims(raw, ty.0, 0);
            if dims.1 is None {
                (dims.0, None)
            } else {
                let name = eat_ident(raw, dims.0);
                if name.1 is None {
                    (name.0, None)
                } else {
                    let late = if dims.1.unwrap() == 0 {
                        parse_dims(raw, name.0, 0)
                    } else {
                        (name.0, dims.1)
                    };
                    if late.1 is None {
                        (late.0, None)
                    } else {
                        let comma = eat_maybe(raw, late.0, TokenView::Comma);
                        if comma.1 is None {
                            (comma.0, None)
                        } else {
                            (
                                comma.0,
                                Some(
                                    FormalParameterView {
                                        ty: ty.1.unwrap(),
                                        name: name.1.unwrap(),
                                        dims: late.1.unwrap() as usize,
                                        final_: fin.1.unwrap(),
                                    },
                                ),
                            )
                        }
                    }
                }
            }
        }
    }
}

/// Parsing a parameter leaves less work where it gives one, and never
/// more.
pub proof fn lemma_parse_param(raw: Seq<char>, p: Parsing)
    ensures
        work_left(raw, parse_param(raw, p).0) <= work_left(raw, p),
        parse_param(raw, p).1 is Some ==> work_left(raw, parse_param(raw, p).0) < work_left(
            raw,
            p,
        ),
{
    let fin = eat_maybe(raw, p, TokenView::KeyW(Keyword::Final));
    lemma_eat(raw, p, TokenView::KeyW(Keyword::Final));
    let ty = eat_ident(raw, fin.0);
    lemma_eat(raw, fin.0, TokenView::Comma);
    let dims = parse_dims(raw, ty.0, 0);
    lemma_parse_dims(raw, ty.0, 0);
    let name = eat_ident(raw, dims.0);
    lemma_eat(raw, dims.0, TokenView::Comma);
    lemma_parse_dims(raw, name.0, 0);
    let late = if dims.1 is Some && dims.1.unwrap() == 0 {
        parse_dims(raw, name.0, 0)
    } else {
        (name.0, dims.1)
    };
    lemma_eat(raw, late.0, TokenView::Comma);
}

/// Parses the parameters behind those in `acc`, and the parenthesis that
/// closes the list.
pub open spec fn parse_params(raw: Seq<char>, p: Parsing, acc: Seq<FormalParameterView>) -> (
    Parsing,
    Option<Seq<FormalParameterView>>,
)
    decreases work_left(raw, p),
    via parse_params_ends
{
    let close = eat_maybe(raw, p, TokenView::ParenCl);
    match close.1 {
        None => (close.0, None),
        Some(true) => (close.0, Some(acc)),
        Some(false) => {
            let param = parse_param(raw, close.0);
            match param.1 {
                None => (param.0, None),
                Some(fp) => parse_params(raw, param.0, acc.push(fp)),
            }
        },
    }
}

/// Each parameter leaves less work.
#[via_fn]
proof fn parse_params_ends(raw: Seq<char>, p: Parsing, acc: Seq<FormalParameterView>) {
    lemma_eat(raw, p, TokenView::ParenCl);
    lemma_parse_param(raw, eat_maybe(raw, p, TokenView::ParenCl).0);
}

/// Parsing parameters leaves no more work.
pub proof fn lemma_parse_params(raw: Seq<char>, p: Parsing, acc: Seq<FormalParameterView>)
    ensures
        work_left(raw, parse_params(raw, p, acc).0) <= work_left(raw, p),
    decreases work_left(raw, p),
{
    lemma_eat(raw, p, TokenView::ParenCl);
    let close = eat_maybe(raw, p, TokenView::ParenCl);
    lemma_parse_param(raw, close.0);
    if close.1 == Some(false) {
        let param = parse_param(raw, close.0);
        match param.1 {
            None => {},
            Some(fp) => lemma_parse_params(raw, param.0, acc.push(fp)),
        }
    }
}

/// Parses a method from its parameter list on: the modifiers are judged,
/// the parameters parsed and the body passed over.
pub open spec fn parse_method(
    raw: Seq<char>,
    p: Parsing,
    name: IdentView,
    ret_ty: IdentView,
    mods: Seq<(Modifier, Span)>,
) -> (Parsing, Option<MethodView>) {
    match method_flags(mods, 0, no_flags()) {
        Err(r) => (report(p, r), None),
        Ok(flags) => {
            let open = eat(raw, p, TokenView::ParenOp);
            if !open.1 {
                (open.0, None)
            } else {
                let params = parse_params(raw, open.0, Seq::empty());
                match params.1 {
                    None => (params.0, None),
                    Some(ps) => {
                        let body = skip_block(raw, params.0, TokenView::BraceOp);
                        if body.1 {
                            (
                                body.0,
                                Some(
                                    MethodView {
                                        vis: flags.vis,
                                        name,
                                        ret_ty,
                                        static_: flags.static_,
                                        final_: flags.final_,
                                        params: ps,
                                    },
                                ),
                            )
                        } else {
                            (body.0, None)
                        }
                    },
                }
            }
        },
    }
}

/// Parsing a method leaves no more work.
pub proof fn lemma_parse_method(
    raw: Seq<char>,
    p: Parsing,
    name: IdentView,
    ret_ty: IdentView,
    mods: Seq<(Modifier, Span)>,
)
    ensures
        work_left(raw, parse_method(raw, p, name, ret_ty, mods).0) <= work_left(raw, p),
{
    lemma_eat(raw, p, TokenView::ParenOp);
    let open = eat(raw, p, TokenView::ParenOp);
    lemma_parse_params(raw, open.0, Seq::empty());
    let params = parse_params(raw, open.0, Seq::empty());
    lemma_eat(raw, params.0, TokenView::BraceOp);
    lemma_skip_block_rest(raw, eat(raw, params.0, TokenView::BraceOp).0, TokenView::BraceOp, 1);
}

/// Passes over the rest of a field declaration: all up to the next
/// semicolon, and the semicolon.
pub open spec fn skip_field(raw: Seq<char>, p: Parsing) -> (Parsing, bool)
    decreases work_left(raw, p),
    via skip_field_ends
{
    match p.curr {
        None => (err_eof(p), false),
        Some(c) => if c.tok == TokenView::Semi {
            (advance(raw, p), true)
        } else {
            skip_field(raw, advance(raw, p))
        },
    }
}

/// Each token passed leaves less work.
#[via_fn]
proof fn skip_field_ends(raw: Seq<char>, p: Parsing) {
    lemma_advance(raw, p);
}

/// Passing over a field leaves no more work.
pub proof fn lemma_skip_field(raw: Seq<char>, p: Parsing)
    ensures
        work_left(raw, skip_field(raw, p).0) <= work_left(raw, p),
    decreases work_left(raw, p),
{
    lemma_advance(raw, p);
    match p.curr {
        None => {},
        Some(c) => if c.tok != TokenView::Semi {
            lemma_skip_field(raw, advance(raw, p));
        },
    }
}

/// The tokens of which one has to follow the name of a member.
pub open spec fn member_starts() -> Seq<TokenView> {
    seq![TokenView::ParenOp, TokenView::Semi, TokenView::Eq, TokenView::Comma]
}

/// Parses one member of a class: its modifiers, its type and its name;
/// then a method, if a parenthesis follows, or else a field, which is
/// passed over. A method is added to `acc`.
pub open spec fn parse_member(raw: Seq<char>, p: Parsing, acc: Seq<MethodView>) -> (
    Parsing,
    Option<Seq<MethodView>>,
) {
    let mods = parse_modifiers(raw, p, Seq::empty());
    if mods.1 is None {
        (mods.0, None)
    } else {
        let ty = eat_ident(raw, mods.0);
        if ty.1 is None {
            (ty.0, None)
        } else {
            let name = eat_ident(raw, ty.0);
            if name.1 is None {
                (name.0, None)
            } else {
                match name.0.curr {
                    None => (err_eof(name.0), None),
                    Some(c) => if c.tok == TokenView::ParenOp {
                        let m = parse_method(
                            raw,
                            name.0,
                            name.1.unwrap(),
                            ty.1.unwrap(),
                            mods.1.unwrap(),
                        );
                        match m.1 {
                            None => (m.0, None),
                            Some(method) => (m.0, Some(acc.push(method))),
                        }
                    } else if c.tok == TokenView::Semi || c.tok == TokenView::Eq || c.tok
                        == TokenView::Comma {
                        let f = skip_field(raw, name.0);
                        if f.1 {
                            (f.0, Some(acc))
                        } else {
                            (f.0, None)
                        }
                    } else {
                        (err_unexpected(name.0, member_starts(), c), None)
                    },
                }
            }
        }
    }
}

/// Parsing a member leaves less work where it succeeds, and never more.
pub proof fn lemma_parse_member(raw: Seq<char>, p: Parsing, acc: Seq<MethodView>)
    ensures
        work_left(raw, parse_member(raw, p, acc).0) <= work_left(raw, p),
        parse_member(raw, p, acc).1 is Some ==> work_left(raw, parse_member(raw, p, acc).0)
            < work_left(raw, p),
{
    let mods = parse_modifiers(raw, p, Seq::empty());
    lemma_parse_modifiers(raw, p, Seq::empty());
    let ty = eat_ident(raw, mods.0);
    lemma_eat(raw, mods.0, TokenView::Comma);
    let name = eat_ident(raw, ty.0);
    lemma_eat(raw, ty.0, TokenView::Comma);
    if mods.1 is Some && ty.1 is Some && name.1 is Some {
        lemma_parse_method(raw, name.0, name.1.unwrap(), ty.1.unwrap(), mods.1.unwrap());
        lemma_skip_field(raw, name.0);
    }
}

/// Parses the members of a class behind the methods in `acc`, and the
/// brace that closes the class.
pub open spec fn parse_members(raw: Seq<char>, p: Parsing, acc: Seq<MethodView>) -> (
    Parsing,
    Option<Seq<MethodView>>,
)
    decreases work_left(raw, p),
    via parse_members_ends
{
    let close = eat_maybe(raw, p, TokenView::BraceCl);
    match close.1 {
        None => (close.0, None),
        Some(true) => (close.0, Some(acc)),
        Some(false) => {
            let member = parse_member(raw, close.0, acc);
            match member.1 {
                None => (member.0, None),
                Some(methods) => parse_members(raw, member.0, methods),
            }
        },
    }
}

/// Each member leaves less work.
#[via_fn]
proof fn parse_members_ends(raw: Seq<char>, p: Parsing, acc: Seq<MethodView>) {
    lemma_eat(raw, p, TokenView::BraceCl);
    lemma_parse_member(raw, eat_maybe(raw, p, TokenView::BraceCl).0, acc);
}

/// Parsing the members leaves no more work.
pub proof fn lemma_parse_members(raw: Seq<char>, p: Parsing, acc: Seq<MethodView>)
    ensures
        work_left(raw, parse_members(raw, p, acc).0) <= work_left(raw, p),
    decreases work_left(raw, p),
{
    lemma_eat(raw, p, TokenView::BraceCl);
    let close = eat_maybe(raw, p, TokenView::BraceCl);
    lemma_parse_member(raw, close.0, acc);
    if close.1 == Some(false) {
        let member = parse_member(raw, close.0, acc);
        match member.1 {
            None => {},
            Some(methods) => lemma_parse_members(raw, member.0, methods),
        }
    }
}

/// Parses a class at the top of the file: its modifiers, of which only
/// `public` is taken, the keyword `class`, the name, and the members in
/// braces.
pub open spec fn parse_top_lvl_class(raw: Seq<char>, p: Parsing) -> (Parsing, Option<ClassView>) {
    let mods = parse_modifiers(raw, p, Seq::empty());
    match mods.1 {
        None => (mods.0, None),
        Some(ms) => match class_fault(ms, 0) {
            Some(bad) => (report(mods.0, class_modifier_report(bad.0, bad.1)), None),
            None => {
                let kw = eat(raw, mods.0, TokenView::KeyW(Keyword::Class));
                if !kw.1 {
                    (kw.0, None)
                } else {
                    let name = eat_ident(raw, kw.0);
                    if name.1 is None {
                        (name.0, None)
                    } else {
                        let open = eat(raw, name.0, TokenView::BraceOp);
                        if !open.1 {
                            (open.0, None)
                        } else {
                            let members = parse_members(raw, open.0, Seq::empty());
                            match members.1 {
                                None => (members.0, None),
                                Some(methods) => (
                                    members.0,
                                    Some(
                                        ClassView {
                                            name: name.1.unwrap(),
                                            vis: if ms.len() > 0 {
                                                Visibility::Public
                                            } else {
                                                Visibility::Package
                                            },
                                            methods,
                                        },
                                    ),
                                ),
                            }
                        }
                    }
                }
            },
        },
    }
}

/// Parsing a class leaves less work where it gives one, and never more.
pub proof fn lemma_parse_top_lvl_class(raw: Seq<char>, p: Parsing)
    ensures
        work_left(raw, parse_top_lvl_class(raw, p).0) <= work_left(raw, p),
        parse_top_lvl_class(raw, p).1 is Some ==> work_left(raw, parse_top_lvl_class(raw, p).0)
            < work_left(raw, p),
{
    let mods = parse_modifiers(raw, p, Seq::empty());
    lemma_parse_modifiers(raw, p, Seq::empty());
    let kw = eat(raw, mods.0, TokenView::KeyW(Keyword::Class));
    lemma_eat(raw, mods.0, TokenView::KeyW(Keyword::Class));
    let name = eat_ident(raw, kw.0);
    lemma_eat(raw, kw.0, TokenView::BraceOp);
    let open = eat(raw, name.0, TokenView::BraceOp);
    lemma_eat(raw, name.0, TokenView::BraceOp);
    lemma_parse_members(raw, open.0, Seq::empty());
}

/// The tokens of which one has to follow a part of an imported name.
pub open spec fn import_continues() -> Seq<TokenView> {
    seq![TokenView::Semi, TokenView::Dot]
}

/// The tokens of which one has to follow a dot in an imported name.
pub open spec fn import_parts() -> Seq<TokenView> {
    seq![TokenView::Star, any_ident()]
}

/// Parses an imported name behind its part `w`, before which the parts in
/// `path` were read: a semicolon ends the name, a dot and a further part
/// carry it on, a dot and a star make the import one of all names.
pub open spec fn parse_import_rest(raw: Seq<char>, p: Parsing, path: Seq<IdentView>, w: IdentView) -> (
    Parsing,
    Option<ImportView>,
)
    decreases work_left(raw, p),
    via parse_import_rest_ends
{
    match p.curr {
        None => (err_eof(p), None),
        Some(c) => if c.tok == TokenView::Semi {
            (advance(raw, p), Some(ImportView::Single(NameView { path, last: Some(w) })))
        } else if c.tok == TokenView::Dot {
            let behind = advance(raw, p);
            let longer = path.push(w);
            match behind.curr {
                None => (err_eof(behind), None),
                Some(d) => if d.tok == TokenView::Star {
                    let semi = eat(raw, advance(raw, behind), TokenView::Semi);
                    if semi.1 {
                        (semi.0, Some(ImportView::Wildcard(NameView { path: longer, last: None })))
                    } else {
                        (semi.0, None)
                    }
                } else {
                    match d.tok {
                        TokenView::Ident(name) => parse_import_rest(
                            raw,
                            advance(raw, behind),
                            longer,
                            IdentView { name, span: d.span },
                        ),
                        _ => (err_unexpected(behind, import_parts(), d), None),
                    }
                },
            }
        } else {
            (err_unexpected(p, import_continues(), c), None)
        },
    }
}

/// Each part of the name leaves less work.
#[via_fn]
proof fn parse_import_rest_ends(raw: Seq<char>, p: Parsing, path: Seq<IdentView>, w: IdentView) {
    lemma_advance(raw, p);
    lemma_advance(raw, advance(raw, p));
}

/// Parses an import behind its keyword.
pub open spec fn parse_import(raw: Seq<char>, p: Parsing) -> (Parsing, Option<ImportView>) {
    let first = eat_ident(raw, p);
    match first.1 {
        None => (first.0, None),
        Some(w) => parse_import_rest(raw, first.0, Seq::empty(), w),
    }
}

/// Parsing the rest of an import leaves no more work.
pub proof fn lemma_parse_import_rest(raw: Seq<char>, p: Parsing, path: Seq<IdentView>, w: IdentView)
    ensures
        work_left(raw, parse_import_rest(raw, p, path, w).0) <= work_left(raw, p),
    decreases work_left(raw, p),
{
    lemma_advance(raw, p);
    let behind = advance(raw, p);
    lemma_advance(raw, behind);
    lemma_eat(raw, advance(raw, behind), TokenView::Semi);
    match p.curr {
        None => {},
        Some(c) => if c.tok == TokenView::Dot {
            match behind.curr {
                None => {},
                Some(d) => match d.tok {
                    TokenView::Ident(name) => lemma_parse_import_rest(
                        raw,
                        advance(raw, behind),
                        path.push(w),
                        IdentView { name, span: d.span },
                    ),
                    _ => {},
                },
            }
        },
    }
}

/// Whether an item starts with the token: an import with its keyword, a
/// class with a modifier or with the keyword `class`.
pub open spec fn starts_class(tok: TokenView) -> bool {
    tok == TokenView::KeyW(Keyword::Class) || modifier_of(tok) is Some
}

/// Parses the items of a compilation unit behind those in `acc`, up to the
/// end of the source or to a token that starts no item.
pub open spec fn parse_items(raw: Seq<char>, p: Parsing, acc: Seq<ItemView>) -> (
    Parsing,
    Option<Seq<ItemView>>,
)
    decreases work_left(raw, p),
    via parse_items_ends
{
    match p.curr {
        None => (p, Some(acc)),
        Some(c) => if c.tok == TokenView::KeyW(Keyword::Import) {
            let import = parse_import(raw, advance(raw, p));
            match import.1 {
                None => (import.0, None),
                Some(i) => parse_items(raw, import.0, acc.push(ItemView::Import(i))),
            }
        } else if starts_class(c.tok) {
            let class = parse_top_lvl_class(raw, p);
            match class.1 {
                None => (class.0, None),
                Some(cl) => parse_items(raw, class.0, acc.push(ItemView::Class(cl))),
            }
        } else {
            (p, Some(acc))
        },
    }
}

/// Each item leaves less work.
#[via_fn]
proof fn parse_items_ends(raw: Seq<char>, p: Parsing, acc: Seq<ItemView>) {
    lemma_advance(raw, p);
    let behind = advance(raw, p);
    lemma_eat(raw, behind, TokenView::Semi);
    match eat_ident(raw, behind).1 {
        Some(w) => lemma_parse_import_rest(raw, eat_ident(raw, behind).0, Seq::empty(), w),
        None => {},
    }
    lemma_parse_top_lvl_class(raw, p);
}

/// Parses a compilation unit: the imports and classes of a source, in
/// their order.
pub open spec fn parse_cunit(raw: Seq<char>, p: Parsing) -> (Parsing, Option<CUnitView>) {
    let items = parse_items(raw, p, Seq::empty());
    match items.1 {
        None => (items.0, None),
        Some(is) => (items.0, Some(CUnitView { items: is })),
    }
}

} // verus!
