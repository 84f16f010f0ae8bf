//! The parser: recursive descent over the real tokens of a source. It gives
//! the syntax tree of a compilation unit, or reports the first error and
//! gives none.

use vstd::prelude::*;
use vstd::string::StringExecFns;
use crate::diagnostics::{Remark, Report, reports_view, Snippet};
use crate::filemap::{FileMap, Span};
use crate::syntax::ast::{
    Class, CUnit, FormalParameter, Ident, idents_view, Import, Item, items_view, Method,
    methods_view, Modifier, Name, params_view, Visibility,
};
use crate::syntax::lex::Tokenizer;
use crate::syntax::lexing::{lemma_pos_monotone, lines_upto, pos_at, start};
use crate::syntax::parsing::{
    ordered,
    advance, begin, class_fault, closing_of, eat, eat_ident, eat_maybe, err_dupe,
    err_eof, err_unexpected, expected_list, has_modifier, import_continues, import_parts,
    lemma_advance, lemma_eat, lemma_parse_import_rest, lemma_parse_member, lemma_parse_param,
    lemma_parse_top_lvl_class, member_starts, method_flags, MethodFlags, modifier_of, no_flags,
    parse_cunit, parse_dims, parse_import, parse_import_rest, parse_items, parse_member,
    parse_members, parse_method, parse_modifiers, parse_param, parse_params, parse_top_lvl_class,
    Parsing, report, skip_block, skip_block_rest, skip_field, starts_class, token_label,
    unexpected_message, work_left,
};
use crate::syntax::token::{Keyword, Token, TokenSpan, TokenSpanView, TokenView};
use crate::text::byte_len;

verus! {

/// Why parsing ended early.
#[derive(Debug, Clone, Copy, PartialEq, Eq, Structural)]
pub enum PErr {
    /// An error was reported, and the file is given up.
    Fatal,
}

/// What a step of the parser gives.
pub type PResult<T> = Result<T, PErr>;

/// The value of a token that may be missing.
pub open spec fn token_view(t: Option<TokenSpan>) -> Option<TokenSpanView> {
    match t {
        Some(x) => Some(x@),
        None => None,
    }
}

/// The values of a list of tokens.
pub open spec fn tokens_view(v: Seq<Token>) -> Seq<TokenView> {
    v.map_values(|t: Token| t@)
}

/// Parses the tokens of a source.
pub struct Parser {
    /// Where the tokens come from.
    tstr: Tokenizer,
    /// Where the token before the current one stands.
    last: Option<Span>,
    /// The current token and the one behind it.
    curr: Option<TokenSpan>,
    peek: Option<TokenSpan>,
}

impl Parser {
    /// The source text.
    pub closed spec fn source(&self) -> Seq<char> {
        self.tstr.source()
    }

    /// The name of the file.
    pub closed spec fn name(&self) -> Seq<char> {
        self.tstr.name()
    }

    /// The line starts recorded so far.
    pub closed spec fn lines(&self) -> Seq<usize> {
        self.tstr.lines()
    }

    /// Where the parser stands and what was reported.
    pub closed spec fn state(&self) -> Parsing {
        Parsing {
            lex: self.tstr.state(),
            last: self.last,
            curr: token_view(self.curr),
            peek: token_view(self.peek),
        }
    }

    /// The tokenizer is in order, and the tokens held stand in the source
    /// in their order.
    #[verifier::opaque]
    pub closed spec fn wf(&self) -> bool {
        self.tstr.wf() && ordered(self.tstr.source(), self.state())
    }

    /// The tokens that a parser holds stand in the source in their order.
    pub proof fn lemma_ordered(&self)
        requires
            self.wf(),
        ensures
            self.state().lex.at >= 0,
            byte_len(self.source()) <= usize::MAX,
            ordered(self.source(), self.state()),
    {
        reveal(Parser::wf);
        self.tstr.lemma_lines();
        self.tstr.lemma_position();
    }

    /// Whether `self` is `before` after some more parsing.
    pub open spec fn follows(&self, before: &Parser) -> bool {
        &&& self.source() == before.source()
        &&& self.name() == before.name()
    }

    /// Moves on by one token, and gives the token that was the current one.
    fn advance(&mut self) -> (taken: Option<TokenSpan>)
        requires
            old(self).wf(),
        ensures
            final(self).wf(),
            final(self).follows(old(self)),
            final(self).state() == advance(old(self).source(), old(self).state()),
            token_view(taken) == old(self).state().curr,
    {
        proof {
            reveal(Parser::wf);
            reveal(advance);
        }
        let taken = self.curr.take();
        self.last = match &taken {
            Some(t) => Some(t.span),
            None => None,
        };
        self.curr = self.peek.take();
        self.peek = self.tstr.next_real();
        taken
    }

    /// A parser at the first real token that `lex` gives.
    pub fn new(lex: Tokenizer) -> (p: Parser)
        requires
            lex.wf(),
        ensures
            p.wf(),
            p.source() == lex.source(),
            p.name() == lex.name(),
            p.state() == begin(lex.source(), lex.state()),
    {
        proof {
            reveal(Parser::wf);
        }
        let mut p = Parser { tstr: lex, last: None, curr: None, peek: None };
        let _ = p.advance();
        let _ = p.advance();
        p
    }

    /// Adds a report.
    fn report(&mut self, r: Report)
        requires
            old(self).wf(),
        ensures
            final(self).wf(),
            final(self).follows(old(self)),
            final(self).state() == report(old(self).state(), r@),
    {
        proof {
            reveal(Parser::wf);
        }
        self.tstr.add_report(r);
    }

    /// Reports that the source ended where a token was expected.
    fn err_eof(&mut self) -> (e: PErr)
        requires
            old(self).wf(),
        ensures
            final(self).wf(),
            final(self).follows(old(self)),
            final(self).state() == err_eof(old(self).state()),
    {
        let span = match self.last {
            Some(s) => s,
            None => Span { lo: 0, hi: 0 },
        };
        self.report(Report::error(span, "Expected token, found '<eof>'".to_owned()));
        PErr::Fatal
    }

    /// How a token is named in a list of expected tokens.
    fn label(tok: &Token) -> (s: String)
        ensures
            s@ == token_label(tok@),
    {
        let bare = match tok {
            Token::Ident(_) => true,
            Token::Literal(_) => true,
            _ => false,
        };
        if bare {
            tok.as_java_string().to_owned()
        } else {
            let mut s = "`".to_owned();
            s.append(tok.as_java_string());
            s.append("`");
            s
        }
    }

    /// The message for a token that stands where one of `expected` should.
    fn unexpected_text(expected: &Vec<Token>, found: &Token) -> (s: String)
        ensures
            s@ == unexpected_message(tokens_view(expected@), found@),
    {
        let ghost e = tokens_view(expected@);
        let mut list = String::new();
        let mut i: usize = 0;
        while i < expected.len()
            invariant
                i <= expected.len(),
                e == tokens_view(expected@),
                list@ == expected_list(e.take(i as int)),
            decreases expected.len() - i,
        {
            let lab = Self::label(&expected[i]);
            if i > 0 {
                list.append(", ");
            }
            list.append(lab.as_str());
            i += 1;
            proof {
                let now = e.take(i as int);
                assert(now.drop_last() =~= e.take(i - 1));
            }
        }
        assert(e.take(i as int) =~= e);
        let mut s = "Unexpected token: Expected ".to_owned();
        if expected.len() > 1 {
            s.append("one of ");
        }
        s.append(list.as_str());
        s.append(", found `");
        s.append(found.as_java_string());
        s.append("`");
        s
    }

    /// Reports that the current token is none of `expected`.
    fn err_unexpected(&mut self, expected: Vec<Token>) -> (e: PErr)
        requires
            old(self).wf(),
            old(self).state().curr is Some,
        ensures
            final(self).wf(),
            final(self).follows(old(self)),
            final(self).state() == err_unexpected(
                old(self).state(),
                tokens_view(expected@),
                old(self).state().curr.unwrap(),
            ),
    {
        let r = match &self.curr {
            Some(ts) => Report::error(ts.span, Self::unexpected_text(&expected, &ts.tok)),
            None => Report::error(Span { lo: 0, hi: 0 }, String::new()),
        };
        self.report(r);
        PErr::Fatal
    }

    /// Reports that the current token stands there for the second time.
    fn err_dupe(&mut self) -> (e: PErr)
        requires
            old(self).wf(),
            old(self).state().curr is Some,
        ensures
            final(self).wf(),
            final(self).follows(old(self)),
            final(self).state() == err_dupe(
                old(self).state(),
                old(self).state().curr.unwrap().tok,
                old(self).state().curr.unwrap().span,
            ),
    {
        let r = match &self.curr {
            Some(ts) => {
                let mut m = "Duplicate token `".to_owned();
                m.append(ts.tok.as_java_string());
                m.append("`");
                Report::error(ts.span, m)
            },
            None => Report::error(Span { lo: 0, hi: 0 }, String::new()),
        };
        self.report(r);
        PErr::Fatal
    }

    /// Whether the current token is an identifier.
    fn curr_is_ident(&self) -> (r: bool)
        ensures
            r == match self.state().curr {
                Some(c) => c.tok is Ident,
                None => false,
            },
    {
        match &self.curr {
            Some(ts) => match &ts.tok {
                Token::Ident(_) => true,
                _ => false,
            },
            None => false,
        }
    }

    /// Whether the current token is the separator, operator or keyword `t`.
    fn curr_is(&self, t: &Token) -> (r: bool)
        requires
            !t@.has_payload(),
            t@.is_real(),
        ensures
            r == match self.state().curr {
                Some(c) => c.tok == t@,
                None => false,
            },
    {
        match &self.curr {
            Some(ts) => ts.tok.is_same(t),
            None => false,
        }
    }

    /// Takes the current token, which has to be an identifier.
    fn eat_ident(&mut self) -> (r: PResult<Ident>)
        requires
            old(self).wf(),
        ensures
            final(self).wf(),
            final(self).follows(old(self)),
            final(self).state() == eat_ident(old(self).source(), old(self).state()).0,
            match eat_ident(old(self).source(), old(self).state()).1 {
                Some(id) => r is Ok && r.unwrap()@ == id,
                None => r is Err,
            },
    {
        proof {
            reveal(eat_ident);
        }
        if self.curr.is_none() {
            Err(self.err_eof())
        } else if self.curr_is_ident() {
            match self.advance() {
                Some(ts) => match ts.tok {
                    Token::Ident(name) => Ok(Ident { name, span: ts.span }),
                    _ => Err(PErr::Fatal),
                },
                None => Err(PErr::Fatal),
            }
        } else {
            let mut expected: Vec<Token> = Vec::new();
            expected.push(Token::Ident(String::new()));
            Err(self.err_unexpected(expected))
        }
    }

    /// Takes the current token, which has to be `t`.
    fn eat(&mut self, t: Token) -> (r: PResult<()>)
        requires
            old(self).wf(),
            !t@.has_payload(),
            t@.is_real(),
        ensures
            final(self).wf(),
            final(self).follows(old(self)),
            final(self).state() == eat(old(self).source(), old(self).state(), t@).0,
            r is Ok == eat(old(self).source(), old(self).state(), t@).1,
    {
        proof {
            reveal(eat);
        }
        if self.curr.is_none() {
            Err(self.err_eof())
        } else if self.curr_is(&t) {
            let _ = self.advance();
            Ok(())
        } else {
            let mut expected: Vec<Token> = Vec::new();
            expected.push(t);
            Err(self.err_unexpected(expected))
        }
    }

    /// Takes the current token if it is `t`, and says whether it was.
    fn eat_maybe(&mut self, t: Token) -> (r: PResult<bool>)
        requires
            old(self).wf(),
            !t@.has_payload(),
            t@.is_real(),
        ensures
            final(self).wf(),
            final(self).follows(old(self)),
            final(self).state() == eat_maybe(old(self).source(), old(self).state(), t@).0,
            match eat_maybe(old(self).source(), old(self).state(), t@).1 {
                Some(b) => r == Ok::<bool, PErr>(b),
                None => r is Err,
            },
    {
        proof {
            reveal(eat_maybe);
        }
        if self.curr.is_none() {
            Err(self.err_eof())
        } else if self.curr_is(&t) {
            let _ = self.advance();
            Ok(true)
        } else {
            Ok(false)
        }
    }

    /// Counts the pairs `[]` from the current token on.
    fn parse_dims(&mut self) -> (r: PResult<usize>)
        requires
            old(self).wf(),
        ensures
            final(self).wf(),
            final(self).follows(old(self)),
            final(self).state() == parse_dims(old(self).source(), old(self).state(), 0).0,
            match parse_dims(old(self).source(), old(self).state(), 0).1 {
                Some(n) => r == Ok::<usize, PErr>(n as usize) && n <= usize::MAX,
                None => r is Err,
            },
    {
        let ghost raw = self.source();
        let ghost goal = parse_dims(raw, self.state(), 0);
        proof {
            reveal(Parser::wf);
        }
        let mut count: usize = 0;
        let mut result: Option<PResult<usize>> = None;
        while result.is_none()
            invariant
                self.wf(),
                self.source() == raw,
                self.follows(old(self)),
                result is None ==> goal == parse_dims(raw, self.state(), count as nat) && count
                    <= self.curr_lo_spec(),
                result matches Some(r) ==> goal.0 == self.state() && match goal.1 {
                    Some(n) => r == Ok::<usize, PErr>(n as usize) && n <= usize::MAX,
                    None => r is Err,
                },
            decreases work_left(raw, self.state()) + if result is None { 1nat } else { 0nat },
        {
            proof {
                reveal(Parser::wf);
                reveal(advance);
                reveal(eat);
                reveal(eat_maybe);
                lemma_eat(raw, self.state(), TokenView::BracketOp);
                lemma_eat(
                    raw,
                    eat_maybe(raw, self.state(), TokenView::BracketOp).0,
                    TokenView::BracketCl,
                );
            }
            match self.eat_maybe(Token::BracketOp) {
                Err(e) => {
                    result = Some(Err(e));
                },
                Ok(false) => {
                    result = Some(Ok(count));
                },
                Ok(true) => {
                    let ghost mid = self.state();
                    match self.eat(Token::BracketCl) {
                        Err(e) => {
                            result = Some(Err(e));
                        },
                        Ok(_) => {
                            proof {
                                lemma_advance(raw, mid);
                                lemma_pos_monotone(raw, mid.lex.at, self.state().lex.at);
                            }
                            count = count + 1;
                        },
                    }
                },
            }
        }
        match result {
            Some(r) => r,
            None => Err(PErr::Fatal),
        }
    }

    /// Where the current token starts; where there is none, the place up to
    /// which the source was read.
    spec fn curr_lo_spec(&self) -> nat {
        match self.state().curr {
            Some(c) => c.span.lo as nat,
            None => pos_at(self.source(), self.state().lex.at),
        }
    }

    /// Passes over a block with all the blocks inside it. The current
    /// token has to be `opening`, which is `(`, `[` or `{`.
    fn skip_block(&mut self, opening: Token) -> (r: PResult<()>)
        requires
            old(self).wf(),
            opening@ == TokenView::ParenOp || opening@ == TokenView::BracketOp || opening@
                == TokenView::BraceOp,
        ensures
            final(self).wf(),
            final(self).follows(old(self)),
            final(self).state() == skip_block(old(self).source(), old(self).state(), opening@).0,
            r is Ok == skip_block(old(self).source(), old(self).state(), opening@).1,
    {
        let ghost raw = self.source();
        let ghost goal = skip_block(raw, self.state(), opening@);
        proof {
            reveal(Parser::wf);
            reveal(advance);
            reveal(eat);
        }
        let closing = match opening {
            Token::ParenOp => Token::ParenCl,
            Token::BracketOp => Token::BracketCl,
            _ => Token::BraceCl,
        };
        let open = match opening {
            Token::ParenOp => Token::ParenOp,
            Token::BracketOp => Token::BracketOp,
            _ => Token::BraceOp,
        };
        let ghost start = self.state();
        match self.eat(open) {
            Err(e) => {
                return Err(e);
            },
            Ok(_) => {},
        }
        proof {
            lemma_advance(raw, start);
            lemma_pos_monotone(raw, start.lex.at, self.state().lex.at);
        }
        let mut depth: usize = 1;
        let mut failed = false;
        while depth > 0 && !failed
            invariant
                self.wf(),
                self.source() == raw,
                self.follows(old(self)),
                closing@ == closing_of(opening@),
                !closing@.has_payload() && closing@.is_real(),
                !opening@.has_payload() && opening@.is_real(),
                !failed ==> goal == skip_block_rest(raw, self.state(), opening@, depth as nat)
                    && depth <= self.curr_lo_spec(),
                failed ==> goal == (self.state(), false),
            decreases work_left(raw, self.state()) + if failed { 0nat } else { 1nat },
        {
            if self.curr.is_none() {
                let _ = self.err_eof();
                failed = true;
            } else {
                let ghost before = self.state();
                proof {
                    reveal(Parser::wf);
                    reveal(advance);
                    self.tstr.lemma_position();
                    lemma_advance(raw, before);
                }
                if self.curr_is(&opening) {
                    depth = depth + 1;
                } else if self.curr_is(&closing) {
                    depth = depth - 1;
                }
                let _ = self.advance();
                proof {
                    lemma_pos_monotone(raw, before.lex.at, self.state().lex.at);
                }
            }
        }
        if failed {
            Err(PErr::Fatal)
        } else {
            Ok(())
        }
    }

    /// The modifier that the current token is, with its place; `None`
    /// inside where it is no modifier, `None` outside at the end of the
    /// source.
    fn curr_modifier(&self) -> (r: Option<Option<(Modifier, Span)>>)
        ensures
            match self.state().curr {
                None => r is None,
                Some(c) => r is Some && match modifier_of(c.tok) {
                    Some(m) => r.unwrap() == Some((m, c.span)),
                    None => r.unwrap() is None,
                },
            },
    {
        match &self.curr {
            None => None,
            Some(ts) => {
                let m = match &ts.tok {
                    Token::KeyW(k) => match k {
                        Keyword::Public => Some(Modifier::Public),
                        Keyword::Protected => Some(Modifier::Protected),
                        Keyword::Private => Some(Modifier::Private),
                        Keyword::Abstract => Some(Modifier::Abstract),
                        Keyword::Static => Some(Modifier::Static),
                        Keyword::Final => Some(Modifier::Final),
                        Keyword::Synchronized => Some(Modifier::Synchronized),
                        Keyword::Native => Some(Modifier::Native),
                        Keyword::Strictfp => Some(Modifier::Strictfp),
                        Keyword::Transient => Some(Modifier::Transient),
                        Keyword::Volatile => Some(Modifier::Volatile),
                        _ => None,
                    },
                    _ => None,
                };
                match m {
                    Some(m) => Some(Some((m, ts.span))),
                    None => Some(None),
                }
            },
        }
    }

    /// Whether `m` is among the modifiers.
    fn has_modifier(mods: &Vec<(Modifier, Span)>, m: Modifier) -> (r: bool)
        ensures
            r == has_modifier(mods@, m),
    {
        let mut i: usize = 0;
        while i < mods.len()
            invariant
                i <= mods.len(),
                forall|j: int| 0 <= j < i ==> (#[trigger] mods@[j]).0 != m,
            decreases mods.len() - i,
        {
            if mods[i].0 == m {
                return true;
            }
            i += 1;
        }
        false
    }

    /// Reads modifiers, each with its place, up to the first token that is
    /// none. A modifier that stands twice is an error.
    fn parse_modifiers(&mut self) -> (r: PResult<Vec<(Modifier, Span)>>)
        requires
            old(self).wf(),
        ensures
            final(self).wf(),
            final(self).follows(old(self)),
            final(self).state() == parse_modifiers(
                old(self).source(),
                old(self).state(),
                Seq::empty(),
            ).0,
            match parse_modifiers(old(self).source(), old(self).state(), Seq::empty()).1 {
                Some(ms) => r is Ok && r.unwrap()@ == ms,
                None => r is Err,
            },
    {
        let ghost raw = self.source();
        let ghost goal = parse_modifiers(raw, self.state(), Seq::empty());
        let mut mods: Vec<(Modifier, Span)> = Vec::new();
        let mut done = false;
        let mut failed = false;
        while !done
            invariant
                self.wf(),
                self.source() == raw,
                self.follows(old(self)),
                !done ==> !failed && goal == parse_modifiers(raw, self.state(), mods@),
                done ==> goal.0 == self.state() && if failed {
                    goal.1 is None
                } else {
                    goal.1 == Some(mods@)
                },
            decreases work_left(raw, self.state()) + if done { 0nat } else { 1nat },
        {
            proof {
                lemma_advance(raw, self.state());
            }
            match self.curr_modifier() {
                None => {
                    let _ = self.err_eof();
                    failed = true;
                    done = true;
                },
                Some(None) => {
                    done = true;
                },
                Some(Some(ms)) => {
                    if Self::has_modifier(&mods, ms.0) {
                        let _ = self.err_dupe();
                        failed = true;
                        done = true;
                    } else {
                        mods.push(ms);
                        let _ = self.advance();
                    }
                },
            }
        }
        if failed {
            Err(PErr::Fatal)
        } else {
            Ok(mods)
        }
    }

    /// The text `head`, the modifier and `tail`.
    fn modifier_text(head: &str, m: Modifier, tail: &str) -> (s: String)
        ensures
            s@ == head@ + m.java_text() + tail@,
    {
        let mut s = head.to_owned();
        s.append(m.as_java_string());
        s.append(tail);
        s
    }

    /// Goes through the modifiers of a method in their order: one
    /// visibility at most, `static` and `final`, and no other.
    fn method_flags(mods: &Vec<(Modifier, Span)>) -> (r: Result<MethodFlags, Report>)
        ensures
            match method_flags(mods@, 0, no_flags()) {
                Ok(f) => r == Ok::<MethodFlags, Report>(f),
                Err(rv) => r matches Err(e) && e@ == rv,
            },
    {
        let mut flags = MethodFlags {
            vis: Visibility::Package,
            seen: None,
            static_: false,
            final_: false,
        };
        let mut i: usize = 0;
        while i < mods.len()
            invariant
                i <= mods.len(),
                method_flags(mods@, 0, no_flags()) == method_flags(mods@, i as int, flags),
            decreases mods.len() - i,
        {
            let m = mods[i].0;
            let span = mods[i].1;
            let vis = match m {
                Modifier::Public => Some(Visibility::Public),
                Modifier::Protected => Some(Visibility::Protected),
                Modifier::Private => Some(Visibility::Private),
                _ => None,
            };
            match vis {
                Some(v) => {
                    match flags.seen {
                        Some(first) => {
                            let note = Remark::note(
                                Self::modifier_text(
                                    "Already parsed the visibility modifier `",
                                    first.0,
                                    "` here",
                                ),
                                Snippet::Highlight(first.1),
                            );
                            let r = Report::error(
                                span,
                                Self::modifier_text("Unexpected visibility modifier `", m, "`"),
                            ).with_remark(note);
                            return Err(r);
                        },
                        None => {
                            flags = MethodFlags { vis: v, seen: Some((m, span)), ..flags };
                        },
                    }
                },
                None => {
                    if m == Modifier::Static {
                        flags = MethodFlags { static_: true, ..flags };
                    } else if m == Modifier::Final {
                        flags = MethodFlags { final_: true, ..flags };
                    } else {
                        return Err(
                            Report::error(
                                span,
                                Self::modifier_text("Unexpected method modifier `", m, "`"),
                            ),
                        );
                    }
                },
            }
            i += 1;
        }
        Ok(flags)
    }

    /// The first modifier that a class cannot have: any but `public`.
    fn class_fault(mods: &Vec<(Modifier, Span)>) -> (r: Option<(Modifier, Span)>)
        ensures
            r == class_fault(mods@, 0),
    {
        let mut i: usize = 0;
        while i < mods.len()
            invariant
                i <= mods.len(),
                class_fault(mods@, 0) == class_fault(mods@, i as int),
            decreases mods.len() - i,
        {
            if mods[i].0 != Modifier::Public {
                return Some(mods[i]);
            }
            i += 1;
        }
        None
    }

    /// Parses one parameter, and takes the comma behind it, if there is
    /// one.
    fn parse_param(&mut self) -> (r: PResult<FormalParameter>)
        requires
            old(self).wf(),
        ensures
            final(self).wf(),
            final(self).follows(old(self)),
            final(self).state() == parse_param(old(self).source(), old(self).state()).0,
            match parse_param(old(self).source(), old(self).state()).1 {
                Some(fp) => r is Ok && r.unwrap()@ == fp,
                None => r is Err,
            },
    {
        let final_ = match self.eat_maybe(Token::KeyW(Keyword::Final)) {
            Ok(b) => b,
            Err(e) => {
                return Err(e);
            },
        };
        let ty = match self.eat_ident() {
            Ok(id) => id,
            Err(e) => {
                return Err(e);
            },
        };
        let mut dims = match self.parse_dims() {
            Ok(n) => n,
            Err(e) => {
                return Err(e);
            },
        };
        let name = match self.eat_ident() {
            Ok(id) => id,
            Err(e) => {
                return Err(e);
            },
        };
        if dims == 0 {
            dims = match self.parse_dims() {
                Ok(n) => n,
                Err(e) => {
                    return Err(e);
                },
            };
        }
        match self.eat_maybe(Token::Comma) {
            Ok(_) => {},
            Err(e) => {
                return Err(e);
            },
        }
        Ok(FormalParameter { ty, name, dims, final_ })
    }

    /// Parses the parameters of a method, and the parenthesis that closes
    /// the list.
    fn parse_params(&mut self) -> (r: PResult<Vec<FormalParameter>>)
        requires
            old(self).wf(),
        ensures
            final(self).wf(),
            final(self).follows(old(self)),
            final(self).state() == parse_params(
                old(self).source(),
                old(self).state(),
                Seq::empty(),
            ).0,
            match parse_params(old(self).source(), old(self).state(), Seq::empty()).1 {
                Some(ps) => r is Ok && params_view(r.unwrap()@) == ps,
                None => r is Err,
            },
    {
        let ghost raw = self.source();
        let ghost goal = parse_params(raw, self.state(), Seq::empty());
        let mut params: Vec<FormalParameter> = Vec::new();
        let mut done = false;
        let mut failed = false;
        assert(params_view(params@) =~= Seq::empty());
        while !done
            invariant
                self.wf(),
                self.source() == raw,
                self.follows(old(self)),
                !done ==> !failed && goal == parse_params(raw, self.state(), params_view(params@)),
                done ==> goal.0 == self.state() && if failed {
                    goal.1 is None
                } else {
                    goal.1 == Some(params_view(params@))
                },
            decreases work_left(raw, self.state()) + if done { 0nat } else { 1nat },
        {
            proof {
                lemma_eat(raw, self.state(), TokenView::ParenCl);
                lemma_parse_param(raw, eat_maybe(raw, self.state(), TokenView::ParenCl).0);
            }
            match self.eat_maybe(Token::ParenCl) {
                Err(_) => {
                    failed = true;
                    done = true;
                },
                Ok(true) => {
                    done = true;
                },
                Ok(false) => {
                    match self.parse_param() {
                        Err(_) => {
                            failed = true;
                            done = true;
                        },
                        Ok(fp) => {
                            assert(params_view(params@.push(fp)) =~= params_view(params@).push(
                                fp@,
                            ));
                            params.push(fp);
                        },
                    }
                },
            }
        }
        if failed {
            Err(PErr::Fatal)
        } else {
            Ok(params)
        }
    }

    /// Parses a method from its parameter list on: the modifiers are
    /// judged, the parameters parsed and the body passed over.
    fn parse_method(&mut self, name: Ident, ret_ty: Ident, mods: Vec<(Modifier, Span)>) -> (r:
        PResult<Method>)
        requires
            old(self).wf(),
        ensures
            final(self).wf(),
            final(self).follows(old(self)),
            final(self).state() == parse_method(
                old(self).source(),
                old(self).state(),
                name@,
                ret_ty@,
                mods@,
            ).0,
            match parse_method(old(self).source(), old(self).state(), name@, ret_ty@, mods@).1 {
                Some(m) => r is Ok && r.unwrap()@ == m,
                None => r is Err,
            },
    {
        let flags = match Self::method_flags(&mods) {
            Ok(f) => f,
            Err(report) => {
                self.report(report);
                return Err(PErr::Fatal);
            },
        };
        match self.eat(Token::ParenOp) {
            Ok(_) => {},
            Err(e) => {
                return Err(e);
            },
        }
        let params = match self.parse_params() {
            Ok(ps) => ps,
            Err(e) => {
                return Err(e);
            },
        };
        match self.skip_block(Token::BraceOp) {
            Ok(_) => {},
            Err(e) => {
                return Err(e);
            },
        }
        Ok(
            Method {
                vis: flags.vis,
                name,
                ret_ty,
                static_: flags.static_,
                final_: flags.final_,
                params,
            },
        )
    }

    /// Passes over the rest of a field declaration: all up to the next
    /// semicolon, and the semicolon.
    fn skip_field(&mut self) -> (r: PResult<()>)
        requires
            old(self).wf(),
        ensures
            final(self).wf(),
            final(self).follows(old(self)),
            final(self).state() == skip_field(old(self).source(), old(self).state()).0,
            r is Ok == skip_field(old(self).source(), old(self).state()).1,
    {
        let ghost raw = self.source();
        let ghost goal = skip_field(raw, self.state());
        let mut done = false;
        let mut failed = false;
        while !done
            invariant
                self.wf(),
                self.source() == raw,
                self.follows(old(self)),
                !done ==> !failed && goal == skip_field(raw, self.state()),
                done ==> goal == (self.state(), !failed),
            decreases work_left(raw, self.state()) + if done { 0nat } else { 1nat },
        {
            proof {
                lemma_advance(raw, self.state());
            }
            if self.curr.is_none() {
                let _ = self.err_eof();
                failed = true;
                done = true;
            } else {
                if self.curr_is(&Token::Semi) {
                    done = true;
                }
                let _ = self.advance();
            }
        }
        if failed {
            Err(PErr::Fatal)
        } else {
            Ok(())
        }
    }

    /// Parses one member of a class: its modifiers, its type and its name;
    /// then a method, if a parenthesis follows, or else a field, which is
    /// passed over. A method is added to `methods`.
    fn parse_member(&mut self, methods: &mut Vec<Method>) -> (r: PResult<()>)
        requires
            old(self).wf(),
        ensures
            final(self).wf(),
            final(self).follows(old(self)),
            final(self).state() == parse_member(
                old(self).source(),
                old(self).state(),
                methods_view(old(methods)@),
            ).0,
            match parse_member(
                old(self).source(),
                old(self).state(),
                methods_view(old(methods)@),
            ).1 {
                Some(ms) => r is Ok && methods_view(final(methods)@) == ms,
                None => r is Err,
            },
    {
        let mods = match self.parse_modifiers() {
            Ok(ms) => ms,
            Err(e) => {
                return Err(e);
            },
        };
        let ty = match self.eat_ident() {
            Ok(id) => id,
            Err(e) => {
                return Err(e);
            },
        };
        let name = match self.eat_ident() {
            Ok(id) => id,
            Err(e) => {
                return Err(e);
            },
        };
        if self.curr.is_none() {
            Err(self.err_eof())
        } else if self.curr_is(&Token::ParenOp) {
            match self.parse_method(name, ty, mods) {
                Ok(m) => {
                    methods.push(m);
                    Ok(())
                },
                Err(e) => Err(e),
            }
        } else if self.curr_is(&Token::Semi) || self.curr_is(&Token::Eq) || self.curr_is(
            &Token::Comma,
        ) {
            self.skip_field()
        } else {
            let mut expected: Vec<Token> = Vec::new();
            expected.push(Token::ParenOp);
            expected.push(Token::Semi);
            expected.push(Token::Eq);
            expected.push(Token::Comma);
            assert(tokens_view(expected@) =~= member_starts());
            Err(self.err_unexpected(expected))
        }
    }

    /// Parses the members of a class, and the brace that closes the class.
    fn parse_members(&mut self) -> (r: PResult<Vec<Method>>)
        requires
            old(self).wf(),
        ensures
            final(self).wf(),
            final(self).follows(old(self)),
            final(self).state() == parse_members(
                old(self).source(),
                old(self).state(),
                Seq::empty(),
            ).0,
            match parse_members(old(self).source(), old(self).state(), Seq::empty()).1 {
                Some(ms) => r is Ok && methods_view(r.unwrap()@) == ms,
                None => r is Err,
            },
    {
        let ghost raw = self.source();
        let ghost goal = parse_members(raw, self.state(), Seq::empty());
        let mut methods: Vec<Method> = Vec::new();
        let mut done = false;
        let mut failed = false;
        assert(methods_view(methods@) =~= Seq::empty());
        while !done
            invariant
                self.wf(),
                self.source() == raw,
                self.follows(old(self)),
                !done ==> !failed && goal == parse_members(
                    raw,
                    self.state(),
                    methods_view(methods@),
                ),
                done ==> goal.0 == self.state() && if failed {
                    goal.1 is None
                } else {
                    goal.1 == Some(methods_view(methods@))
                },
            decreases work_left(raw, self.state()) + if done { 0nat } else { 1nat },
        {
            proof {
                lemma_eat(raw, self.state(), TokenView::BraceCl);
                lemma_parse_member(
                    raw,
                    eat_maybe(raw, self.state(), TokenView::BraceCl).0,
                    methods_view(methods@),
                );
            }
            match self.eat_maybe(Token::BraceCl) {
                Err(_) => {
                    failed = true;
                    done = true;
                },
                Ok(true) => {
                    done = true;
                },
                Ok(false) => {
                    match self.parse_member(&mut methods) {
                        Err(_) => {
                            failed = true;
                            done = true;
                        },
                        Ok(_) => {},
                    }
                },
            }
        }
        if failed {
            Err(PErr::Fatal)
        } else {
            Ok(methods)
        }
    }

    /// Parses a class at the top of the file: its modifiers, of which only
    /// `public` is taken, the keyword `class`, the name, and the members in
    /// braces.
    fn parse_top_lvl_class(&mut self) -> (r: PResult<Class>)
        requires
            old(self).wf(),
        ensures
            final(self).wf(),
            final(self).follows(old(self)),
            final(self).state() == parse_top_lvl_class(old(self).source(), old(self).state()).0,
            match parse_top_lvl_class(old(self).source(), old(self).state()).1 {
                Some(c) => r is Ok && r.unwrap()@ == c,
                None => r is Err,
            },
    {
        let mods = match self.parse_modifiers() {
            Ok(ms) => ms,
            Err(e) => {
                return Err(e);
            },
        };
        match Self::class_fault(&mods) {
            Some(bad) => {
                self.report(
                    Report::error(
                        bad.1,
                        Self::modifier_text("Unexpected class modifier `", bad.0, "`"),
                    ),
                );
                return Err(PErr::Fatal);
            },
            None => {},
        }
        let vis = if mods.len() > 0 {
            Visibility::Public
        } else {
            Visibility::Package
        };
        match self.eat(Token::KeyW(Keyword::Class)) {
            Ok(_) => {},
            Err(e) => {
                return Err(e);
            },
        }
        let name = match self.eat_ident() {
            Ok(id) => id,
            Err(e) => {
                return Err(e);
            },
        };
        match self.eat(Token::BraceOp) {
            Ok(_) => {},
            Err(e) => {
                return Err(e);
            },
        }
        match self.parse_members() {
            Ok(methods) => Ok(Class { name, vis, methods }),
            Err(e) => Err(e),
        }
    }

    /// Parses an import behind its keyword.
    fn parse_import(&mut self) -> (r: PResult<Import>)
        requires
            old(self).wf(),
        ensures
            final(self).wf(),
            final(self).follows(old(self)),
            final(self).state() == parse_import(old(self).source(), old(self).state()).0,
            match parse_import(old(self).source(), old(self).state()).1 {
                Some(i) => r is Ok && r.unwrap()@ == i,
                None => r is Err,
            },
    {
        let ghost raw = self.source();
        let ghost goal = parse_import(raw, self.state());
        let mut w = match self.eat_ident() {
            Ok(id) => id,
            Err(e) => {
                return Err(e);
            },
        };
        let mut path: Vec<Ident> = Vec::new();
        let mut result: Option<PResult<Import>> = None;
        assert(idents_view(path@) =~= Seq::empty());
        while result.is_none()
            invariant
                self.wf(),
                self.source() == raw,
                self.follows(old(self)),
                result is None ==> goal == parse_import_rest(
                    raw,
                    self.state(),
                    idents_view(path@),
                    w@,
                ),
                result matches Some(r) ==> goal.0 == self.state() && match goal.1 {
                    Some(i) => r is Ok && r.unwrap()@ == i,
                    None => r is Err,
                },
            decreases work_left(raw, self.state()) + if result is None { 1nat } else { 0nat },
        {
            proof {
                lemma_advance(raw, self.state());
                lemma_advance(raw, advance(raw, self.state()));
                lemma_eat(raw, advance(raw, advance(raw, self.state())), TokenView::Semi);
                reveal(eat_ident);
            }
            if self.curr.is_none() {
                result = Some(Err(self.err_eof()));
            } else if self.curr_is(&Token::Semi) {
                let _ = self.advance();
                let name = Name { path, last: Some(w) };
                result = Some(Ok(Import::Single(name)));
                path = Vec::new();
                w = Ident::default();
            } else if self.curr_is(&Token::Dot) {
                assert(idents_view(path@.push(w)) =~= idents_view(path@).push(w@));
                path.push(w);
                w = Ident::default();
                let _ = self.advance();
                if self.curr.is_none() {
                    result = Some(Err(self.err_eof()));
                } else if self.curr_is(&Token::Star) {
                    let _ = self.advance();
                    match self.eat(Token::Semi) {
                        Ok(_) => {
                            let name = Name { path, last: None };
                            result = Some(Ok(Import::Wildcard(name)));
                            path = Vec::new();
                        },
                        Err(e) => {
                            result = Some(Err(e));
                        },
                    }
                } else if self.curr_is_ident() {
                    match self.eat_ident() {
                        Ok(id) => {
                            w = id;
                        },
                        Err(e) => {
                            result = Some(Err(e));
                        },
                    }
                } else {
                    let mut expected: Vec<Token> = Vec::new();
                    expected.push(Token::Star);
                    expected.push(Token::Ident(String::new()));
                    assert(tokens_view(expected@) =~= import_parts());
                    result = Some(Err(self.err_unexpected(expected)));
                }
            } else {
                let mut expected: Vec<Token> = Vec::new();
                expected.push(Token::Semi);
                expected.push(Token::Dot);
                assert(tokens_view(expected@) =~= import_continues());
                result = Some(Err(self.err_unexpected(expected)));
            }
        }
        match result {
            Some(r) => r,
            None => Err(PErr::Fatal),
        }
    }

    /// Whether a class starts with the current token: with a modifier or
    /// with the keyword `class`.
    fn at_class(&self) -> (r: bool)
        ensures
            r == match self.state().curr {
                Some(c) => starts_class(c.tok),
                None => false,
            },
    {
        match self.curr_modifier() {
            Some(Some(_)) => true,
            Some(None) => self.curr_is(&Token::KeyW(Keyword::Class)),
            None => false,
        }
    }

    /// Parses a compilation unit: the imports and classes of the source,
    /// in their order, up to the end of the source or to a token that
    /// starts neither. After an error there is no tree.
    pub fn parse_cunit(&mut self) -> (r: PResult<CUnit>)
        requires
            old(self).wf(),
        ensures
            final(self).wf(),
            final(self).follows(old(self)),
            final(self).state() == parse_cunit(old(self).source(), old(self).state()).0,
            match parse_cunit(old(self).source(), old(self).state()).1 {
                Some(cu) => r is Ok && r.unwrap()@ == cu,
                None => r is Err,
            },
    {
        let ghost raw = self.source();
        let ghost goal = parse_items(raw, self.state(), Seq::empty());
        let mut items: Vec<Item> = Vec::new();
        let mut done = false;
        let mut failed = false;
        assert(items_view(items@) =~= Seq::empty());
        while !done
            invariant
                self.wf(),
                self.source() == raw,
                self.follows(old(self)),
                !done ==> !failed && goal == parse_items(raw, self.state(), items_view(items@)),
                done ==> goal.0 == self.state() && if failed {
                    goal.1 is None
                } else {
                    goal.1 == Some(items_view(items@))
                },
            decreases work_left(raw, self.state()) + if done { 0nat } else { 1nat },
        {
            proof {
                let p = self.state();
                lemma_advance(raw, p);
                let behind = advance(raw, p);
                lemma_eat(raw, behind, TokenView::Semi);
                match eat_ident(raw, behind).1 {
                    Some(w) => lemma_parse_import_rest(
                        raw,
                        eat_ident(raw, behind).0,
                        Seq::empty(),
                        w,
                    ),
                    None => {},
                }
                lemma_parse_top_lvl_class(raw, p);
            }
            if self.curr_is(&Token::KeyW(Keyword::Import)) {
                let _ = self.advance();
                match self.parse_import() {
                    Ok(i) => {
                        let item = Item::Import(i);
                        assert(items_view(items@.push(item)) =~= items_view(items@).push(item@));
                        items.push(item);
                    },
                    Err(_) => {
                        failed = true;
                        done = true;
                    },
                }
            } else if self.at_class() {
                match self.parse_top_lvl_class() {
                    Ok(c) => {
                        let item = Item::Class(Box::new(c));
                        assert(items_view(items@.push(item)) =~= items_view(items@).push(item@));
                        items.push(item);
                    },
                    Err(_) => {
                        failed = true;
                        done = true;
                    },
                }
            } else {
                done = true;
            }
        }
        if failed {
            Err(PErr::Fatal)
        } else {
            Ok(CUnit { items })
        }
    }

    /// Ends the parsing: the source with its line starts, and the reports.
    pub fn finish(self) -> (r: (FileMap, Vec<Report>))
        requires
            self.wf(),
        ensures
            r.0.wf(),
            r.0.text() == self.source(),
            r.0.name() == self.name(),
            r.0.line_starts() == lines_upto(self.source(), self.state().lex.at),
            reports_view(r.1@) == self.state().lex.diags,
    {
        proof {
            reveal(Parser::wf);
            self.tstr.lemma_lines();
        }
        self.tstr.finish()
    }
}

/// What parsing a source gives.
pub struct Parsed {
    /// The tree; `None` after a syntax error.
    pub ast: Option<CUnit>,
    /// The reports of the tokenizer and the parser, in the order in which
    /// they were made.
    pub reports: Vec<Report>,
    /// The source, with the line starts that were found.
    pub fmap: FileMap,
}

/// The state in which parsing the source `raw` ends, and the tree.
pub open spec fn parse_source(raw: Seq<char>) -> (Parsing, Option<crate::syntax::ast::CUnitView>) {
    parse_cunit(raw, begin(raw, start(raw)))
}

/// Parses a source: reads its tokens and builds the tree of its
/// compilation unit.
pub fn parse_compilation_unit(fmap: FileMap) -> (r: Parsed)
    requires
        fmap.wf(),
        fmap.line_starts() == seq![0usize],
    ensures
        match parse_source(fmap.text()).1 {
            Some(cu) => r.ast is Some && r.ast.unwrap()@ == cu,
            None => r.ast is None,
        },
        reports_view(r.reports@) == parse_source(fmap.text()).0.lex.diags,
        r.fmap.wf(),
        r.fmap.text() == fmap.text(),
        r.fmap.name() == fmap.name(),
        r.fmap.line_starts() == lines_upto(fmap.text(), parse_source(fmap.text()).0.lex.at),
{
    let mut parser = Parser::new(Tokenizer::new(fmap));
    let ast = match parser.parse_cunit() {
        Ok(cu) => Some(cu),
        Err(_) => None,
    };
    let done = parser.finish();
    Parsed { ast, reports: done.1, fmap: done.0 }
}

} // verus!
