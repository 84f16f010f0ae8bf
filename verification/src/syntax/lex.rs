//! The tokenizer: reads a source once, front to back, and hands out its
//! tokens one by one. On the way it records where lines start and collects
//! reports on what it could not read.

use vstd::prelude::*;
use vstd::string::StringExecFns;
use crate::chars::{
    digit_of, is_ascii_digit, is_java_ident_part, is_java_ident_start, is_java_whitespace,
    java_ident_part, java_whitespace, to_digit,
};
use crate::diagnostics::{lemma_reports_push, Report, reports_view, ReportView};
use crate::filemap::{FileMap, Span};
use crate::syntax::decode::{
    decode_from, decoded_text, EscapeFault, fetch, lemma_fetch_bounds, lemma_units, read_char, tail,
    tail_from, units,
};
use crate::syntax::laws::{lemma_all_lines_found, line_breaks};
use crate::syntax::lexemes::from_lexeme;
use crate::syntax::lexing::{
    bump, bump_n, char_at, CharScan, escape_message, escape_of, exponent_message, fatal,     float_base_message, invalid_digit_message, left, lemma_pos_monotone, Lexing, lines_upto,
    next_real_token, next_token, number_starts, pos_at, scan_char_literal, scan_digits,
    scan_double_suffix, scan_escaped_char, scan_float_exp, scan_fraction, scan_number_literal,
    scan_radix, scan_string_body, scan_string_literal, scan_token, scan_whole, scan_word,
    skip_block_comment, skip_comment, skip_line_comment, skip_whitespace, start, symbol, Whole,
    word_token,
};
use crate::syntax::token::{Keyword, Lit, Token, TokenSpan};
use crate::text::{byte_len, byte_offset, lemma_byte_offset_monotone, string_of, text_is};

verus! {

/// What a character is to a run of digits.
#[derive(Clone, Copy, PartialEq, Eq, Structural)]
enum DigitKind {
    /// An underscore, which is passed over.
    Separator,
    /// A digit of the radix.
    Digit(char),
    /// A digit that the radix does not have.
    TooHigh(char),
    /// Anything else, which ends the run.
    Other,
}

/// What the character `c` is to a run of digits in the given radix.
spec fn digit_kind(c: Option<char>, radix: u32) -> DigitKind {
    match c {
        Some(c) => if c == '_' {
            DigitKind::Separator
        } else if digit_of(c, scan_radix(radix)) is Some {
            if digit_of(c, radix) is None {
                DigitKind::TooHigh(c)
            } else {
                DigitKind::Digit(c)
            }
        } else {
            DigitKind::Other
        },
        None => DigitKind::Other,
    }
}

/// Reads the tokens of a source.
pub struct Tokenizer {
    /// The source and its line starts.
    fmap: FileMap,
    /// The reports made so far.
    diags: Vec<Report>,
    /// Index in the source behind the text of `peek`, and its byte offset.
    idx: usize,
    idx_pos: usize,
    /// The character before the current one, the current one and the next.
    last: Option<char>,
    curr: Option<char>,
    peek: Option<char>,
    /// Byte offset at which the text of each of them starts.
    last_pos: usize,
    curr_pos: usize,
    peek_pos: usize,
    /// Index of the current character among the characters of the source.
    at: Ghost<int>,
}

impl Tokenizer {
    /// The source text.
    pub closed spec fn source(&self) -> Seq<char> {
        self.fmap.text()
    }

    /// Where the tokenizer stands and what it has reported.
    pub closed spec fn state(&self) -> Lexing {
        Lexing { at: self.at@, diags: reports_view(self.diags@) }
    }

    /// The line starts recorded so far.
    pub closed spec fn lines(&self) -> Seq<usize> {
        self.fmap.line_starts()
    }

    /// The name of the file.
    pub closed spec fn name(&self) -> Seq<char> {
        self.fmap.name()
    }

    /// What holds of the fields, also while the tokenizer is set up.
    #[verifier::opaque]
    spec fn inv(&self) -> bool {
        let raw = self.fmap.text();
        let u = units(raw);
        let at = self.at@;
        &&& self.fmap.wf()
        &&& at >= -1
        &&& self.last == char_at(raw, at - 1)
        &&& self.curr == char_at(raw, at)
        &&& self.peek == char_at(raw, at + 1)
        &&& self.last_pos == pos_at(raw, at - 1)
        &&& self.curr_pos == pos_at(raw, at)
        &&& self.peek_pos == pos_at(raw, at + 1)
        &&& self.curr_pos <= self.peek_pos <= self.idx_pos
        &&& self.idx <= raw.len()
        &&& self.idx_pos == byte_offset(raw, self.idx as int)
        &&& at + 1 < u.len() ==> self.idx == u[at + 1].next && self.peek_pos < self.idx_pos
        &&& at + 2 <= u.len() ==> decode_from(raw, self.idx as int, self.peek) == u.skip(at + 2)
            && tail_from(raw, self.idx as int, self.peek) == tail(raw)
        &&& self.fmap.line_starts() == lines_upto(raw, at)
        &&& self.fmap.line_starts().last() <= self.peek_pos
    }

    /// The tokenizer is set up, and its fields agree with its state.
    pub closed spec fn wf(&self) -> bool {
        self.inv() && self.at@ >= 0
    }

    /// Whether `self` is `before` after some more reading: the same source,
    /// no character given back.
    pub open spec fn follows(&self, before: &Tokenizer) -> bool {
        &&& self.source() == before.source()
        &&& self.name() == before.name()
        &&& self.state().at >= before.state().at
    }

    /// Byte offset at which the text of the current character starts.
    pub open spec fn position(&self) -> nat {
        pos_at(self.source(), self.state().at)
    }

    /// Whether the end of the source is reached.
    pub open spec fn at_end(&self) -> bool {
        char_at(self.source(), self.state().at) is None
    }

    /// What a tokenizer that is set up knows of its lines.
    pub proof fn lemma_lines(&self)
        requires
            self.wf(),
        ensures
            self.lines() == lines_upto(self.source(), self.state().at),
            self.state().at >= 0,
    {
        reveal(Tokenizer::inv);
    }

    /// The text of the message for a rejected escape.
    fn escape_text(kind: EscapeFault) -> (s: String)
        ensures
            s@ == escape_message(kind),
    {
        match kind {
            EscapeFault::TooShort => "Invalid unicode escape (less than 4 digits)".to_owned(),
            EscapeFault::NotScalar => "Invalid unicode escape (not a valid unicode scalar value)".to_owned(),
        }
    }

    /// Adds a report of another reader of the same source.
    pub fn add_report(&mut self, r: Report)
        requires
            old(self).wf(),
        ensures
            final(self).wf(),
            final(self).follows(old(self)),
            final(self).lines() == old(self).lines(),
            final(self).state() == (Lexing {
                diags: old(self).state().diags.push(r@),
                ..old(self).state()
            }),
    {
        proof {
            reveal(Tokenizer::inv);
            lemma_reports_push(self.diags@, r);
        }
        self.diags.push(r);
    }

    /// The characters of a source start within it.
    pub proof fn lemma_position(&self)
        requires
            self.wf(),
        ensures
            self.position() <= byte_len(self.source()) <= usize::MAX,
    {
        reveal(Tokenizer::inv);
        lemma_pos_monotone(self.source(), self.state().at, self.state().at);
    }

    /// Adds an error to the reports.
    fn report(&mut self, span: Span, message: String)
        requires
            old(self).inv(),
        ensures
            final(self).inv(),
            final(self).follows(old(self)),
            final(self).state() == (Lexing {
                diags: old(self).state().diags.push(ReportView::error(span, message@)),
                ..old(self).state()
            }),
    {
        let r = Report::error(span, message);
        proof {
            reveal(Tokenizer::inv);
            lemma_reports_push(self.diags@, r);
        }
        self.diags.push(r);
    }

    /// Moves on by one character: the next one becomes the current one,
    /// and the one behind it is looked for. This is also how a new
    /// tokenizer comes to its first character.
    fn bump(&mut self)
        requires
            old(self).inv(),
        ensures
            final(self).inv(),
            final(self).follows(old(self)),
            final(self).state() == bump(old(self).source(), old(self).state()),
    {
        proof {
            reveal(Tokenizer::inv);
        }
        let ghost raw = self.fmap.text();
        let ghost u = units(raw);
        let ghost at = self.at@;
        self.last = self.curr;
        self.last_pos = self.curr_pos;
        self.curr = self.peek;
        self.curr_pos = self.peek_pos;
        self.at = Ghost(at + 1);
        match self.curr {
            Some(c) => {
                let end = self.idx_pos;
                let f = read_char(self.fmap.chars(), self.idx, self.idx_pos, self.curr);
                let before_lf = match f.ch {
                    Some(n) => n == '\n',
                    None => false,
                };
                if c == '\n' || (c == '\r' && !before_lf) {
                    self.fmap.add_line(end);
                }
                proof {
                    lemma_fetch_bounds(raw, self.idx as int, self.curr);
                    let ff = fetch(raw, self.idx as int, self.curr);
                    lemma_byte_offset_monotone(raw, self.idx as int, ff.start);
                    lemma_byte_offset_monotone(raw, ff.start, ff.next);
                    if ff.ch is Some {
                        assert(u.skip(at + 2)[0] == ff);
                        assert(u.skip(at + 3) =~= u.skip(at + 2).skip(1));
                        assert(u.skip(at + 2).skip(1) =~= decode_from(raw, ff.next, ff.ch));
                    }
                }
                self.peek = f.ch;
                self.peek_pos = f.start_pos;
                self.idx = f.next;
                self.idx_pos = f.next_pos;
                match f.fault {
                    Some(kind) => {
                        let r = Report::error(f.fault_span, Self::escape_text(kind));
                        proof {
                            lemma_reports_push(self.diags@, r);
                        }
                        self.diags.push(r);
                    },
                    None => {},
                }
            },
            None => {
                self.peek = None;
                proof {
                    lemma_units(raw);
                }
            },
        }
    }

    /// A tokenizer at the start of the source of `fmap`.
    pub fn new(fmap: FileMap) -> (t: Tokenizer)
        requires
            fmap.wf(),
            fmap.line_starts() == seq![0usize],
        ensures
            t.wf(),
            t.source() == fmap.text(),
            t.name() == fmap.name(),
            t.state() == start(fmap.text()),
    {
        proof {
            reveal(Tokenizer::inv);
        }
        let ghost raw = fmap.text();
        let f = read_char(fmap.chars(), 0, 0, None);
        let mut diags: Vec<Report> = Vec::new();
        proof {
            lemma_fetch_bounds(raw, 0, None);
            let ff = fetch(raw, 0, None);
            lemma_byte_offset_monotone(raw, 0, ff.start);
            lemma_byte_offset_monotone(raw, ff.start, ff.next);
            if ff.ch is Some {
                assert(units(raw).skip(1) =~= decode_from(raw, ff.next, ff.ch));
            }
            assert(reports_view(diags@) =~= Seq::<ReportView>::empty());
        }
        match f.fault {
            Some(kind) => {
                let r = Report::error(f.fault_span, Self::escape_text(kind));
                proof {
                    lemma_reports_push(diags@, r);
                }
                diags.push(r);
            },
            None => {},
        }
        let mut t = Tokenizer {
            fmap,
            diags,
            idx: f.next,
            idx_pos: f.next_pos,
            last: None,
            curr: None,
            peek: f.ch,
            last_pos: 0,
            curr_pos: 0,
            peek_pos: f.start_pos,
            at: Ghost(-1),
        };
        t.bump();
        t
    }

    /// The current character.
    fn curr(&self) -> (c: Option<char>)
        requires
            self.wf(),
        ensures
            c == char_at(self.source(), self.state().at),
    {
        proof {
            reveal(Tokenizer::inv);
        }
        self.curr
    }

    /// The character behind the current one.
    fn peek(&self) -> (c: Option<char>)
        requires
            self.wf(),
        ensures
            c == char_at(self.source(), self.state().at + 1),
    {
        proof {
            reveal(Tokenizer::inv);
        }
        self.peek
    }

    /// Byte offset at which the text of the current character starts.
    fn curr_pos(&self) -> (pos: usize)
        requires
            self.wf(),
        ensures
            pos == pos_at(self.source(), self.state().at),
    {
        proof {
            reveal(Tokenizer::inv);
        }
        self.curr_pos
    }

    /// Byte offset at which the text of the next character starts.
    fn peek_pos(&self) -> (pos: usize)
        requires
            self.wf(),
        ensures
            pos == pos_at(self.source(), self.state().at + 1),
    {
        proof {
            reveal(Tokenizer::inv);
        }
        self.peek_pos
    }

    /// Moves on by one character, once the tokenizer is set up.
    fn step(&mut self)
        requires
            old(self).wf(),
        ensures
            final(self).wf(),
            final(self).follows(old(self)),
            final(self).state() == bump(old(self).source(), old(self).state()),
    {
        self.bump();
    }

    /// Moves on by two characters.
    fn dbump(&mut self)
        requires
            old(self).wf(),
        ensures
            final(self).wf(),
            final(self).follows(old(self)),
            final(self).state() == bump_n(old(self).source(), old(self).state(), 2),
    {
        proof {
            reveal_with_fuel(bump_n, 3);
        }
        self.step();
        self.step();
    }

    /// Reports an error for the bytes from `lo` up to the start of the
    /// next character.
    fn fatal_span(&mut self, lo: usize, message: String)
        requires
            old(self).wf(),
        ensures
            final(self).wf(),
            final(self).follows(old(self)),
            final(self).state() == fatal(old(self).source(), old(self).state(), lo, message@),
    {
        let span = Span { lo, hi: self.peek_pos() };
        self.report(span, message);
    }

    /// Whether the current character is whitespace.
    fn at_whitespace(&self) -> (r: bool)
        requires
            self.wf(),
        ensures
            r == match char_at(self.source(), self.state().at) {
                Some(c) => java_whitespace(c),
                None => false,
            },
    {
        match self.curr() {
            Some(c) => is_java_whitespace(c),
            None => false,
        }
    }

    /// Passes over whitespace.
    fn skip_whitespace(&mut self)
        requires
            old(self).wf(),
        ensures
            final(self).wf(),
            final(self).follows(old(self)),
            final(self).state() == skip_whitespace(old(self).source(), old(self).state()),
    {
        let ghost raw = self.source();
        let ghost goal = skip_whitespace(raw, self.state());
        let mut go = self.at_whitespace();
        while go
            invariant
                self.wf(),
                self.source() == raw,
                self.follows(old(self)),
                goal == skip_whitespace(raw, self.state()),
                go == match char_at(raw, self.state().at) {
                    Some(c) => java_whitespace(c),
                    None => false,
                },
            decreases left(raw, self.state()),
        {
            self.step();
            go = self.at_whitespace();
        }
    }

    /// Whether the inside of a block comment goes on behind the current
    /// character.
    fn in_block_comment(&self) -> (r: bool)
        requires
            self.wf(),
        ensures
            r == (char_at(self.source(), self.state().at) is Some && char_at(
                self.source(),
                self.state().at + 1,
            ) is Some && !(char_at(self.source(), self.state().at) == Some('*') && char_at(
                self.source(),
                self.state().at + 1,
            ) == Some('/'))),
    {
        match (self.curr(), self.peek()) {
            (Some(c), Some(p)) => !(c == '*' && p == '/'),
            _ => false,
        }
    }

    /// Whether a line comment goes on with the current character.
    fn in_line_comment(&self) -> (r: bool)
        requires
            self.wf(),
        ensures
            r == match char_at(self.source(), self.state().at) {
                Some(c) => c != '\n' && c != '\r',
                None => false,
            },
    {
        match self.curr() {
            Some(c) => c != '\n' && c != '\r',
            None => false,
        }
    }

    /// Passes over a comment. The current character is `/` and the next one
    /// `*` or `/`.
    fn skip_comment(&mut self)
        requires
            old(self).wf(),
            char_at(old(self).source(), old(self).state().at) == Some('/'),
        ensures
            final(self).wf(),
            final(self).follows(old(self)),
            final(self).state() == skip_comment(old(self).source(), old(self).state()),
            final(self).state().at > old(self).state().at,
    {
        let ghost raw = self.source();
        proof {
            reveal_with_fuel(bump_n, 3);
        }
        let block = match self.peek() {
            Some(p) => p == '*',
            None => false,
        };
        if block {
            let ghost goal = skip_block_comment(raw, self.state());
            let mut go = self.in_block_comment();
            while go
                invariant
                    self.wf(),
                    self.source() == raw,
                    self.follows(old(self)),
                    goal == skip_block_comment(raw, self.state()),
                    go == (char_at(raw, self.state().at) is Some && char_at(
                        raw,
                        self.state().at + 1,
                    ) is Some && !(char_at(raw, self.state().at) == Some('*') && char_at(
                        raw,
                        self.state().at + 1,
                    ) == Some('/'))),
                decreases left(raw, self.state()),
            {
                self.step();
                go = self.in_block_comment();
            }
            self.dbump();
        } else {
            let ghost goal = skip_line_comment(raw, self.state());
            self.step();
            let mut go = self.in_line_comment();
            while go
                invariant
                    self.wf(),
                    self.source() == raw,
                    self.follows(old(self)),
                    goal == skip_line_comment(raw, self.state()),
                    self.state().at > old(self).state().at,
                    go == match char_at(raw, self.state().at) {
                        Some(c) => c != '\n' && c != '\r',
                        None => false,
                    },
                decreases left(raw, self.state()),
            {
                self.step();
                go = self.in_line_comment();
            }
        }
    }

    /// The current character, if it may stand inside an identifier.
    fn ident_part(&self) -> (r: Option<char>)
        requires
            self.wf(),
        ensures
            r == match char_at(self.source(), self.state().at) {
                Some(c) if java_ident_part(c) => Some(c),
                _ => None,
            },
    {
        match self.curr() {
            Some(c) => if is_java_ident_part(c) {
                Some(c)
            } else {
                None
            },
            None => None,
        }
    }

    /// Reads a word: an identifier, a keyword or one of the literals
    /// `true`, `false` and `null`.
    fn scan_word(&mut self) -> (tok: Token)
        requires
            old(self).wf(),
        ensures
            final(self).wf(),
            final(self).follows(old(self)),
            final(self).state() == scan_word(
                old(self).source(),
                old(self).state(),
                Seq::empty(),
            ).0,
            tok@ == word_token(
                scan_word(old(self).source(), old(self).state(), Seq::empty()).1,
            ),
            match char_at(old(self).source(), old(self).state().at) {
                Some(c) => java_ident_part(c) ==> final(self).state().at > old(self).state().at,
                None => true,
            },
    {
        let ghost raw = self.source();
        let ghost goal = scan_word(raw, self.state(), Seq::empty());
        let mut w: Vec<char> = Vec::new();
        let mut next = self.ident_part();
        let ghost first = next;
        while next.is_some()
            invariant
                self.state().at > old(self).state().at || next == first,
                self.wf(),
                self.source() == raw,
                self.follows(old(self)),
                goal == scan_word(raw, self.state(), w@),
                next == match char_at(raw, self.state().at) {
                    Some(c) if java_ident_part(c) => Some(c),
                    _ => None,
                },
            decreases left(raw, self.state()),
        {
            w.push(next.unwrap());
            self.step();
            next = self.ident_part();
        }
        if text_is(&w, "true") {
            Token::Literal(Lit::Bool(true))
        } else if text_is(&w, "false") {
            Token::Literal(Lit::Bool(false))
        } else if text_is(&w, "null") {
            Token::Literal(Lit::Null)
        } else {
            match Keyword::from_chars(&w) {
                Some(k) => Token::KeyW(k),
                None => {
                    assert(w@.subrange(0, w@.len() as int) =~= w@);
                    Token::Ident(string_of(&w, 0, w.len()))
                },
            }
        }
    }

    /// The character that a backslash and `c` stand for.
    fn escape_of(c: char) -> (r: Option<char>)
        ensures
            r == escape_of(c),
    {
        if c == 'b' {
            Some('\u{8}')
        } else if c == 't' {
            Some('\t')
        } else if c == 'n' {
            Some('\n')
        } else if c == 'f' {
            Some('\u{c}')
        } else if c == 'r' {
            Some('\r')
        } else if c == '\'' || c == '"' || c == '\\' {
            Some(c)
        } else {
            None
        }
    }

    /// Reads one character inside a string or character literal, and says
    /// whether it was written with a backslash. `None` stands for the end
    /// of the source.
    fn scan_escaped_char(&mut self, lo: usize) -> (r: (Option<char>, bool))
        requires
            old(self).wf(),
        ensures
            final(self).wf(),
            final(self).follows(old(self)),
            (CharScan { state: final(self).state(), ch: r.0, escaped: r.1 }) == scan_escaped_char(
                old(self).source(),
                old(self).state(),
                lo,
            ),
            r.0 is Some ==> left(final(self).source(), final(self).state()) < left(
                old(self).source(),
                old(self).state(),
            ),
    {
        match self.curr() {
            Some(c) => {
                if c == '\\' {
                    self.step();
                    match self.curr() {
                        None => (None, true),
                        Some(e) => {
                            match Self::escape_of(e) {
                                Some(x) => {
                                    self.step();
                                    (Some(x), true)
                                },
                                None => {
                                    let mut m = "invalid escape sequence \\".to_owned();
                                    m.push(e);
                                    self.fatal_span(lo, m);
                                    self.step();
                                    (Some(e), true)
                                },
                            }
                        },
                    }
                } else {
                    self.step();
                    (Some(c), false)
                }
            },
            None => (None, false),
        }
    }

    /// Reads a string literal. The current character is its opening quote.
    fn scan_string_literal(&mut self, lo: usize) -> (text: String)
        requires
            old(self).wf(),
        ensures
            final(self).wf(),
            final(self).follows(old(self)),
            (final(self).state(), text@) == scan_string_literal(
                old(self).source(),
                old(self).state(),
                lo,
            ),
            final(self).state().at > old(self).state().at,
    {
        let ghost raw = self.source();
        let ghost goal = scan_string_literal(raw, self.state(), lo);
        self.step();
        let mut text = String::new();
        let mut done = false;
        while !done
            invariant
                self.wf(),
                self.source() == raw,
                self.follows(old(self)),
                self.state().at > old(self).state().at,
                done ==> goal == (self.state(), text@),
                !done ==> goal == scan_string_body(raw, self.state(), lo, text@),
            decreases left(raw, self.state()) + if done { 0nat } else { 1nat },
        {
            let r = self.scan_escaped_char(lo);
            match r.0 {
                None => {
                    self.fatal_span(lo, "unexpected EOF in string literal".to_owned());
                    done = true;
                },
                Some(c) => {
                    if c == '"' && !r.1 {
                        done = true;
                    } else {
                        text.push(c);
                    }
                },
            }
        }
        text
    }

    /// Reads a character literal. The current character is its opening
    /// quote. Where the literal is broken, the character is NUL.
    fn scan_char_literal(&mut self, lo: usize) -> (c: char)
        requires
            old(self).wf(),
        ensures
            final(self).wf(),
            final(self).follows(old(self)),
            (final(self).state(), c) == scan_char_literal(
                old(self).source(),
                old(self).state(),
                lo,
            ),
            final(self).state().at > old(self).state().at,
    {
        self.step();
        let r = self.scan_escaped_char(lo);
        match r.0 {
            None => {
                self.fatal_span(lo, "unexpected EOF in character literal".to_owned());
                '\0'
            },
            Some(c) => {
                if c == '\'' && !r.1 {
                    self.fatal_span(lo, "empty character literal".to_owned());
                    '\0'
                } else {
                    let closed = match self.curr() {
                        Some(q) => q == '\'',
                        None => false,
                    };
                    if closed {
                        self.step();
                        c
                    } else {
                        self.fatal_span(lo, "unclosed character literal".to_owned());
                        '\0'
                    }
                }
            },
        }
    }

    /// The text of the message for a digit that the radix does not have.
    fn invalid_digit_text(radix: u32) -> (s: String)
        ensures
            s@ == invalid_digit_message(radix),
    {
        if radix == 2 {
            "Invalid digit for base 2 literal".to_owned()
        } else {
            "Invalid digit for base 8 literal".to_owned()
        }
    }

    /// What the current character is to a run of digits in the given
    /// radix.
    fn digit_kind(&self, radix: u32) -> (r: DigitKind)
        requires
            self.wf(),
        ensures
            r == digit_kind(char_at(self.source(), self.state().at), radix),
    {
        let wide: u32 = if radix <= 10 {
            10
        } else {
            radix
        };
        match self.curr() {
            Some(c) => {
                if c == '_' {
                    DigitKind::Separator
                } else if to_digit(c, wide).is_some() {
                    if to_digit(c, radix).is_none() {
                        DigitKind::TooHigh(c)
                    } else {
                        DigitKind::Digit(c)
                    }
                } else {
                    DigitKind::Other
                }
            },
            None => DigitKind::Other,
        }
    }

    /// Reads digits behind the text `acc`. Underscores between them are
    /// passed over. A digit that the radix does not have is reported and
    /// kept.
    fn scan_digits(&mut self, radix: u32, acc: String) -> (text: String)
        requires
            old(self).wf(),
        ensures
            final(self).wf(),
            final(self).follows(old(self)),
            (final(self).state(), text@) == scan_digits(
                old(self).source(),
                old(self).state(),
                radix,
                acc@,
            ),
            match char_at(old(self).source(), old(self).state().at) {
                Some(c) => digit_of(c, scan_radix(radix)) is Some ==> final(self).state().at > old(
                    self,
                ).state().at,
                None => true,
            },
    {
        let ghost raw = self.source();
        let ghost goal = scan_digits(raw, self.state(), radix, acc@);
        let mut text = acc;
        let mut k = self.digit_kind(radix);
        let ghost first = k;
        while !matches!(k, DigitKind::Other)
            invariant
                self.state().at > old(self).state().at || k == first,
                self.wf(),
                self.source() == raw,
                self.follows(old(self)),
                goal == scan_digits(raw, self.state(), radix, text@),
                k == digit_kind(char_at(raw, self.state().at), radix),
            decreases left(raw, self.state()),
        {
            match k {
                DigitKind::TooHigh(c) => {
                    let span = Span { lo: self.curr_pos(), hi: self.peek_pos() };
                    self.report(span, Self::invalid_digit_text(radix));
                    text.push(c);
                },
                DigitKind::Digit(c) => {
                    text.push(c);
                },
                _ => {},
            }
            self.step();
            k = self.digit_kind(radix);
        }
        text
    }

    /// Reads the suffix that tells a `float` from a `double`, if there is
    /// one, and says whether it asks for a `double`.
    fn scan_double_suffix(&mut self) -> (r: Option<bool>)
        requires
            old(self).wf(),
        ensures
            final(self).wf(),
            final(self).follows(old(self)),
            (final(self).state(), r) == scan_double_suffix(old(self).source(), old(self).state()),
    {
        match self.curr() {
            Some(c) => {
                if c == 'd' || c == 'D' {
                    self.step();
                    Some(true)
                } else if c == 'f' || c == 'F' {
                    self.step();
                    Some(false)
                } else {
                    None
                }
            },
            None => None,
        }
    }

    /// Reads the exponent of a float, if the current character introduces
    /// one: its sign, if it is a minus, and its decimal digits.
    fn scan_float_exp(&mut self, hex: bool) -> (r: Option<String>)
        requires
            old(self).wf(),
        ensures
            final(self).wf(),
            final(self).follows(old(self)),
            match scan_float_exp(old(self).source(), old(self).state(), hex) {
                Some(e) => r is Some && final(self).state() == e.0 && r.unwrap()@ == e.1,
                None => r is None && final(self).state() == old(self).state(),
            },
    {
        let mark = match self.curr() {
            Some(c) => if hex {
                c == 'p' || c == 'P'
            } else {
                c == 'e' || c == 'E'
            },
            None => false,
        };
        if mark {
            self.step();
            let minus = match self.curr() {
                Some(c) => c == '-',
                None => false,
            };
            let mut sign = String::new();
            if minus {
                self.step();
                sign.push('-');
            }
            Some(self.scan_digits(10, sign))
        } else {
            None
        }
    }

    /// The text of the message for a dot in a literal that is neither
    /// decimal nor hexadecimal.
    fn float_base_text(radix: u32) -> (s: String)
        ensures
            s@ == float_base_message(radix),
    {
        if radix == 2 {
            "float literals may only be expressed in decimal or hexadecimal, not base 2".to_owned()
        } else {
            "float literals may only be expressed in decimal or hexadecimal, not base 8".to_owned()
        }
    }

    /// The text of the message for an exponent that the radix does not
    /// take.
    fn exponent_text(radix: u32) -> (s: String)
        ensures
            s@ == exponent_message(radix),
    {
        if radix == 16 {
            "invalid exponent indicator for hex float literal (use 'p' or 'P' instead)".to_owned()
        } else {
            "invalid exponent indicator for decimal float literal (use 'e' or 'E' instead)".to_owned()
        }
    }

    /// Reads the prefix and the whole part of a number literal, and gives
    /// the radix and the digits of the whole part.
    fn scan_whole(&mut self) -> (r: (u8, String))
        requires
            old(self).wf(),
        ensures
            final(self).wf(),
            final(self).follows(old(self)),
            (Whole { state: final(self).state(), radix: r.0 as u32, digits: r.1@ }) == scan_whole(
                old(self).source(),
                old(self).state(),
            ),
            r.0 == 2 || r.0 == 8 || r.0 == 10 || r.0 == 16,
            match char_at(old(self).source(), old(self).state().at) {
                Some(c) => is_ascii_digit(c) ==> final(self).state().at > old(self).state().at,
                None => true,
            },
    {
        proof {
            reveal_with_fuel(bump_n, 3);
        }
        let c = match self.curr() {
            Some(c) => c,
            None => '\0',
        };
        let p = match self.peek() {
            Some(p) => p,
            None => '\0',
        };
        if c == '0' {
            if p == 'x' || p == 'X' {
                self.dbump();
                (16, self.scan_digits(16, String::new()))
            } else if p == 'b' || p == 'B' {
                self.dbump();
                (2, self.scan_digits(2, String::new()))
            } else if '0' <= p && p <= '9' {
                self.step();
                (8, self.scan_digits(8, String::new()))
            } else {
                self.step();
                let mut zero = String::new();
                zero.push('0');
                (10, zero)
            }
        } else if c == '.' {
            (10, String::new())
        } else {
            (10, self.scan_digits(10, String::new()))
        }
    }

    /// Reads a float from its dot on, behind the whole part `whole`.
    fn scan_fraction(&mut self, lo: usize, radix: u8, whole: String) -> (lit: Lit)
        requires
            old(self).wf(),
            radix == 10 || radix == 16,
        ensures
            final(self).wf(),
            final(self).follows(old(self)),
            (final(self).state(), lit@) == scan_fraction(
                old(self).source(),
                old(self).state(),
                lo,
                radix as u32,
                whole@,
            ),
            final(self).state().at > old(self).state().at,
    {
        let hex = radix == 16;
        self.step();
        let fraction = self.scan_digits(radix as u32, String::new());
        if hex && whole.as_str().is_empty() && fraction.as_str().is_empty() {
            self.fatal_span(
                lo,
                "hex float literals need either a whole number or a fraction part".to_owned(),
            );
        }
        let exp = match self.scan_float_exp(hex) {
            Some(e) => e,
            None => String::new(),
        };
        if hex && exp.as_str().is_empty() {
            self.fatal_span(lo, "hex float literals are required to have an exponent".to_owned());
        }
        let is_double = match self.scan_double_suffix() {
            Some(d) => d,
            None => true,
        };
        let mut raw = whole;
        raw.push('.');
        raw.append(fraction.as_str());
        Lit::Float { raw, is_double, radix, exp }
    }

    /// Reads a number literal: an integer or a float. The current
    /// character is a digit, or a dot before a digit.
    fn scan_number_literal(&mut self, lo: usize) -> (lit: Lit)
        requires
            old(self).wf(),
        ensures
            final(self).wf(),
            final(self).follows(old(self)),
            (final(self).state(), lit@) == scan_number_literal(
                old(self).source(),
                old(self).state(),
                lo,
            ),
            match char_at(old(self).source(), old(self).state().at) {
                Some(c) => number_starts(c, char_at(old(self).source(), old(self).state().at + 1))
                    ==> final(self).state().at > old(self).state().at,
                None => true,
            },
    {
        let w = self.scan_whole();
        let radix = w.0;
        let whole = w.1;
        let c = match self.curr() {
            Some(c) => c,
            None => '\0',
        };
        let has_whole = !whole.as_str().is_empty();
        let float_mark = self.curr().is_some() && (c == '.' || (has_whole && (c == 'f' || c == 'F'
            || c == 'd' || c == 'D' || c == 'p' || c == 'P' || c == 'e' || c == 'E')));
        if c == 'l' || c == 'L' {
            self.step();
            Lit::Integer { raw: whole, is_long: true, radix }
        } else if float_mark && radix != 10 && radix != 16 {
            self.fatal_span(lo, Self::float_base_text(radix as u32));
            Lit::Integer { raw: whole, is_long: false, radix }
        } else if (c == 'f' || c == 'F' || c == 'd' || c == 'D') && has_whole {
            self.step();
            Lit::Float { raw: whole, is_double: c == 'd' || c == 'D', radix, exp: String::new() }
        } else if (c == 'p' || c == 'P' || c == 'e' || c == 'E') && has_whole {
            match self.scan_float_exp(radix == 16) {
                None => {
                    self.fatal_span(lo, Self::exponent_text(radix as u32));
                    Lit::Integer { raw: whole, is_long: false, radix }
                },
                Some(exp) => {
                    let is_double = match self.scan_double_suffix() {
                        Some(d) => d,
                        None => true,
                    };
                    Lit::Float { raw: whole, is_double, radix, exp }
                },
            }
        } else if c == '.' && self.curr().is_some() {
            self.scan_fraction(lo, radix, whole)
        } else {
            Lit::Integer { raw: whole, is_long: false, radix }
        }
    }

    /// Whether the current character is `c`.
    fn curr_is(&self, c: char) -> (r: bool)
        requires
            self.wf(),
        ensures
            r == (char_at(self.source(), self.state().at) == Some(c)),
    {
        match self.curr() {
            Some(x) => x == c,
            None => false,
        }
    }

    /// Whether the next character is `c`.
    fn peek_is(&self, c: char) -> (r: bool)
        requires
            self.wf(),
        ensures
            r == (char_at(self.source(), self.state().at + 1) == Some(c)),
    {
        match self.peek() {
            Some(x) => x == c,
            None => false,
        }
    }

    /// Passes over one character, or over two if the second is `second`,
    /// and gives the token for what was passed over.
    fn one_or_two(&mut self, second: char, two: Token, one: Token) -> (tok: Token)
        requires
            old(self).wf(),
        ensures
            final(self).wf(),
            final(self).follows(old(self)),
            char_at(old(self).source(), old(self).state().at + 1) == Some(second) ==> tok == two
                && final(self).state() == bump_n(old(self).source(), old(self).state(), 2),
            char_at(old(self).source(), old(self).state().at + 1) != Some(second) ==> tok == one
                && final(self).state() == bump_n(old(self).source(), old(self).state(), 1),
    {
        proof {
            reveal_with_fuel(bump_n, 3);
        }
        if self.peek_is(second) {
            self.dbump();
            two
        } else {
            self.step();
            one
        }
    }

    /// Reads the separator or operator that starts with the current
    /// character `c`, the longest there is. Where none starts with `c`,
    /// nothing is read.
    fn scan_symbol(&mut self, c: char) -> (r: Option<Token>)
        requires
            old(self).wf(),
            char_at(old(self).source(), old(self).state().at) == Some(c),
        ensures
            final(self).wf(),
            final(self).follows(old(self)),
            match symbol(
                c,
                char_at(old(self).source(), old(self).state().at + 1),
                char_at(old(self).source(), old(self).state().at + 2),
                char_at(old(self).source(), old(self).state().at + 3),
            ) {
                Some(sym) => r is Some && r.unwrap()@ == sym.0 && final(self).state() == bump_n(
                    old(self).source(),
                    old(self).state(),
                    sym.1,
                ),
                None => r is None && final(self).state() == old(self).state(),
            },
    {
        proof {
            reveal_with_fuel(bump_n, 5);
        }
        if c == '(' {
            self.step();
            Some(Token::ParenOp)
        } else if c == ')' {
            self.step();
            Some(Token::ParenCl)
        } else if c == '{' {
            self.step();
            Some(Token::BraceOp)
        } else if c == '}' {
            self.step();
            Some(Token::BraceCl)
        } else if c == '[' {
            self.step();
            Some(Token::BracketOp)
        } else if c == ']' {
            self.step();
            Some(Token::BracketCl)
        } else if c == ';' {
            self.step();
            Some(Token::Semi)
        } else if c == ',' {
            self.step();
            Some(Token::Comma)
        } else if c == '@' {
            self.step();
            Some(Token::At)
        } else if c == '~' {
            self.step();
            Some(Token::Tilde)
        } else if c == '?' {
            self.step();
            Some(Token::Question)
        } else if c == '.' {
            let second = self.peek_is('.');
            self.step();
            if second && self.peek_is('.') {
                self.dbump();
                Some(Token::DotDotDot)
            } else {
                Some(Token::Dot)
            }
        } else if c == ':' {
            Some(self.one_or_two(':', Token::ColonSep, Token::Colon))
        } else if c == '=' {
            Some(self.one_or_two('=', Token::EqEq, Token::Eq))
        } else if c == '>' {
            if self.peek_is('>') {
                self.dbump();
                if self.curr_is('>') {
                    self.step();
                    if self.curr_is('=') {
                        self.step();
                        Some(Token::ShrUnEq)
                    } else {
                        Some(Token::ShrUn)
                    }
                } else if self.curr_is('=') {
                    self.step();
                    Some(Token::ShrEq)
                } else {
                    Some(Token::Shr)
                }
            } else {
                Some(self.one_or_two('=', Token::Ge, Token::Gt))
            }
        } else if c == '<' {
            if self.peek_is('<') {
                self.dbump();
                if self.curr_is('=') {
                    self.step();
                    Some(Token::ShlEq)
                } else {
                    Some(Token::Shl)
                }
            } else {
                Some(self.one_or_two('=', Token::Le, Token::Lt))
            }
        } else if c == '!' {
            Some(self.one_or_two('=', Token::Ne, Token::Bang))
        } else if c == '+' {
            if self.peek_is('=') {
                self.dbump();
                Some(Token::PlusEq)
            } else {
                Some(self.one_or_two('+', Token::PlusPlus, Token::Plus))
            }
        } else if c == '-' {
            if self.peek_is('=') {
                self.dbump();
                Some(Token::MinusEq)
            } else if self.peek_is('>') {
                self.dbump();
                Some(Token::Arrow)
            } else {
                Some(self.one_or_two('-', Token::MinusMinus, Token::Minus))
            }
        } else if c == '&' {
            if self.peek_is('=') {
                self.dbump();
                Some(Token::AndEq)
            } else {
                Some(self.one_or_two('&', Token::AndAnd, Token::And))
            }
        } else if c == '|' {
            if self.peek_is('=') {
                self.dbump();
                Some(Token::OrEq)
            } else {
                Some(self.one_or_two('|', Token::OrOr, Token::Or))
            }
        } else if c == '*' {
            Some(self.one_or_two('=', Token::StarEq, Token::Star))
        } else if c == '/' {
            Some(self.one_or_two('=', Token::SlashEq, Token::Slash))
        } else if c == '^' {
            Some(self.one_or_two('=', Token::CaretEq, Token::Caret))
        } else if c == '%' {
            Some(self.one_or_two('=', Token::PercentEq, Token::Percent))
        } else {
            None
        }
    }

    /// Reads the token that starts with the current character `c`.
    fn scan_token(&mut self, c: char) -> (r: Option<Token>)
        requires
            old(self).wf(),
            char_at(old(self).source(), old(self).state().at) == Some(c),
        ensures
            final(self).wf(),
            final(self).follows(old(self)),
            final(self).state() == scan_token(old(self).source(), old(self).state(), c).0,
            match scan_token(old(self).source(), old(self).state(), c).1 {
                Some(tok) => r is Some && r.unwrap()@ == tok && final(self).state().at > old(
                    self,
                ).state().at,
                None => r is None,
            },
    {
        let lo = self.curr_pos();
        let p = match self.peek() {
            Some(p) => p,
            None => '\0',
        };
        proof {
            reveal_with_fuel(bump_n, 5);
        }
        if is_java_whitespace(c) {
            self.step();
            self.skip_whitespace();
            Some(Token::Whitespace)
        } else if c == '/' && (p == '/' || p == '*') {
            self.skip_comment();
            Some(Token::Comment)
        } else if ('0' <= c && c <= '9') || (c == '.' && '0' <= p && p <= '9') {
            let lit = self.scan_number_literal(lo);
            Some(Token::Literal(lit))
        } else if c == '"' {
            let text = self.scan_string_literal(lo);
            Some(Token::Literal(Lit::Str(text)))
        } else if c == '\'' {
            let ch = self.scan_char_literal(lo);
            Some(Token::Literal(Lit::Char(ch)))
        } else {
            match self.scan_symbol(c) {
                Some(tok) => Some(tok),
                None => {
                    if is_java_ident_start(c) {
                        Some(self.scan_word())
                    } else {
                        self.fatal_span(lo, "illegal character in this context".to_owned());
                        None
                    }
                },
            }
        }
    }

    /// The next token with its span; `None` at the end of the source and
    /// before a character that can start no token, which is reported.
    ///
    /// The span starts with the first byte of the token, which is where the
    /// tokenizer stood, and ends just behind its last byte, which is where
    /// the tokenizer stands then: the next token starts where this one
    /// ends.
    pub fn next(&mut self) -> (r: Option<TokenSpan>)
        requires
            old(self).wf(),
        ensures
            final(self).wf(),
            final(self).follows(old(self)),
            final(self).state() == next_token(old(self).source(), old(self).state()).0,
            match next_token(old(self).source(), old(self).state()).1 {
                Some(t) => r is Some && r.unwrap()@ == t,
                None => r is None,
            },
            final(self).lines() == lines_upto(final(self).source(), final(self).state().at),
            old(self).at_end() ==> r is None && final(self).lines().len() - 1 == line_breaks(
                decoded_text(final(self).source()),
            ),
            r matches Some(t) ==> {
                &&& t.span.lo == old(self).position()
                &&& t.span.hi == final(self).position()
                &&& t.span.lo < t.span.hi <= byte_len(final(self).source())
                &&& final(self).state().at > old(self).state().at
            },
            old(self).position() <= final(self).position(),
    {
        let lo = self.curr_pos();
        let ghost raw = self.source();
        let ghost at = self.state().at;
        match self.curr() {
            None => {
                proof {
                    self.lemma_lines();
                    lemma_all_lines_found(raw, self.state());
                }
                None
            },
            Some(c) => {
                let found = self.scan_token(c);
                proof {
                    self.lemma_lines();
                    lemma_pos_monotone(raw, at, self.state().at);
                    lemma_units(raw);
                }
                match found {
                    None => None,
                    Some(tok) => {
                        Some(TokenSpan { tok, span: Span { lo, hi: self.curr_pos() } })
                    },
                }
            },
        }
    }

    /// The next token that is neither whitespace nor a comment.
    pub fn next_real(&mut self) -> (r: Option<TokenSpan>)
        requires
            old(self).wf(),
        ensures
            final(self).wf(),
            final(self).follows(old(self)),
            final(self).state() == next_real_token(old(self).source(), old(self).state()).0,
            match next_real_token(old(self).source(), old(self).state()).1 {
                Some(t) => r is Some && r.unwrap()@ == t && t.tok.is_real(),
                None => r is None,
            },
            r matches Some(t) ==> old(self).position() <= t.span.lo < final(self).position(),
            old(self).position() <= final(self).position(),
    {
        let ghost raw = self.source();
        let ghost goal = next_real_token(raw, self.state());
        let mut r = self.next();
        let mut trivia = match &r {
            Some(t) => !t.tok.is_real(),
            None => false,
        };
        while trivia
            invariant
                self.wf(),
                self.source() == raw,
                self.follows(old(self)),
                old(self).position() <= self.position(),
                r matches Some(t) ==> old(self).position() <= t.span.lo < self.position(),
                trivia ==> goal == next_real_token(raw, self.state()),
                !trivia ==> goal.0 == self.state() && match goal.1 {
                    Some(t) => r is Some && r.unwrap()@ == t && t.tok.is_real(),
                    None => r is None,
                },
            decreases left(raw, self.state()) + if trivia { 1nat } else { 0nat },
        {
            r = self.next();
            trivia = match &r {
                Some(t) => !t.tok.is_real(),
                None => false,
            };
        }
        r
    }

    /// Whether the end of the source is reached.
    pub fn is_at_end(&self) -> (r: bool)
        requires
            self.wf(),
        ensures
            r == self.at_end(),
    {
        self.curr().is_none()
    }

    /// The reports made so far.
    pub fn diagnostics(&self) -> (d: &Vec<Report>)
        ensures
            reports_view(d@) == self.state().diags,
    {
        &self.diags
    }

    /// The source and the line starts recorded so far.
    pub fn filemap(&self) -> (fmap: &FileMap)
        requires
            self.wf(),
        ensures
            fmap.wf(),
            fmap.text() == self.source(),
            fmap.name() == self.name(),
            fmap.line_starts() == self.lines(),
    {
        proof {
            reveal(Tokenizer::inv);
        }
        &self.fmap
    }

    /// Ends the reading: the source with its line starts, and the reports.
    pub fn finish(self) -> (r: (FileMap, Vec<Report>))
        requires
            self.wf(),
        ensures
            r.0.wf(),
            r.0.text() == self.source(),
            r.0.name() == self.name(),
            r.0.line_starts() == self.lines(),
            reports_view(r.1@) == self.state().diags,
    {
        proof {
            reveal(Tokenizer::inv);
        }
        (self.fmap, self.diags)
    }
}

impl Token {
    /// The token that `text` is: the one that a tokenizer reads from it, if
    /// that token ends where the text ends.
    pub fn from_lexeme(text: &str) -> (r: Option<Token>)
        ensures
            match from_lexeme(text@) {
                Some(t) => r is Some && r.unwrap()@ == t,
                None => r is None,
            },
    {
        let fmap = FileMap::new(String::new(), text.to_owned());
        let mut toks = Tokenizer::new(fmap);
        match toks.next() {
            Some(ts) => if toks.curr().is_none() {
                Some(ts.tok)
            } else {
                None
            },
            None => None,
        }
    }
}

} // verus!
