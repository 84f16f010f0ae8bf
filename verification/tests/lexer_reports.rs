use jswag::diagnostics::{Report, Severity};
use jswag::filemap::{FileMap, Span};
use jswag::syntax::lex::Tokenizer;
use jswag::syntax::token::{Keyword, Lit, Token, TokenSpan};

fn lex(src: &str) -> (Vec<TokenSpan>, Vec<Report>, FileMap) {
    let fmap = FileMap::new("<unit-test>".into(), src.into());
    let mut toks = Tokenizer::new(fmap);
    let mut out = Vec::new();
    while let Some(ts) = toks.next() {
        out.push(ts);
    }
    let (fmap, reports) = toks.finish();
    (out, reports, fmap)
}

fn kinds(src: &str) -> Vec<Token> {
    lex(src).0.into_iter().map(|ts| ts.tok).collect()
}

fn integer(raw: &str, radix: u8) -> Token {
    Token::Literal(Lit::Integer { raw: raw.into(), is_long: false, radix })
}

fn floating(raw: &str, radix: u8, exp: &str) -> Token {
    Token::Literal(Lit::Float { raw: raw.into(), is_double: true, radix, exp: exp.into() })
}

fn error(r: &Report, message: &str, lo: usize, hi: usize) {
    assert_eq!(r.severity, Severity::Error);
    assert_eq!(r.message, message);
    assert_eq!(r.span, Span { lo, hi });
    assert!(r.remarks.is_empty());
}

#[test]
fn escape_with_too_few_digits_is_reported() {
    let (toks, reports, _) = lex(r"z\u00z");
    assert_eq!(toks.len(), 1);
    assert_eq!(toks[0].tok, Token::Ident("zz".into()));
    assert_eq!(reports.len(), 1);
    error(&reports[0], "Invalid unicode escape (less than 4 digits)", 1, 5);
}

#[test]
fn escape_of_a_surrogate_is_reported() {
    let (toks, reports, _) = lex(r"z\udecez");
    assert_eq!(toks.len(), 1);
    assert_eq!(toks[0].tok, Token::Ident("zz".into()));
    assert_eq!(reports.len(), 1);
    error(&reports[0], "Invalid unicode escape (not a valid unicode scalar value)", 1, 7);
}

#[test]
fn escape_at_the_end_of_the_source() {
    let (toks, reports, _) = lex(r"a\u12");
    assert_eq!(toks.len(), 1);
    assert_eq!(toks[0].tok, Token::Ident("a".into()));
    // the rejected escape belongs to the token before it
    assert_eq!(toks[0].span, Span { lo: 0, hi: 5 });
    assert_eq!(reports.len(), 1);
    error(&reports[0], "Invalid unicode escape (less than 4 digits)", 1, 5);
}

#[test]
fn good_escapes_are_not_reported() {
    let (toks, reports, _) = lex(r"z\u0078z \uuu0041");
    assert!(reports.is_empty());
    assert_eq!(toks.len(), 3);
    assert_eq!(toks[0], TokenSpan { tok: Token::Ident("zxz".into()), span: Span { lo: 0, hi: 8 } });
    assert_eq!(toks[1], TokenSpan { tok: Token::Whitespace, span: Span { lo: 8, hi: 9 } });
    assert_eq!(toks[2], TokenSpan { tok: Token::Ident("A".into()), span: Span { lo: 9, hi: 17 } });
}

#[test]
fn escape_may_spell_an_operator() {
    // the escapes spell `==`
    assert_eq!(kinds(r"a \u003d\u003d b"), vec![
        Token::Ident("a".into()),
        Token::Whitespace,
        Token::EqEq,
        Token::Whitespace,
        Token::Ident("b".into()),
    ]);
}

#[test]
fn backslash_behind_backslash_starts_no_escape() {
    let (toks, reports, _) = lex(r#""\\u0041""#);
    assert!(reports.is_empty());
    assert_eq!(toks.len(), 1);
    assert_eq!(toks[0].tok, Token::Literal(Lit::Str("\\u0041".into())));
}

#[test]
fn spans_count_bytes() {
    let (toks, reports, _) = lex("é = 'ß';");
    assert!(reports.is_empty());
    assert_eq!(toks[0], TokenSpan { tok: Token::Ident("é".into()), span: Span { lo: 0, hi: 2 } });
    assert_eq!(toks[2], TokenSpan { tok: Token::Eq, span: Span { lo: 3, hi: 4 } });
    assert_eq!(toks[4], TokenSpan {
        tok: Token::Literal(Lit::Char('ß')),
        span: Span { lo: 5, hi: 9 },
    });
    assert_eq!(toks[5], TokenSpan { tok: Token::Semi, span: Span { lo: 9, hi: 10 } });
}

#[test]
fn tokens_lie_side_by_side() {
    let src = "class A{int x=0x1f;//c\n\"s\" 'c' ...}";
    let (toks, reports, _) = lex(src);
    assert!(reports.is_empty());
    assert_eq!(toks[0].span.lo, 0);
    for pair in toks.windows(2) {
        assert!(pair[0].span.lo < pair[0].span.hi);
        assert_eq!(pair[0].span.hi, pair[1].span.lo);
    }
    assert_eq!(toks.last().unwrap().span.hi, src.len());
}

#[test]
fn identifiers_of_other_scripts() {
    assert_eq!(kinds("größe $x _y £"), vec![
        Token::Ident("größe".into()),
        Token::Whitespace,
        Token::Ident("$x".into()),
        Token::Whitespace,
        Token::Ident("_y".into()),
        Token::Whitespace,
        Token::Ident("£".into()),
    ]);
    // a digit of another script may stand in an identifier, not start one
    assert_eq!(kinds("a٣"), vec![Token::Ident("a٣".into())]);
    let (toks, reports, _) = lex("٣");
    assert!(toks.is_empty());
    assert_eq!(reports.len(), 1);
}

#[test]
fn keywords_and_words() {
    assert_eq!(kinds("public classes class"), vec![
        Token::KeyW(Keyword::Public),
        Token::Whitespace,
        Token::Ident("classes".into()),
        Token::Whitespace,
        Token::KeyW(Keyword::Class),
    ]);
    assert_eq!(kinds("nULL"), vec![Token::Ident("nULL".into())]);
}

#[test]
fn comments() {
    assert_eq!(kinds("a//b c\nd"), vec![
        Token::Ident("a".into()),
        Token::Comment,
        Token::Whitespace,
        Token::Ident("d".into()),
    ]);
    assert_eq!(kinds("a/* b\n * c */d"), vec![
        Token::Ident("a".into()),
        Token::Comment,
        Token::Ident("d".into()),
    ]);
    assert_eq!(kinds("/*/ a"), vec![Token::Comment, Token::Whitespace, Token::Ident("a".into())]);
    assert_eq!(kinds("a / b /= c"), vec![
        Token::Ident("a".into()),
        Token::Whitespace,
        Token::Slash,
        Token::Whitespace,
        Token::Ident("b".into()),
        Token::Whitespace,
        Token::SlashEq,
        Token::Whitespace,
        Token::Ident("c".into()),
    ]);
}

#[test]
fn comment_without_end() {
    let (toks, reports, _) = lex("a /* b");
    assert!(reports.is_empty());
    assert_eq!(toks.len(), 3);
    assert_eq!(toks[2], TokenSpan { tok: Token::Comment, span: Span { lo: 2, hi: 6 } });
}

#[test]
fn illegal_character() {
    let (toks, reports, _) = lex("a #b");
    assert_eq!(toks.len(), 2);
    assert_eq!(reports.len(), 1);
    error(&reports[0], "illegal character in this context", 2, 3);
}

#[test]
fn illegal_character_is_reported_at_each_call() {
    let fmap = FileMap::new("<unit-test>".into(), "#".into());
    let mut toks = Tokenizer::new(fmap);
    assert!(toks.next().is_none());
    assert!(toks.next_real().is_none());
    assert_eq!(toks.diagnostics().len(), 2);
    assert!(!toks.is_at_end());
}

#[test]
fn next_real_passes_over_trivia() {
    let fmap = FileMap::new("<unit-test>".into(), " /* c */ a // d\n b".into());
    let mut toks = Tokenizer::new(fmap);
    assert_eq!(toks.next_real().unwrap(), TokenSpan {
        tok: Token::Ident("a".into()),
        span: Span { lo: 9, hi: 10 },
    });
    assert!(!toks.is_at_end());
    assert_eq!(toks.next_real().unwrap().tok, Token::Ident("b".into()));
    assert!(toks.is_at_end());
    assert!(toks.next_real().is_none());
    assert!(toks.is_at_end());
    assert!(toks.next_real().is_none());
    assert!(toks.diagnostics().is_empty());
    assert_eq!(toks.filemap().num_lines(), 1);
}

#[test]
fn string_without_end() {
    let (toks, reports, _) = lex("\"abc");
    assert_eq!(toks.len(), 1);
    assert_eq!(toks[0].tok, Token::Literal(Lit::Str("abc".into())));
    assert_eq!(reports.len(), 1);
    error(&reports[0], "unexpected EOF in string literal", 0, 4);
}

#[test]
fn string_that_ends_in_a_backslash() {
    let (toks, reports, _) = lex("\"ab\\");
    assert_eq!(toks[0].tok, Token::Literal(Lit::Str("ab".into())));
    assert_eq!(reports.len(), 1);
    error(&reports[0], "unexpected EOF in string literal", 0, 4);
}

#[test]
fn unknown_escape_in_a_string() {
    let (toks, reports, _) = lex(r#""a\qb""#);
    assert_eq!(toks.len(), 1);
    assert_eq!(toks[0].tok, Token::Literal(Lit::Str("aqb".into())));
    assert_eq!(reports.len(), 1);
    error(&reports[0], "invalid escape sequence \\q", 0, 4);
}

#[test]
fn broken_character_literals() {
    let (toks, reports, _) = lex("''");
    assert_eq!(toks[0].tok, Token::Literal(Lit::Char('\0')));
    assert_eq!(reports.len(), 1);
    error(&reports[0], "empty character literal", 0, 2);

    let (toks, reports, _) = lex("'ab'");
    assert_eq!(toks[0].tok, Token::Literal(Lit::Char('\0')));
    assert_eq!(toks[1].tok, Token::Ident("b".into()));
    assert_eq!(reports[0].message, "unclosed character literal");

    let (toks, reports, _) = lex("'");
    assert_eq!(toks[0].tok, Token::Literal(Lit::Char('\0')));
    assert_eq!(reports.len(), 1);
    error(&reports[0], "unexpected EOF in character literal", 0, 1);
}

#[test]
fn escaped_quote_in_a_string() {
    let (toks, reports, _) = lex(r#""hi \" bla""#);
    assert!(reports.is_empty());
    assert_eq!(toks.len(), 1);
    assert_eq!(toks[0], TokenSpan {
        tok: Token::Literal(Lit::Str("hi \" bla".into())),
        span: Span { lo: 0, hi: 11 },
    });
}

#[test]
fn hex_float_with_suffix() {
    let (toks, reports, _) = lex("0x3.1p4f");
    assert!(reports.is_empty());
    assert_eq!(toks.len(), 1);
    assert_eq!(toks[0], TokenSpan {
        tok: Token::Literal(Lit::Float {
            raw: "3.1".into(),
            is_double: false,
            radix: 16,
            exp: "4".into(),
        }),
        span: Span { lo: 0, hi: 8 },
    });
}

#[test]
fn digits_too_high_for_the_radix() {
    let (toks, reports, _) = lex("0192");
    assert_eq!(toks.len(), 1);
    assert_eq!(toks[0].tok, integer("192", 8));
    assert_eq!(reports.len(), 1);
    error(&reports[0], "Invalid digit for base 8 literal", 2, 3);

    let (toks, reports, _) = lex("0b1021");
    assert_eq!(toks[0].tok, integer("1021", 2));
    assert_eq!(reports.len(), 1);
    error(&reports[0], "Invalid digit for base 2 literal", 4, 5);
}

#[test]
fn underscores_between_digits() {
    assert_eq!(kinds("1_000_000"), vec![integer("1000000", 10)]);
    assert_eq!(kinds("0x_ff__ffL"), vec![Token::Literal(Lit::Integer {
        raw: "ffff".into(),
        is_long: true,
        radix: 16,
    })]);
}

#[test]
fn floats_in_other_bases() {
    let (toks, reports, _) = lex("0b1.1");
    assert_eq!(toks[0].tok, integer("1", 2));
    assert_eq!(
        reports[0].message,
        "float literals may only be expressed in decimal or hexadecimal, not base 2"
    );
    assert_eq!(reports[0].span, Span { lo: 0, hi: 4 });

    let (toks, reports, _) = lex("017.5");
    assert_eq!(toks[0].tok, integer("17", 8));
    assert_eq!(
        reports[0].message,
        "float literals may only be expressed in decimal or hexadecimal, not base 8"
    );
}

#[test]
fn hex_floats_need_digits_and_an_exponent() {
    let (toks, reports, _) = lex("0x1.8");
    assert_eq!(toks.len(), 1);
    assert_eq!(toks[0].tok, floating("1.8", 16, ""));
    assert_eq!(reports.len(), 1);
    error(&reports[0], "hex float literals are required to have an exponent", 0, 5);

    let (toks, reports, _) = lex("0x.p-1");
    assert_eq!(toks[0].tok, floating(".", 16, "-1"));
    assert_eq!(reports.len(), 1);
    error(
        &reports[0],
        "hex float literals need either a whole number or a fraction part",
        0,
        4,
    );
}

#[test]
fn wrong_exponent_mark() {
    let (toks, reports, _) = lex("1pq");
    assert_eq!(toks[0].tok, integer("1", 10));
    assert_eq!(toks[1].tok, Token::Ident("pq".into()));
    assert_eq!(reports.len(), 1);
    error(
        &reports[0],
        "invalid exponent indicator for decimal float literal (use 'e' or 'E' instead)",
        0,
        2,
    );
}

#[test]
fn dots() {
    assert_eq!(kinds(".."), vec![Token::Dot, Token::Dot]);
    assert_eq!(kinds("...."), vec![Token::DotDotDot, Token::Dot]);
    assert_eq!(kinds("a.b"), vec![
        Token::Ident("a".into()),
        Token::Dot,
        Token::Ident("b".into()),
    ]);
    assert_eq!(kinds(".5."), vec![floating(".5", 10, ""), Token::Dot]);
    assert_eq!(kinds("5..2"), vec![floating("5.", 10, ""), floating(".2", 10, "")]);
}

#[test]
fn substitute_character_at_the_end_is_dropped() {
    let (toks, reports, _) = lex("a \u{1a}");
    assert!(reports.is_empty());
    assert_eq!(toks.len(), 2);
    assert_eq!(toks[1], TokenSpan { tok: Token::Whitespace, span: Span { lo: 1, hi: 2 } });
    // elsewhere it may stand inside an identifier
    assert_eq!(kinds("a\u{1a}b"), vec![Token::Ident("a\u{1a}b".into())]);
}

#[test]
fn lines_are_counted() {
    let (_, _, fmap) = lex("a\nb\r\nc\rd");
    assert_eq!(fmap.num_lines(), 3);
    assert_eq!(fmap.get_loc(0).line, 0);
    assert_eq!(fmap.get_loc(2).line, 1);
    assert_eq!(fmap.get_loc(5).line, 2);
    assert_eq!(fmap.get_loc(7).line, 3);
    assert_eq!(fmap.get_loc(7).col, 0);
    assert_eq!(fmap.get_line(0), "a");
    assert_eq!(fmap.get_line(1), "b\r");
    assert_eq!(fmap.get_line(3), "d");

    let (_, _, fmap) = lex("no line break");
    assert_eq!(fmap.num_lines(), 0);
    let (_, _, fmap) = lex("\n\n\n");
    assert_eq!(fmap.num_lines(), 3);
    let (_, _, fmap) = lex("");
    assert_eq!(fmap.num_lines(), 0);
}

#[test]
fn line_breaks_in_comments_and_strings_count() {
    let (_, _, fmap) = lex("/* a\n b */ \"c\nd\" // e\n");
    assert_eq!(fmap.num_lines(), 3);
}

#[test]
fn escaped_line_feed_ends_a_line() {
    let (toks, _, fmap) = lex(r"a\u000ab");
    assert_eq!(fmap.num_lines(), 1);
    assert_eq!(toks.len(), 3);
    assert_eq!(fmap.get_loc(7), jswag::filemap::Loc { line: 1, col: 0 });
}

#[test]
fn every_symbol_is_read_back_from_its_text() {
    let all = vec![
        Token::ParenOp, Token::ParenCl, Token::BraceOp, Token::BraceCl, Token::BracketOp,
        Token::BracketCl, Token::Semi, Token::Comma, Token::Dot, Token::DotDotDot, Token::At,
        Token::ColonSep, Token::Eq, Token::Gt, Token::Lt, Token::Bang, Token::Tilde,
        Token::Question, Token::Colon, Token::Arrow, Token::EqEq, Token::Ge, Token::Le,
        Token::Ne, Token::AndAnd, Token::OrOr, Token::PlusPlus, Token::MinusMinus, Token::Plus,
        Token::Minus, Token::Star, Token::Slash, Token::And, Token::Or, Token::Caret,
        Token::Percent, Token::Shl, Token::Shr, Token::ShrUn, Token::PlusEq, Token::MinusEq,
        Token::StarEq, Token::SlashEq, Token::AndEq, Token::OrEq, Token::CaretEq,
        Token::PercentEq, Token::ShlEq, Token::ShrEq, Token::ShrUnEq,
    ];
    assert_eq!(all.len(), 50);
    for t in all {
        assert_eq!(Token::from_lexeme(t.as_java_string()), Some(t.clone()));
        assert!(t.is_real());
    }
}

#[test]
fn every_keyword_is_read_back_from_its_text() {
    let all = vec![
        Keyword::Public, Keyword::Protected, Keyword::Private, Keyword::Abstract,
        Keyword::Static, Keyword::Final, Keyword::Synchronized, Keyword::Native,
        Keyword::Strictfp, Keyword::Transient, Keyword::Volatile, Keyword::Class,
        Keyword::Import, Keyword::Do, Keyword::While, Keyword::For, Keyword::If, Keyword::Else,
    ];
    for k in all {
        assert_eq!(Keyword::from_str(&k.as_java_string().to_string()), Some(k));
        assert_eq!(Token::from_lexeme(k.as_java_string()), Some(Token::KeyW(k)));
    }
    assert_eq!(Keyword::from_str(&"true".to_string()), None);
    assert_eq!(Keyword::from_str(&"Public".to_string()), None);
    assert_eq!(Keyword::from_str(&"".to_string()), None);
}

#[test]
fn from_lexeme_wants_one_token() {
    assert_eq!(Token::from_lexeme(""), None);
    assert_eq!(Token::from_lexeme("+ "), None);
    assert_eq!(Token::from_lexeme("a b"), None);
    assert_eq!(Token::from_lexeme("#"), None);
    assert_eq!(Token::from_lexeme("abc"), Some(Token::Ident("abc".into())));
    assert_eq!(Token::from_lexeme("true"), Some(Token::Literal(Lit::Bool(true))));
    assert_eq!(Token::from_lexeme(" "), Some(Token::Whitespace));
}

#[test]
fn names_of_tokens_in_messages() {
    assert_eq!(Token::Whitespace.as_java_string(), "whitespace");
    assert_eq!(Token::Comment.as_java_string(), "comment");
    assert_eq!(Token::Ident("x".into()).as_java_string(), "identifier");
    assert_eq!(Token::Literal(Lit::Null).as_java_string(), "literal");
    assert_eq!(Token::KeyW(Keyword::Strictfp).as_java_string(), "strictfp");
    assert_eq!(Token::ShrUnEq.as_java_string(), ">>>=");
    assert!(!Token::Whitespace.is_real());
    assert!(!Token::Comment.is_real());
    assert!(Token::Ident("x".into()).is_real());
}

#[test]
fn same_tokens() {
    assert!(Token::Semi.is_same(&Token::Semi));
    assert!(!Token::Semi.is_same(&Token::Comma));
    assert!(Token::KeyW(Keyword::If).is_same(&Token::KeyW(Keyword::If)));
    assert!(!Token::KeyW(Keyword::If).is_same(&Token::KeyW(Keyword::Else)));
    assert!(!Token::Ident("a".into()).is_same(&Token::Ident("a".into())));
    assert!(!Token::Whitespace.is_same(&Token::Whitespace));
}

#[test]
fn tokens_cover_a_source_with_wide_characters() {
    let src = "größe = \"€\"; // 𝄞\n";
    let (toks, reports, _) = lex(src);
    assert!(reports.is_empty());
    assert_eq!(toks[0].span.lo, 0);
    for pair in toks.windows(2) {
        assert_eq!(pair[0].span.hi, pair[1].span.lo);
    }
    assert_eq!(toks.last().unwrap().span.hi, src.len());
    assert_eq!(&src[toks[0].span.lo..toks[0].span.hi], "größe");
    assert_eq!(&src[toks[4].span.lo..toks[4].span.hi], "\"€\"");
}

#[test]
fn the_text_in_a_span_is_the_lexeme() {
    let src = "class A{x>>>=0x1f;}";
    let (toks, _, _) = lex(src);
    let texts: Vec<&str> = toks.iter().map(|t| &src[t.span.lo..t.span.hi]).collect();
    assert_eq!(texts, vec!["class", " ", "A", "{", "x", ">>>=", "0x1f", ";", "}"]);
    for t in &toks {
        if !matches!(t.tok, Token::Ident(_) | Token::Literal(_) | Token::Whitespace) {
            assert_eq!(t.tok.as_java_string(), &src[t.span.lo..t.span.hi]);
        }
    }
}

#[test]
fn a_line_starts_behind_the_whole_terminator() {
    let (toks, _, fmap) = lex("abc \r\n xyz");
    assert_eq!(toks[1].span, Span { lo: 3, hi: 7 });
    assert_eq!(fmap.num_lines(), 1);
    assert_eq!(fmap.get_loc(5).line, 0);
    assert_eq!(fmap.get_loc(6), jswag::filemap::Loc { line: 1, col: 0 });
    assert_eq!(fmap.get_line(1), " xyz");
    assert_eq!(fmap.get_line(0), "abc \r");

    let (_, _, fmap) = lex("a\rb\n\rc\r\n\r\n");
    // the starts are behind: CR, LF, CR, CR LF, CR LF
    assert_eq!(fmap.num_lines(), 5);
    for (line, start) in [0usize, 2, 4, 5, 8, 10].iter().enumerate() {
        assert_eq!(fmap.get_loc(*start), jswag::filemap::Loc { line, col: 0 });
    }
    let (_, _, fmap) = lex("a\r");
    assert_eq!(fmap.num_lines(), 1);
}

#[test]
fn floats_are_decimal_or_hexadecimal() {
    for (src, digits, radix, rest) in [
        ("012f", "12", 8u8, "f"),
        ("0b1f", "1", 2, "f"),
        ("012e3", "12", 8, "e3"),
        ("0b1d", "1", 2, "d"),
        ("017D", "17", 8, "D"),
        ("0b1pq", "1", 2, "pq"),
    ] {
        let (toks, reports, _) = lex(src);
        assert_eq!(toks.len(), 2);
        assert_eq!(toks[0].tok, integer(digits, radix));
        assert_eq!(toks[1].tok, Token::Ident(rest.into()));
        assert_eq!(reports.len(), 1);
        assert_eq!(
            reports[0].message,
            format!(
                "float literals may only be expressed in decimal or hexadecimal, not base {}",
                radix
            )
        );
        assert_eq!(reports[0].span.lo, 0);
    }
    // in radix 10 and 16 they are floats
    assert_eq!(kinds("12f"), vec![Token::Literal(Lit::Float {
        raw: "12".into(),
        is_double: false,
        radix: 10,
        exp: "".into(),
    })]);
    assert_eq!(kinds("12e3"), vec![floating("12", 10, "3")]);
    assert_eq!(kinds("0x1p3"), vec![floating("1", 16, "3")]);
    // and an integer in radix 8 or 2 stays one
    assert_eq!(kinds("012L"), vec![Token::Literal(Lit::Integer {
        raw: "12".into(),
        is_long: true,
        radix: 8,
    })]);
    assert_eq!(kinds("0b11"), vec![integer("11", 2)]);
}

#[test]
fn symbols_with_spaces_between_them_are_read_back() {
    let tokens = vec![
        Token::KeyW(Keyword::Public),
        Token::KeyW(Keyword::Class),
        Token::BraceOp,
        Token::Plus,
        Token::Plus,
        Token::PlusPlus,
        Token::Gt,
        Token::Shr,
        Token::ShrUnEq,
        Token::Dot,
        Token::Dot,
        Token::DotDotDot,
        Token::Slash,
        Token::Slash,
        Token::Star,
        Token::Minus,
        Token::Gt,
        Token::Arrow,
        Token::KeyW(Keyword::Do),
        Token::BraceCl,
    ];
    let texts: Vec<&str> = tokens.iter().map(|t| t.as_java_string()).collect();
    let src = texts.join(" ");
    let (read, reports, _) = lex(&src);
    assert!(reports.is_empty());
    let real: Vec<Token> = read.into_iter().map(|t| t.tok).filter(|t| t.is_real()).collect();
    assert_eq!(real, tokens);
    // without the spaces the texts run together
    assert_eq!(kinds("++"), vec![Token::PlusPlus]);
    assert_eq!(kinds("+ +"), vec![Token::Plus, Token::Whitespace, Token::Plus]);
}
