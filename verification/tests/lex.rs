use jswag::filemap::{FileMap, Span};
use jswag::syntax::lex::Tokenizer;
use jswag::syntax::token::Token::{
    And, AndAnd, AndEq, Arrow, At, Bang, BraceCl, BraceOp, BracketCl, BracketOp, Caret, CaretEq,
    Colon, ColonSep, Comma, Dot, DotDotDot, EqEq, Ge, Gt, Ident, Le, Literal, Lt, Minus,
    MinusEq, MinusMinus, Ne, Or, OrEq, OrOr, ParenCl, ParenOp, Percent, PercentEq, Plus, PlusEq,
    PlusPlus, Question, Semi, Shl, ShlEq, Shr, ShrEq, ShrUn, ShrUnEq, Slash, SlashEq, Star,
    StarEq, Tilde, Whitespace,
};
use jswag::syntax::token::{Lit, Token, TokenSpan};

fn spans(src: &str) -> Vec<TokenSpan> {
    let fmap = FileMap::new("<unit-test>".into(), src.into());
    let mut toks = Tokenizer::new(fmap);
    let mut out = Vec::new();
    while let Some(ts) = toks.next() {
        out.push(ts);
    }
    out
}

fn toks(src: &str) -> Vec<Token> {
    spans(src).into_iter().map(|ts| ts.tok).collect()
}

fn reals(src: &str) -> Vec<Token> {
    toks(src).into_iter().filter(|t| t.is_real()).collect()
}

#[test]
fn empty() {
    assert_eq!(toks(""), Vec::<Token>::new());
}

#[test]
fn idents() {
    assert_eq!(toks("foo"), vec![Ident("foo".into())]);
    assert_eq!(toks("foo bar"), vec![
        Ident("foo".into()),
        Whitespace,
        Ident("bar".into())
    ]);
    assert_eq!(toks("1bla"), vec![
        Literal(Lit::Integer { raw: "1".into(), is_long: false, radix: 10 }),
        Ident("bla".into())
    ]);
    assert_eq!(toks("b1la"), vec![Ident("b1la".into())]);

}

#[test]
fn ops() {
    // all separators and operators
    assert_eq!(reals("(   )   {   }   [   ]   ;   ,   .   ...   @   ::"), vec![
        ParenOp, ParenCl, BraceOp, BraceCl, BracketOp, BracketCl,
        Semi, Comma, Dot, DotDotDot, At, ColonSep
    ]);
    assert_eq!(reals("=   >   <   !   ~   ?   :   ->"), vec![
        Token::Eq, Gt, Lt, Bang, Tilde, Question, Colon, Arrow
    ]);
    assert_eq!(reals("==  >=  <=  !=  &&  ||  ++  --"), vec![
        EqEq, Ge, Le, Ne, AndAnd, OrOr, PlusPlus, MinusMinus
    ]);
    assert_eq!(reals("+   -   *   /   &   |   ^   %   <<   >>   >>>"), vec![
        Plus, Minus, Star, Slash, And, Or, Caret, Percent, Shl, Shr, ShrUn
    ]);
    assert_eq!(reals("+=  -=  *=  /=  &=  |=  ^=  %=  <<=  >>=  >>>="), vec![
        PlusEq, MinusEq, StarEq, SlashEq, AndEq, OrEq, CaretEq, PercentEq,
        ShlEq, ShrEq, ShrUnEq
    ]);

    // multi char op stress test
    assert_eq!(reals(">>>>>>=>> >>=> >="), vec![ShrUn, ShrUnEq, Shr, ShrEq, Gt, Ge]);
    assert_eq!(reals("<< <<=< <="), vec![Shl, ShlEq, Lt, Le]);
}

#[test]
fn easy_literals() {
    assert_eq!(reals("true false null"), vec![
        Literal(Lit::Bool(true)), Literal(Lit::Bool(false)), Literal(Lit::Null)
    ]);
    assert_eq!(reals("truefalse null"), vec![Ident("truefalse".into()), Literal(Lit::Null)]);
}

#[test]
fn int_literals() {
    assert_eq!(toks("123"), vec![
        Literal(Lit::Integer { raw: "123".into(), is_long: false, radix: 10 })
    ]);
    assert_eq!(toks("123l"), vec![
        Literal(Lit::Integer { raw: "123".into(), is_long: true, radix: 10 })
    ]);
    assert_eq!(toks("0123"), vec![
        Literal(Lit::Integer { raw: "123".into(), is_long: false, radix: 8 })
    ]);
    assert_eq!(toks("0x1fa3l"), vec![
        Literal(Lit::Integer { raw: "1fa3".into(), is_long: true, radix: 16 })
    ]);
    assert_eq!(toks("0x1f"), vec![
        Literal(Lit::Integer { raw: "1f".into(), is_long: false, radix: 16 })
    ]);
    assert_eq!(toks("0b101l"), vec![
        Literal(Lit::Integer { raw: "101".into(), is_long: true, radix: 2 })
    ]);
    assert_eq!(toks("0l"), vec![
        Literal(Lit::Integer { raw: "0".into(), is_long: true, radix: 10 })
    ]);
}

#[test]
fn float_literals() {
    // type 1:  Digits . [Digits] [ExponentPart] [FloatTypeSuffix]
    assert_eq!(toks("3."), vec![Literal(Lit::Float {   // digit dot
        raw: "3.".into(),
        is_double: true,
        radix: 10,
        exp: "".into()
    })]);
    assert_eq!(toks("3.14"), vec![Literal(Lit::Float { // digit dot digit
        raw: "3.14".into(),
        is_double: true,
        radix: 10,
        exp: "".into()
    })]);
    assert_eq!(toks("3.e2"), vec![Literal(Lit::Float { // digit dot exp
        raw: "3.".into(),
        is_double: true,
        radix: 10,
        exp: "2".into()
    })]);
    assert_eq!(toks("3.f"), vec![Literal(Lit::Float {  // digit dot suffix
        raw: "3.".into(),
        is_double: false,
        radix: 10,
        exp: "".into()
    })]);
    assert_eq!(toks("3.14e-3"), vec![Literal(Lit::Float {   // digit dot digit exp
        raw: "3.14".into(),
        is_double: true,
        radix: 10,
        exp: "-3".into()
    })]);
    assert_eq!(toks("3.14f"), vec![Literal(Lit::Float {    // digit dot digit suffix
        raw: "3.14".into(),
        is_double: false,
        radix: 10,
        exp: "".into()
    })]);
    assert_eq!(toks("3.e3f"), vec![Literal(Lit::Float {    // digit dot exp suffix
        raw: "3.".into(),
        is_double: false,
        radix: 10,
        exp: "3".into()
    })]);
    assert_eq!(toks("3.14e-3f"), vec![Literal(Lit::Float {  // digit dot digit exp suffix
        raw: "3.14".into(),
        is_double: false,
        radix: 10,
        exp: "-3".into()
    })]);

    // type 2: . Digits [ExponentPart] [FloatTypeSuffix]
    assert_eq!(toks(".14"), vec![Literal(Lit::Float {
        raw: ".14".into(),
        is_double: true,
        radix: 10,
        exp: "".into()
    })]);
    assert_eq!(toks(".14e-3"), vec![Literal(Lit::Float {
        raw: ".14".into(),
        is_double: true,
        radix: 10,
        exp: "-3".into()
    })]);
    assert_eq!(toks(".14f"), vec![Literal(Lit::Float {
        raw: ".14".into(),
        is_double: false,
        radix: 10,
        exp: "".into()
    })]);
    assert_eq!(toks(".14e3f"), vec![Literal(Lit::Float {
        raw: ".14".into(),
        is_double: false,
        radix: 10,
        exp: "3".into()
    })]);

    // type 3:  Digits ExponentPart [FloatTypeSuffix]
    // type 4: Digits [ExponentPart] FloatTypeSuffix
    assert_eq!(toks("3e-3"), vec![Literal(Lit::Float {
        raw: "3".into(),
        is_double: true,
        radix: 10,
        exp: "-3".into()
    })]);
    assert_eq!(toks("3f"), vec![Literal(Lit::Float {
        raw: "3".into(),
        is_double: false,
        radix: 10,
        exp: "".into()
    })]);
    assert_eq!(toks("3e3f"), vec![Literal(Lit::Float {
        raw: "3".into(),
        is_double: false,
        radix: 10,
        exp: "3".into()
    })]);


    // floating point literals
    assert_eq!(toks("0x3p4"), vec![Literal(Lit::Float {
        raw: "3".into(),
        is_double: true,
        radix: 16,
        exp: "4".into()
    })]);
    assert_eq!(toks("0x3p4_4f"), vec![Literal(Lit::Float {
        raw: "3".into(),
        is_double: false,
        radix: 16,
        exp: "44".into()
    })]);

    assert_eq!(toks("0x3.p4"), vec![Literal(Lit::Float {
        raw: "3.".into(),
        is_double: true,
        radix: 16,
        exp: "4".into()
    })]);
    assert_eq!(toks("0x378.p4f"), vec![Literal(Lit::Float {
        raw: "378.".into(),
        is_double: false,
        radix: 16,
        exp: "4".into()
    })]);

    assert_eq!(toks("0x3.1_55p43"), vec![Literal(Lit::Float {
        raw: "3.155".into(),
        is_double: true,
        radix: 16,
        exp: "43".into()
    })]);
    assert_eq!(toks("0x3.1p4f"), vec![Literal(Lit::Float {
        raw: "3.1".into(),
        is_double: false,
        radix: 16,
        exp: "4".into()
    })]);

    assert_eq!(toks("0x.11p4"), vec![Literal(Lit::Float {
        raw: ".11".into(),
        is_double: true,
        radix: 16,
        exp: "4".into()
    })]);
    assert_eq!(toks("0x.1p44f"), vec![Literal(Lit::Float {
        raw: ".1".into(),
        is_double: false,
        radix: 16,
        exp: "44".into()
    })]);
}

#[test]
fn string_literals() {
    assert_eq!(toks(r#""hi""#), vec![Literal(Lit::Str("hi".into()))]);
    assert_eq!(toks(r#""hi \" bla""#), vec![Literal(Lit::Str("hi \" bla".into()))]);
    assert_eq!(toks(r#""\b \t \n \f \r \" \' \\""#), vec![Literal(Lit::Str(
        "\u{0008} \t \n \u{000c} \r \" \' \\".into()
    ))]);
    assert_eq!(toks(r#""\nn""#), vec![Literal(Lit::Str("\nn".into()))]);
    assert_eq!(reals(r#""a" "b""#), vec![
        Literal(Lit::Str("a".into())), Literal(Lit::Str("b".into()))
    ]);

    assert_eq!(toks(r"'a'"), vec![Literal(Lit::Char('a'))]);
    assert_eq!(reals(r#"'\b' '\t' '\n' '\f' '\r' '\"' '\'' '\\'"#), vec![
        Literal(Lit::Char('\u{0008}')),
        Literal(Lit::Char('\t')),
        Literal(Lit::Char('\n')),
        Literal(Lit::Char('\u{000c}')),
        Literal(Lit::Char('\r')),
        Literal(Lit::Char('"')),
        Literal(Lit::Char('\'')),
        Literal(Lit::Char('\\'))
    ]);
    assert_eq!(reals(r"'a' 'b'"), vec![Literal(Lit::Char('a')), Literal(Lit::Char('b'))]);
}

#[test]
fn unicode_escapes() {
    // correct
    assert_eq!(spans(r"z\u0078z"), vec![
        TokenSpan {
            tok: Ident("zxz".into()),
            span: Span { lo: 0, hi: 8 }
        }
    ]);
    // too few hex digits
    assert_eq!(spans(r"z\u00z"), vec![
        TokenSpan {
            tok: Ident("zz".into()),
            span: Span { lo: 0, hi: 6 }
        }
    ]);
    // value is not a valid unicode scalar
    assert_eq!(spans(r"z\udecez"), vec![
        TokenSpan {
            tok: Ident("zz".into()),
            span: Span { lo: 0, hi: 8 }
        }
    ]);
    // correct with multiple 'u's
    assert_eq!(spans(r"z\uuuu0078z"), vec![
        TokenSpan {
            tok: Ident("zxz".into()),
            span: Span { lo: 0, hi: 11 }
        }
    ]);
}

#[test]
fn new_lines() {
    assert_eq!(spans("abc \n xyz"), vec![
        TokenSpan {
            tok: Ident("abc".into()),
            span: Span { lo: 0, hi: 3 }
        },
        TokenSpan {
            tok: Whitespace,
            span: Span { lo: 3, hi: 6 }
        },
        TokenSpan {
            tok: Ident("xyz".into()),
            span: Span { lo: 6, hi: 9 }
        }
    ]);

    assert_eq!(spans("abc \r\n xyz"), vec![
        TokenSpan {
            tok: Ident("abc".into()),
            span: Span { lo: 0, hi: 3 }
        },
        TokenSpan {
            tok: Whitespace,
            span: Span { lo: 3, hi: 7 }
        },
        TokenSpan {
            tok: Ident("xyz".into()),
            span: Span { lo: 7, hi: 10 }
        }
    ]);
}

#[test]
fn basic_spans() {
    assert_eq!(spans("abc xyz"), vec![
        TokenSpan {
            tok: Ident("abc".into()),
            span: Span { lo: 0, hi: 3 }
        },
        TokenSpan {
            tok: Whitespace,
            span: Span { lo: 3, hi: 4 }
        },
        TokenSpan {
            tok: Ident("xyz".into()),
            span: Span { lo: 4, hi: 7 }
        }
    ]);

    assert_eq!(spans(".xxxx=="), vec![
        TokenSpan {
            tok: Dot,
            span: Span { lo: 0, hi: 1 }
        },
        TokenSpan {
            tok: Ident("xxxx".into()),
            span: Span { lo: 1, hi: 5 }
        },
        TokenSpan {
            tok: EqEq,
            span: Span { lo: 5, hi: 7 }
        }
    ]);

    assert_eq!(spans("     !"), vec![
        TokenSpan {
            tok: Whitespace,
            span: Span { lo: 0, hi: 5 }
        },
        TokenSpan {
            tok: Bang,
            span: Span { lo: 5, hi: 6 }
        }
    ]);
}
