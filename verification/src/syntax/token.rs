//! Tokens of the Java language: trivia, words, literals, separators and
//! operators.

use vstd::prelude::*;
use crate::filemap::Span;
use crate::text::{chars_of, text_is};

verus! {

/// The words that the language reserves.
#[derive(Debug, Clone, Copy, PartialEq, Eq, Hash, Structural)]
pub enum Keyword {
    Public,
    Protected,
    Private,
    Abstract,
    Static,
    Final,
    Synchronized,
    Native,
    Strictfp,
    Transient,
    Volatile,
    Class,
    Import,
    Do,
    While,
    For,
    If,
    Else,
}

impl Keyword {
    /// The word as it is written in a Java source.
    pub open spec fn java_text(self) -> Seq<char> {
        match self {
            Keyword::Public => "public"@,
            Keyword::Protected => "protected"@,
            Keyword::Private => "private"@,
            Keyword::Abstract => "abstract"@,
            Keyword::Static => "static"@,
            Keyword::Final => "final"@,
            Keyword::Synchronized => "synchronized"@,
            Keyword::Native => "native"@,
            Keyword::Strictfp => "strictfp"@,
            Keyword::Transient => "transient"@,
            Keyword::Volatile => "volatile"@,
            Keyword::Class => "class"@,
            Keyword::Import => "import"@,
            Keyword::Do => "do"@,
            Keyword::While => "while"@,
            Keyword::For => "for"@,
            Keyword::If => "if"@,
            Keyword::Else => "else"@,
        }
    }

    /// The keyword that is written `s`, if there is one.
    pub open spec fn lookup(s: Seq<char>) -> Option<Keyword> {
        if s == "public"@ {
            Some(Keyword::Public)
        } else if s == "protected"@ {
            Some(Keyword::Protected)
        } else if s == "private"@ {
            Some(Keyword::Private)
        } else if s == "abstract"@ {
            Some(Keyword::Abstract)
        } else if s == "static"@ {
            Some(Keyword::Static)
        } else if s == "final"@ {
            Some(Keyword::Final)
        } else if s == "synchronized"@ {
            Some(Keyword::Synchronized)
        } else if s == "native"@ {
            Some(Keyword::Native)
        } else if s == "strictfp"@ {
            Some(Keyword::Strictfp)
        } else if s == "transient"@ {
            Some(Keyword::Transient)
        } else if s == "volatile"@ {
            Some(Keyword::Volatile)
        } else if s == "class"@ {
            Some(Keyword::Class)
        } else if s == "import"@ {
            Some(Keyword::Import)
        } else if s == "do"@ {
            Some(Keyword::Do)
        } else if s == "while"@ {
            Some(Keyword::While)
        } else if s == "for"@ {
            Some(Keyword::For)
        } else if s == "if"@ {
            Some(Keyword::If)
        } else if s == "else"@ {
            Some(Keyword::Else)
        } else {
            None
        }
    }

    /// The word as it is written in a Java source.
    pub fn as_java_string(&self) -> (s: &'static str)
        ensures
            s@ == self.java_text(),
    {
        match self {
            Keyword::Public => "public",
            Keyword::Protected => "protected",
            Keyword::Private => "private",
            Keyword::Abstract => "abstract",
            Keyword::Static => "static",
            Keyword::Final => "final",
            Keyword::Synchronized => "synchronized",
            Keyword::Native => "native",
            Keyword::Strictfp => "strictfp",
            Keyword::Transient => "transient",
            Keyword::Volatile => "volatile",
            Keyword::Class => "class",
            Keyword::Import => "import",
            Keyword::Do => "do",
            Keyword::While => "while",
            Keyword::For => "for",
            Keyword::If => "if",
            Keyword::Else => "else",
        }
    }

    /// The keyword that is written with the characters `w`, if there is one.
    pub fn from_chars(w: &Vec<char>) -> (r: Option<Keyword>)
        ensures
            r == Keyword::lookup(w@),
    {
        if text_is(w, "public") {
            Some(Keyword::Public)
        } else if text_is(w, "protected") {
            Some(Keyword::Protected)
        } else if text_is(w, "private") {
            Some(Keyword::Private)
        } else if text_is(w, "abstract") {
            Some(Keyword::Abstract)
        } else if text_is(w, "static") {
            Some(Keyword::Static)
        } else if text_is(w, "final") {
            Some(Keyword::Final)
        } else if text_is(w, "synchronized") {
            Some(Keyword::Synchronized)
        } else if text_is(w, "native") {
            Some(Keyword::Native)
        } else if text_is(w, "strictfp") {
            Some(Keyword::Strictfp)
        } else if text_is(w, "transient") {
            Some(Keyword::Transient)
        } else if text_is(w, "volatile") {
            Some(Keyword::Volatile)
        } else if text_is(w, "class") {
            Some(Keyword::Class)
        } else if text_is(w, "import") {
            Some(Keyword::Import)
        } else if text_is(w, "do") {
            Some(Keyword::Do)
        } else if text_is(w, "while") {
            Some(Keyword::While)
        } else if text_is(w, "for") {
            Some(Keyword::For)
        } else if text_is(w, "if") {
            Some(Keyword::If)
        } else if text_is(w, "else") {
            Some(Keyword::Else)
        } else {
            None
        }
    }

    /// The keyword that is written `s`, if there is one.
    pub fn from_str(s: &String) -> (r: Option<Keyword>)
        ensures
            r == Keyword::lookup(s@),
    {
        let w = chars_of(s.as_str());
        Keyword::from_chars(&w)
    }
}

/// Reveals what each keyword's text holds.
pub proof fn lemma_keyword_texts()
    ensures
        "public"@ == seq!['p', 'u', 'b', 'l', 'i', 'c'],
        "protected"@ == seq!['p', 'r', 'o', 't', 'e', 'c', 't', 'e', 'd'],
        "private"@ == seq!['p', 'r', 'i', 'v', 'a', 't', 'e'],
        "abstract"@ == seq!['a', 'b', 's', 't', 'r', 'a', 'c', 't'],
        "static"@ == seq!['s', 't', 'a', 't', 'i', 'c'],
        "final"@ == seq!['f', 'i', 'n', 'a', 'l'],
        "synchronized"@ == seq!['s', 'y', 'n', 'c', 'h', 'r', 'o', 'n', 'i', 'z', 'e', 'd'],
        "native"@ == seq!['n', 'a', 't', 'i', 'v', 'e'],
        "strictfp"@ == seq!['s', 't', 'r', 'i', 'c', 't', 'f', 'p'],
        "transient"@ == seq!['t', 'r', 'a', 'n', 's', 'i', 'e', 'n', 't'],
        "volatile"@ == seq!['v', 'o', 'l', 'a', 't', 'i', 'l', 'e'],
        "class"@ == seq!['c', 'l', 'a', 's', 's'],
        "import"@ == seq!['i', 'm', 'p', 'o', 'r', 't'],
        "do"@ == seq!['d', 'o'],
        "while"@ == seq!['w', 'h', 'i', 'l', 'e'],
        "for"@ == seq!['f', 'o', 'r'],
        "if"@ == seq!['i', 'f'],
        "else"@ == seq!['e', 'l', 's', 'e'],
 {
    reveal_strlit("public");
    reveal_strlit("protected");
    reveal_strlit("private");
    reveal_strlit("abstract");
    reveal_strlit("static");
    reveal_strlit("final");
    reveal_strlit("synchronized");
    reveal_strlit("native");
    reveal_strlit("strictfp");
    reveal_strlit("transient");
    reveal_strlit("volatile");
    reveal_strlit("class");
    reveal_strlit("import");
    reveal_strlit("do");
    reveal_strlit("while");
    reveal_strlit("for");
    reveal_strlit("if");
    reveal_strlit("else");
    assert("public"@ =~= seq!['p', 'u', 'b', 'l', 'i', 'c']);
    assert("protected"@ =~= seq!['p', 'r', 'o', 't', 'e', 'c', 't', 'e', 'd']);
    assert("private"@ =~= seq!['p', 'r', 'i', 'v', 'a', 't', 'e']);
    assert("abstract"@ =~= seq!['a', 'b', 's', 't', 'r', 'a', 'c', 't']);
    assert("static"@ =~= seq!['s', 't', 'a', 't', 'i', 'c']);
    assert("final"@ =~= seq!['f', 'i', 'n', 'a', 'l']);
    assert("synchronized"@ =~= seq!['s', 'y', 'n', 'c', 'h', 'r', 'o', 'n', 'i', 'z', 'e', 'd']);
    assert("native"@ =~= seq!['n', 'a', 't', 'i', 'v', 'e']);
    assert("strictfp"@ =~= seq!['s', 't', 'r', 'i', 'c', 't', 'f', 'p']);
    assert("transient"@ =~= seq!['t', 'r', 'a', 'n', 's', 'i', 'e', 'n', 't']);
    assert("volatile"@ =~= seq!['v', 'o', 'l', 'a', 't', 'i', 'l', 'e']);
    assert("class"@ =~= seq!['c', 'l', 'a', 's', 's']);
    assert("import"@ =~= seq!['i', 'm', 'p', 'o', 'r', 't']);
    assert("do"@ =~= seq!['d', 'o']);
    assert("while"@ =~= seq!['w', 'h', 'i', 'l', 'e']);
    assert("for"@ =~= seq!['f', 'o', 'r']);
    assert("if"@ =~= seq!['i', 'f']);
    assert("else"@ =~= seq!['e', 'l', 's', 'e']);
}

/// Looking up the text of a keyword gives that keyword back, and a text
/// names a keyword only if it is the text of that keyword.
pub proof fn lemma_keyword_round_trip(k: Keyword)
    ensures
        Keyword::lookup(k.java_text()) == Some(k),
        forall|s: Seq<char>| Keyword::lookup(s) == Some(k) ==> s == k.java_text(),
{
    lemma_keyword_texts();
}

/// A literal, with its text decoded.
#[derive(Debug, Clone, PartialEq, Eq)]
pub enum Lit {
    /// A string literal, escapes resolved.
    Str(String),
    /// A character literal, escapes resolved.
    Char(char),
    Bool(bool),
    Null,
    /// The digits without prefix, suffix and underscores.
    Integer { raw: String, is_long: bool, radix: u8 },
    /// Whole part, dot and fraction without prefix and underscores; the
    /// exponent with its sign, without the letter.
    Float { raw: String, is_double: bool, radix: u8, exp: String },
}

/// The mathematical value of a `Lit`.
pub enum LitView {
    Str(Seq<char>),
    Char(char),
    Bool(bool),
    Null,
    Integer { raw: Seq<char>, is_long: bool, radix: u8 },
    Float { raw: Seq<char>, is_double: bool, radix: u8, exp: Seq<char> },
}

impl View for Lit {
    type V = LitView;

    open spec fn view(&self) -> LitView {
        match *self {
            Lit::Str(s) => LitView::Str(s@),
            Lit::Char(c) => LitView::Char(c),
            Lit::Bool(b) => LitView::Bool(b),
            Lit::Null => LitView::Null,
            Lit::Integer { raw, is_long, radix } => LitView::Integer { raw: raw@, is_long, radix },
            Lit::Float { raw, is_double, radix, exp } => LitView::Float {
                raw: raw@,
                is_double,
                radix,
                exp: exp@,
            },
        }
    }
}

/// A Java token. Whitespace and comments are tokens too, though not real
/// ones.
#[derive(Debug, Clone, PartialEq, Eq)]
pub enum Token {
    Whitespace,
    Comment,
    Ident(String),
    KeyW(Keyword),
    Literal(Lit),
    // Separators: (  )  {  }  [  ]  ;  ,  .  ...  @  ::
    ParenOp,
    ParenCl,
    BraceOp,
    BraceCl,
    BracketOp,
    BracketCl,
    Semi,
    Comma,
    Dot,
    DotDotDot,
    At,
    ColonSep,
    // Operators: =  >  <  !  ~  ?  :  ->  ==  >=  <=  !=  &&  ||  ++  --  +  -  *  /  &  |  ^  %  <<  >>  >>>  +=  -=  *=  /=  &=  |=  ^=  %=  <<=  >>=  >>>=
    Eq,
    Gt,
    Lt,
    Bang,
    Tilde,
    Question,
    Colon,
    Arrow,
    EqEq,
    Ge,
    Le,
    Ne,
    AndAnd,
    OrOr,
    PlusPlus,
    MinusMinus,
    Plus,
    Minus,
    Star,
    Slash,
    And,
    Or,
    Caret,
    Percent,
    Shl,
    Shr,
    ShrUn,
    PlusEq,
    MinusEq,
    StarEq,
    SlashEq,
    AndEq,
    OrEq,
    CaretEq,
    PercentEq,
    ShlEq,
    ShrEq,
    ShrUnEq,
}

/// The mathematical value of a `Token`.
pub enum TokenView {
    Whitespace,
    Comment,
    Ident(Seq<char>),
    KeyW(Keyword),
    Literal(LitView),
    ParenOp,
    ParenCl,
    BraceOp,
    BraceCl,
    BracketOp,
    BracketCl,
    Semi,
    Comma,
    Dot,
    DotDotDot,
    At,
    ColonSep,
    Eq,
    Gt,
    Lt,
    Bang,
    Tilde,
    Question,
    Colon,
    Arrow,
    EqEq,
    Ge,
    Le,
    Ne,
    AndAnd,
    OrOr,
    PlusPlus,
    MinusMinus,
    Plus,
    Minus,
    Star,
    Slash,
    And,
    Or,
    Caret,
    Percent,
    Shl,
    Shr,
    ShrUn,
    PlusEq,
    MinusEq,
    StarEq,
    SlashEq,
    AndEq,
    OrEq,
    CaretEq,
    PercentEq,
    ShlEq,
    ShrEq,
    ShrUnEq,
}

impl View for Token {
    type V = TokenView;

    open spec fn view(&self) -> TokenView {
        match *self {
            Token::Whitespace => TokenView::Whitespace,
            Token::Comment => TokenView::Comment,
            Token::Ident(s) => TokenView::Ident(s@),
            Token::KeyW(k) => TokenView::KeyW(k),
            Token::Literal(l) => TokenView::Literal(l@),
            Token::ParenOp => TokenView::ParenOp,
            Token::ParenCl => TokenView::ParenCl,
            Token::BraceOp => TokenView::BraceOp,
            Token::BraceCl => TokenView::BraceCl,
            Token::BracketOp => TokenView::BracketOp,
            Token::BracketCl => TokenView::BracketCl,
            Token::Semi => TokenView::Semi,
            Token::Comma => TokenView::Comma,
            Token::Dot => TokenView::Dot,
            Token::DotDotDot => TokenView::DotDotDot,
            Token::At => TokenView::At,
            Token::ColonSep => TokenView::ColonSep,
            Token::Eq => TokenView::Eq,
            Token::Gt => TokenView::Gt,
            Token::Lt => TokenView::Lt,
            Token::Bang => TokenView::Bang,
            Token::Tilde => TokenView::Tilde,
            Token::Question => TokenView::Question,
            Token::Colon => TokenView::Colon,
            Token::Arrow => TokenView::Arrow,
            Token::EqEq => TokenView::EqEq,
            Token::Ge => TokenView::Ge,
            Token::Le => TokenView::Le,
            Token::Ne => TokenView::Ne,
            Token::AndAnd => TokenView::AndAnd,
            Token::OrOr => TokenView::OrOr,
            Token::PlusPlus => TokenView::PlusPlus,
            Token::MinusMinus => TokenView::MinusMinus,
            Token::Plus => TokenView::Plus,
            Token::Minus => TokenView::Minus,
            Token::Star => TokenView::Star,
            Token::Slash => TokenView::Slash,
            Token::And => TokenView::And,
            Token::Or => TokenView::Or,
            Token::Caret => TokenView::Caret,
            Token::Percent => TokenView::Percent,
            Token::Shl => TokenView::Shl,
            Token::Shr => TokenView::Shr,
            Token::ShrUn => TokenView::ShrUn,
            Token::PlusEq => TokenView::PlusEq,
            Token::MinusEq => TokenView::MinusEq,
            Token::StarEq => TokenView::StarEq,
            Token::SlashEq => TokenView::SlashEq,
            Token::AndEq => TokenView::AndEq,
            Token::OrEq => TokenView::OrEq,
            Token::CaretEq => TokenView::CaretEq,
            Token::PercentEq => TokenView::PercentEq,
            Token::ShlEq => TokenView::ShlEq,
            Token::ShrEq => TokenView::ShrEq,
            Token::ShrUnEq => TokenView::ShrUnEq,
        }
    }
}

impl TokenView {
    /// Whether the token is anything but whitespace or a comment.
    pub open spec fn is_real(self) -> bool {
        !(self is Whitespace || self is Comment)
    }

    /// Whether the token carries a text or a value of its own.
    pub open spec fn has_payload(self) -> bool {
        self is Ident || self is Literal
    }

    /// How the token is shown in messages: a separator, an operator or a
    /// keyword as it is written, anything else by the name of its kind.
    pub open spec fn java_text(self) -> Seq<char> {
        match self {
            TokenView::Whitespace => "whitespace"@,
            TokenView::Comment => "comment"@,
            TokenView::Ident(_) => "identifier"@,
            TokenView::KeyW(k) => k.java_text(),
            TokenView::Literal(_) => "literal"@,
            TokenView::ParenOp => "("@,
            TokenView::ParenCl => ")"@,
            TokenView::BraceOp => "{"@,
            TokenView::BraceCl => "}"@,
            TokenView::BracketOp => "["@,
            TokenView::BracketCl => "]"@,
            TokenView::Semi => ";"@,
            TokenView::Comma => ","@,
            TokenView::Dot => "."@,
            TokenView::DotDotDot => "..."@,
            TokenView::At => "@"@,
            TokenView::ColonSep => "::"@,
            TokenView::Eq => "="@,
            TokenView::Gt => ">"@,
            TokenView::Lt => "<"@,
            TokenView::Bang => "!"@,
            TokenView::Tilde => "~"@,
            TokenView::Question => "?"@,
            TokenView::Colon => ":"@,
            TokenView::Arrow => "->"@,
            TokenView::EqEq => "=="@,
            TokenView::Ge => ">="@,
            TokenView::Le => "<="@,
            TokenView::Ne => "!="@,
            TokenView::AndAnd => "&&"@,
            TokenView::OrOr => "||"@,
            TokenView::PlusPlus => "++"@,
            TokenView::MinusMinus => "--"@,
            TokenView::Plus => "+"@,
            TokenView::Minus => "-"@,
            TokenView::Star => "*"@,
            TokenView::Slash => "/"@,
            TokenView::And => "&"@,
            TokenView::Or => "|"@,
            TokenView::Caret => "^"@,
            TokenView::Percent => "%"@,
            TokenView::Shl => "<<"@,
            TokenView::Shr => ">>"@,
            TokenView::ShrUn => ">>>"@,
            TokenView::PlusEq => "+="@,
            TokenView::MinusEq => "-="@,
            TokenView::StarEq => "*="@,
            TokenView::SlashEq => "/="@,
            TokenView::AndEq => "&="@,
            TokenView::OrEq => "|="@,
            TokenView::CaretEq => "^="@,
            TokenView::PercentEq => "%="@,
            TokenView::ShlEq => "<<="@,
            TokenView::ShrEq => ">>="@,
            TokenView::ShrUnEq => ">>>="@,
        }
    }
}

impl Token {
    /// Whether the token is anything but whitespace or a comment.
    pub fn is_real(&self) -> (r: bool)
        ensures
            r == self@.is_real(),
    {
        match *self {
            Token::Whitespace | Token::Comment => false,
            _ => true,
        }
    }

    /// How the token is shown in messages: a separator, an operator or a
    /// keyword as it is written, anything else by the name of its kind.
    pub fn as_java_string(&self) -> (s: &'static str)
        ensures
            s@ == self@.java_text(),
    {
        match self {
            Token::Whitespace => "whitespace",
            Token::Comment => "comment",
            Token::Ident(_) => "identifier",
            Token::KeyW(k) => k.as_java_string(),
            Token::Literal(_) => "literal",
            Token::ParenOp => "(",
            Token::ParenCl => ")",
            Token::BraceOp => "{",
            Token::BraceCl => "}",
            Token::BracketOp => "[",
            Token::BracketCl => "]",
            Token::Semi => ";",
            Token::Comma => ",",
            Token::Dot => ".",
            Token::DotDotDot => "...",
            Token::At => "@",
            Token::ColonSep => "::",
            Token::Eq => "=",
            Token::Gt => ">",
            Token::Lt => "<",
            Token::Bang => "!",
            Token::Tilde => "~",
            Token::Question => "?",
            Token::Colon => ":",
            Token::Arrow => "->",
            Token::EqEq => "==",
            Token::Ge => ">=",
            Token::Le => "<=",
            Token::Ne => "!=",
            Token::AndAnd => "&&",
            Token::OrOr => "||",
            Token::PlusPlus => "++",
            Token::MinusMinus => "--",
            Token::Plus => "+",
            Token::Minus => "-",
            Token::Star => "*",
            Token::Slash => "/",
            Token::And => "&",
            Token::Or => "|",
            Token::Caret => "^",
            Token::Percent => "%",
            Token::Shl => "<<",
            Token::Shr => ">>",
            Token::ShrUn => ">>>",
            Token::PlusEq => "+=",
            Token::MinusEq => "-=",
            Token::StarEq => "*=",
            Token::SlashEq => "/=",
            Token::AndEq => "&=",
            Token::OrEq => "|=",
            Token::CaretEq => "^=",
            Token::PercentEq => "%=",
            Token::ShlEq => "<<=",
            Token::ShrEq => ">>=",
            Token::ShrUnEq => ">>>=",
        }
    }

    /// Whether the token is the separator, operator or keyword `other`.
    /// A token with a payload is the same as no other.
    pub fn is_same(&self, other: &Token) -> (r: bool)
        ensures
            r == (self@ == other@ && !self@.has_payload() && !(self@ is Whitespace)
                && !(self@ is Comment)),
    {
        match (self, other) {
            (Token::KeyW(a), Token::KeyW(b)) => *a == *b,
            (Token::ParenOp, Token::ParenOp) => true,
            (Token::ParenCl, Token::ParenCl) => true,
            (Token::BraceOp, Token::BraceOp) => true,
            (Token::BraceCl, Token::BraceCl) => true,
            (Token::BracketOp, Token::BracketOp) => true,
            (Token::BracketCl, Token::BracketCl) => true,
            (Token::Semi, Token::Semi) => true,
            (Token::Comma, Token::Comma) => true,
            (Token::Dot, Token::Dot) => true,
            (Token::DotDotDot, Token::DotDotDot) => true,
            (Token::At, Token::At) => true,
            (Token::ColonSep, Token::ColonSep) => true,
            (Token::Eq, Token::Eq) => true,
            (Token::Gt, Token::Gt) => true,
            (Token::Lt, Token::Lt) => true,
            (Token::Bang, Token::Bang) => true,
            (Token::Tilde, Token::Tilde) => true,
            (Token::Question, Token::Question) => true,
            (Token::Colon, Token::Colon) => true,
            (Token::Arrow, Token::Arrow) => true,
            (Token::EqEq, Token::EqEq) => true,
            (Token::Ge, Token::Ge) => true,
            (Token::Le, Token::Le) => true,
            (Token::Ne, Token::Ne) => true,
            (Token::AndAnd, Token::AndAnd) => true,
            (Token::OrOr, Token::OrOr) => true,
            (Token::PlusPlus, Token::PlusPlus) => true,
            (Token::MinusMinus, Token::MinusMinus) => true,
            (Token::Plus, Token::Plus) => true,
            (Token::Minus, Token::Minus) => true,
            (Token::Star, Token::Star) => true,
            (Token::Slash, Token::Slash) => true,
            (Token::And, Token::And) => true,
            (Token::Or, Token::Or) => true,
            (Token::Caret, Token::Caret) => true,
            (Token::Percent, Token::Percent) => true,
            (Token::Shl, Token::Shl) => true,
            (Token::Shr, Token::Shr) => true,
            (Token::ShrUn, Token::ShrUn) => true,
            (Token::PlusEq, Token::PlusEq) => true,
            (Token::MinusEq, Token::MinusEq) => true,
            (Token::StarEq, Token::StarEq) => true,
            (Token::SlashEq, Token::SlashEq) => true,
            (Token::AndEq, Token::AndEq) => true,
            (Token::OrEq, Token::OrEq) => true,
            (Token::CaretEq, Token::CaretEq) => true,
            (Token::PercentEq, Token::PercentEq) => true,
            (Token::ShlEq, Token::ShlEq) => true,
            (Token::ShrEq, Token::ShrEq) => true,
            (Token::ShrUnEq, Token::ShrUnEq) => true,
            _ => false,
        }
    }
}

/// A token together with the place it was read from.
#[derive(Debug, Clone, PartialEq, Eq)]
pub struct TokenSpan {
    pub tok: Token,
    /// Where the token stands in the source.
    pub span: Span,
}

/// The mathematical value of a `TokenSpan`.
pub struct TokenSpanView {
    pub tok: TokenView,
    pub span: Span,
}

impl View for TokenSpan {
    type V = TokenSpanView;

    open spec fn view(&self) -> TokenSpanView {
        TokenSpanView { tok: self.tok@, span: self.span }
    }
}

} // verus!
