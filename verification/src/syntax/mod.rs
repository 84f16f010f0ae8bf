//! The Java syntax: tokens, the tokenizer, the syntax tree and the parser.

pub mod token;
pub mod decode;
pub mod lexing;
pub mod progress;
pub mod lex;
pub mod ast;
pub mod parsing;
pub mod parse;
pub mod laws;
pub mod lexemes;
