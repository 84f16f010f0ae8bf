//! Front end of a Java source checker: a source map with line tracking, a
//! tokenizer that decodes unicode escapes, a recursive-descent parser for
//! compilation units, and the diagnostics both of them report.

pub mod text;
pub mod chars;
pub mod filemap;
pub mod diagnostics;
pub mod render;
pub mod syntax;
pub mod job;
pub mod ui;
pub mod java;
pub mod dispatch;
pub mod check;
pub mod style;
pub mod analyze;
