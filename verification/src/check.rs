//! The check of one source: it is parsed, and passes if it has a tree and
//! nothing in it was reported as an error.

use vstd::prelude::*;
use vstd::string::StringExecFns;
use crate::diagnostics::{Report, reports_view, ReportView, Severity};
use crate::filemap::FileMap;
use crate::syntax::ast::CUnit;
use crate::syntax::lexing::lines_upto;
use crate::syntax::parse::{parse_compilation_unit, parse_source};
use crate::ui::MessageType;

verus! {

/// Why the check of a file failed.
#[derive(Debug, Clone, PartialEq, Eq)]
pub enum Error {
    /// The file was not found.
    NotFound,
    /// Another error of the system; with its text.
    Io(String),
    /// The file is not valid UTF-8; with what is wrong.
    Utf8(String),
    /// Errors were found in the source and reported.
    Unknown,
}

/// What the check of a source gives.
pub struct Checked {
    /// The tree, if the source passed.
    pub ast: Result<CUnit, Error>,
    /// The reports, in the order in which they were made.
    pub reports: Vec<Report>,
    /// The source, with the line starts that were found.
    pub fmap: FileMap,
}

/// Whether one of the reports from index `i` on is an error.
pub open spec fn has_error(reports: Seq<ReportView>, i: int) -> bool
    decreases reports.len() - i,
{
    if i < 0 || i >= reports.len() {
        false
    } else {
        reports[i].severity == Severity::Error || has_error(reports, i + 1)
    }
}

/// Whether one of the reports is an error.
pub fn any_error(reports: &Vec<Report>) -> (r: bool)
    ensures
        r == has_error(reports_view(reports@), 0),
{
    let mut i: usize = 0;
    while i < reports.len()
        invariant
            i <= reports.len(),
            has_error(reports_view(reports@), 0) == has_error(reports_view(reports@), i as int),
        decreases reports.len() - i,
    {
        if reports[i].severity == Severity::Error {
            return true;
        }
        i += 1;
    }
    false
}

/// Checks the source `src` of the file `filename`: parses it, and lets it
/// pass if it has a tree and no error was reported.
pub fn check_file(filename: String, src: String) -> (c: Checked)
    ensures
        reports_view(c.reports@) == parse_source(src@).0.lex.diags,
        match parse_source(src@).1 {
            Some(cu) => if has_error(parse_source(src@).0.lex.diags, 0) {
                c.ast == Err::<CUnit, Error>(Error::Unknown)
            } else {
                c.ast is Ok && c.ast.unwrap()@ == cu
            },
            None => c.ast == Err::<CUnit, Error>(Error::Unknown),
        },
        c.fmap.wf(),
        c.fmap.text() == src@,
        c.fmap.name() == filename@,
        c.fmap.line_starts() == lines_upto(src@, parse_source(src@).0.lex.at),
{
    let parsed = parse_compilation_unit(FileMap::new(filename, src));
    let critical = any_error(&parsed.reports);
    let ast = match parsed.ast {
        Some(cu) => if critical {
            Err(Error::Unknown)
        } else {
            Ok(cu)
        },
        None => Err(Error::Unknown),
    };
    Checked { ast, reports: parsed.reports, fmap: parsed.fmap }
}

/// One line of what a run says.
pub struct Line {
    pub kind: MessageType,
    pub text: String,
}

/// What is said when the check of `file` fails with `e`: the kind and the
/// text of each line.
pub open spec fn failure_lines(file: Seq<char>, e: Error) -> Seq<(MessageType, Seq<char>)> {
    match e {
        Error::NotFound => seq![(MessageType::Error, "File not found: "@ + file)],
        Error::Io(text) => seq![(MessageType::Error, "IO error: "@ + text@)],
        Error::Utf8(text) => seq![
            (
                MessageType::Error,
                "File '"@ + file + "' doesn't contain valid UTF-8 ("@ + text@ + ")"@,
            ),
            (
                MessageType::Note,
                "Convert your file into valid UTF-8 or use the flag `--lossy-decoding`"@,
            ),
        ],
        Error::Unknown => Seq::empty(),
    }
}

/// The kinds and texts of a list of lines.
pub open spec fn lines_view(v: Seq<Line>) -> Seq<(MessageType, Seq<char>)> {
    v.map_values(|l: Line| (l.kind, l.text@))
}

/// What is said when the check of `file` fails with `e`.
pub fn failure_messages(file: &str, e: &Error) -> (lines: Vec<Line>)
    ensures
        lines_view(lines@) == failure_lines(file@, *e),
{
    let mut lines: Vec<Line> = Vec::new();
    match e {
        Error::NotFound => {
            let mut s = "File not found: ".to_owned();
            s.append(file);
            lines.push(Line { kind: MessageType::Error, text: s });
        },
        Error::Io(text) => {
            let mut s = "IO error: ".to_owned();
            s.append(text.as_str());
            lines.push(Line { kind: MessageType::Error, text: s });
        },
        Error::Utf8(text) => {
            let mut s = "File '".to_owned();
            s.append(file);
            s.append("' doesn't contain valid UTF-8 (");
            s.append(text.as_str());
            s.append(")");
            lines.push(Line { kind: MessageType::Error, text: s });
            lines.push(
                Line {
                    kind: MessageType::Note,
                    text: "Convert your file into valid UTF-8 or use the flag `--lossy-decoding`".to_owned(),
                },
            );
        },
        Error::Unknown => {},
    }
    lines
}

} // verus!
