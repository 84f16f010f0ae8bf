//! How a report is shown: a headline with the place and the message, the
//! lines of the source that it speaks of, and under a single line a mark
//! that shows the place. The output is a list of pieces of text, each with
//! the style in which a terminal is to show it.

use vstd::prelude::*;
use vstd::string::StringExecFns;
use crate::diagnostics::{
    Remark, RemarkKind, RemarkView, Report, ReportView, Severity, Snippet, SnippetView,
};
use crate::filemap::{char_index_from, FileMap, line_index, line_text, Loc, Span};
use crate::text::{chars_of, string_of};

verus! {

/// The styles in which text is shown.
#[derive(Debug, Clone, Copy, PartialEq, Eq, Structural)]
pub enum Style {
    Plain,
    Bold,
    /// The number of a line.
    LineNumber,
    /// What belongs to an error, a warning, a note, a hint.
    Error,
    Warning,
    Note,
    Help,
}

/// A piece of text and the style to show it in.
#[derive(Debug, Clone, PartialEq, Eq)]
pub struct Piece {
    pub style: Style,
    pub text: String,
}

/// The mathematical value of a `Piece`.
pub struct PieceView {
    pub style: Style,
    pub text: Seq<char>,
}

impl View for Piece {
    type V = PieceView;

    open spec fn view(&self) -> PieceView {
        PieceView { style: self.style, text: self.text@ }
    }
}

/// The values of a list of pieces.
pub open spec fn pieces_view(v: Seq<Piece>) -> Seq<PieceView> {
    v.map_values(|p: Piece| p@)
}

/// The character for the digit `d`.
pub open spec fn digit_char(d: nat) -> char {
    if d == 0 {
        '0'
    } else if d == 1 {
        '1'
    } else if d == 2 {
        '2'
    } else if d == 3 {
        '3'
    } else if d == 4 {
        '4'
    } else if d == 5 {
        '5'
    } else if d == 6 {
        '6'
    } else if d == 7 {
        '7'
    } else if d == 8 {
        '8'
    } else {
        '9'
    }
}

/// The number `n` written in decimal digits.
pub open spec fn decimal(n: nat) -> Seq<char>
    decreases n,
{
    if n < 10 {
        seq![digit_char(n)]
    } else {
        decimal(n / 10).push(digit_char(n % 10))
    }
}

/// The text made of `n` times the character `c`.
pub open spec fn repeat(c: char, n: nat) -> Seq<char> {
    Seq::new(n, |i: int| c)
}

/// The style that goes with a severity.
pub open spec fn severity_style(s: Severity) -> Style {
    match s {
        Severity::Error => Style::Error,
        Severity::Warning => Style::Warning,
        Severity::Note => Style::Note,
    }
}

/// The word that announces a severity.
pub open spec fn severity_label(s: Severity) -> Seq<char> {
    match s {
        Severity::Error => "error:"@,
        Severity::Warning => "warning:"@,
        Severity::Note => "note:"@,
    }
}

/// The style that goes with a remark.
pub open spec fn remark_style(k: RemarkKind) -> Style {
    match k {
        RemarkKind::Note => Style::Note,
        RemarkKind::Help => Style::Help,
    }
}

/// The word that announces a remark.
pub open spec fn remark_label(k: RemarkKind) -> Seq<char> {
    match k {
        RemarkKind::Note => "note:"@,
        RemarkKind::Help => "help:"@,
    }
}

/// A piece of text in a style.
pub open spec fn piece(style: Style, text: Seq<char>) -> PieceView {
    PieceView { style, text }
}

/// The place of the byte at `offset`: its line, and its distance from the
/// start of that line.
pub open spec fn loc_of(lines: Seq<usize>, offset: usize) -> Loc {
    let line = line_index(lines, offset);
    Loc { line: line as usize, col: (offset - lines[line as int]) as usize }
}

/// The headline: an empty line, then the name of the file, the places
/// where the span starts and ends, the label and the message.
pub open spec fn headline(
    name: Seq<char>,
    from: Loc,
    to: Loc,
    style: Style,
    label: Seq<char>,
    message: Seq<char>,
) -> Seq<PieceView> {
    seq![
        piece(Style::Plain, seq!['\n'] + name + seq![':']),
        piece(Style::LineNumber, decimal((from.line + 1) as nat)),
        piece(Style::Plain, seq![':'] + decimal(from.col as nat) + " .. "@),
        piece(Style::LineNumber, decimal((to.line + 1) as nat)),
        piece(Style::Plain, seq![':'] + decimal(to.col as nat) + ": "@),
        piece(style, label),
        piece(Style::Plain, seq![' ']),
        piece(Style::Bold, message),
        piece(Style::Plain, seq!['\n']),
    ]
}

/// A line of the source, behind the name of the file and its number.
pub open spec fn source_line(name: Seq<char>, line: nat, shown: Seq<char>) -> Seq<PieceView> {
    seq![
        piece(Style::Plain, name + seq![':']),
        piece(Style::LineNumber, decimal(line + 1)),
        piece(Style::Plain, ": "@ + shown + seq!['\n']),
    ]
}

/// The lines of the source from `line` to `last`, each behind the name of
/// the file and its number.
pub open spec fn source_lines(
    name: Seq<char>,
    text: Seq<char>,
    lines: Seq<usize>,
    line: nat,
    last: nat,
) -> Seq<PieceView>
    decreases last + 1 - line,
{
    if line > last || line >= lines.len() {
        Seq::empty()
    } else {
        source_line(name, line, line_text(text, lines[line as int] as nat)) + source_lines(
            name,
            text,
            lines,
            line + 1,
            last,
        )
    }
}

/// How far the mark under a line stands from the left: as far as the text
/// of the line, which stands behind the name of the file, a colon, the
/// number of the line, a colon and a space; and then as far as the column.
pub open spec fn mark_indent(name: Seq<char>, at: Loc) -> nat {
    name.len() + 1 + decimal((at.line + 1) as nat).len() + 2 + at.col as nat
}

/// The mark: spaces up to the place, a caret, and dashes up to the
/// length.
pub open spec fn mark(indent: nat, len: nat, style: Style) -> Seq<PieceView> {
    seq![
        piece(Style::Plain, repeat(' ', indent)),
        piece(style, seq!['^'] + repeat('-', (len - 1) as nat)),
        piece(Style::Plain, seq!['\n']),
    ]
}

/// The length of the mark under a span that lies in one line: one more
/// than the distance of the columns, and at least one.
pub open spec fn mark_len(from: Loc, to: Loc) -> nat {
    if to.col >= from.col {
        (to.col - from.col + 1) as nat
    } else {
        1
    }
}

/// The source at a span, shown: the lines that the span touches, and
/// under a single line the mark.
pub open spec fn highlight(
    name: Seq<char>,
    text: Seq<char>,
    lines: Seq<usize>,
    span: Span,
    style: Style,
) -> Seq<PieceView> {
    let from = loc_of(lines, span.lo);
    let to = loc_of(lines, span.hi);
    if from.line == to.line {
        source_line(name, from.line as nat, line_text(text, lines[from.line as int] as nat))
            + mark(mark_indent(name, from), mark_len(from, to), style)
    } else {
        source_lines(name, text, lines, from.line as nat, to.line as nat)
    }
}

/// The text of a line from column `col` on.
pub open spec fn behind_column(line: Seq<char>, col: nat) -> Seq<char> {
    line.skip(char_index_from(line, col, 0))
}

/// The text of a line up to column `col`.
pub open spec fn before_column(line: Seq<char>, col: nat) -> Seq<char> {
    line.take(char_index_from(line, col, 0))
}

/// The source with the text at a span replaced by `with`, shown in one
/// line: what stands before the span in its first line, the replacement,
/// and what stands behind the span in its last line; and under it the mark
/// for the replacement.
pub open spec fn replacement(
    name: Seq<char>,
    text: Seq<char>,
    lines: Seq<usize>,
    span: Span,
    with: Seq<char>,
    style: Style,
) -> Seq<PieceView> {
    let from = loc_of(lines, span.lo);
    let to = loc_of(lines, span.hi);
    let first = line_text(text, lines[from.line as int] as nat);
    let last = line_text(text, lines[to.line as int] as nat);
    let shown = before_column(first, from.col as nat) + with + behind_column(last, to.col as nat);
    source_line(name, from.line as nat, shown) + mark(
        mark_indent(name, from),
        if with.len() > 0 {
            with.len()
        } else {
            1
        },
        style,
    )
}

/// A snippet, shown.
pub open spec fn show_snippet(
    name: Seq<char>,
    text: Seq<char>,
    lines: Seq<usize>,
    snippet: SnippetView,
    style: Style,
) -> Seq<PieceView> {
    match snippet {
        SnippetView::Highlight(span) => highlight(name, text, lines, span, style),
        SnippetView::Replace(span, with) => replacement(name, text, lines, span, with, style),
    }
}

/// The span that a snippet speaks of.
pub open spec fn snippet_span(snippet: SnippetView) -> Span {
    match snippet {
        SnippetView::Highlight(span) => span,
        SnippetView::Replace(span, _) => span,
    }
}

/// A remark, shown: its headline and its snippet.
pub open spec fn show_remark(name: Seq<char>, text: Seq<char>, lines: Seq<usize>, r: RemarkView) -> Seq<
    PieceView,
> {
    let span = snippet_span(r.snippet);
    headline(
        name,
        loc_of(lines, span.lo),
        loc_of(lines, span.hi),
        remark_style(r.kind),
        remark_label(r.kind),
        r.message,
    ) + show_snippet(name, text, lines, r.snippet, remark_style(r.kind))
}

/// The remarks from index `i` on, shown one after the other.
pub open spec fn show_remarks(
    name: Seq<char>,
    text: Seq<char>,
    lines: Seq<usize>,
    remarks: Seq<RemarkView>,
    i: int,
) -> Seq<PieceView>
    decreases remarks.len() - i,
{
    if i < 0 || i >= remarks.len() {
        Seq::empty()
    } else {
        show_remark(name, text, lines, remarks[i]) + show_remarks(name, text, lines, remarks, i + 1)
    }
}

/// A report, shown: its headline, the source at its span, and its
/// remarks.
pub open spec fn show_report(name: Seq<char>, text: Seq<char>, lines: Seq<usize>, r: ReportView) -> Seq<
    PieceView,
> {
    headline(
        name,
        loc_of(lines, r.span.lo),
        loc_of(lines, r.span.hi),
        severity_style(r.severity),
        severity_label(r.severity),
        r.message,
    ) + highlight(name, text, lines, r.span, severity_style(r.severity)) + show_remarks(
        name,
        text,
        lines,
        r.remarks,
        0,
    )
}

/// Appending a piece to a list appends its value to the list's value.
proof fn lemma_pieces_push(v: Seq<Piece>, p: Piece)
    ensures
        pieces_view(v.push(p)) == pieces_view(v).push(p@),
{
}

/// Adds a piece to the output.
fn emit(out: &mut Vec<Piece>, style: Style, text: String)
    ensures
        pieces_view(final(out)@) == pieces_view(old(out)@).push(piece(style, text@)),
{
    let p = Piece { style, text };
    proof {
        lemma_pieces_push(out@, p);
    }
    out.push(p);
}

/// The character for the digit `d`.
fn digit(d: usize) -> (c: char)
    requires
        d < 10,
    ensures
        c == digit_char(d as nat),
{
    if d == 0 {
        '0'
    } else if d == 1 {
        '1'
    } else if d == 2 {
        '2'
    } else if d == 3 {
        '3'
    } else if d == 4 {
        '4'
    } else if d == 5 {
        '5'
    } else if d == 6 {
        '6'
    } else if d == 7 {
        '7'
    } else if d == 8 {
        '8'
    } else {
        '9'
    }
}

/// The number `n` written in decimal digits.
pub fn decimal_text(n: usize) -> (s: String)
    ensures
        s@ == decimal(n as nat),
    decreases n,
{
    if n < 10 {
        let mut s = String::new();
        s.push(digit(n));
        s
    } else {
        let mut s = decimal_text(n / 10);
        s.push(digit(n % 10));
        s
    }
}

/// Appends `n` times the character `c` to `s`.
fn pad(s: &mut String, c: char, n: usize)
    ensures
        final(s)@ == old(s)@ + repeat(c, n as nat),
{
    let mut i: usize = 0;
    while i < n
        invariant
            i <= n,
            s@ == old(s)@ + repeat(c, i as nat),
        decreases n - i,
    {
        s.push(c);
        i += 1;
    }
}

/// The place of the byte at `offset`.
fn locate(fmap: &FileMap, offset: usize) -> (loc: Loc)
    requires
        fmap.wf(),
    ensures
        loc == loc_of(fmap.line_starts(), offset),
        loc.line < fmap.line_starts().len(),
{
    fmap.get_loc(offset)
}

/// Adds a headline to the output.
fn emit_headline(
    out: &mut Vec<Piece>,
    fmap: &FileMap,
    span: Span,
    style: Style,
    label: &str,
    message: &String,
)
    requires
        fmap.wf(),
    ensures
        pieces_view(final(out)@) == pieces_view(old(out)@) + headline(
            fmap.name(),
            loc_of(fmap.line_starts(), span.lo),
            loc_of(fmap.line_starts(), span.hi),
            style,
            label@,
            message@,
        ),
{
    let from = locate(fmap, span.lo);
    let to = locate(fmap, span.hi);
    let ghost name = fmap.name();
    let mut a = String::new();
    a.push('\n');
    a.append(fmap.filename().as_str());
    a.push(':');
    assert(a@ =~= seq!['\n'] + name + seq![':']);
    emit(out, Style::Plain, a);
    emit(out, Style::LineNumber, decimal_text(from.line + 1));
    let mut b = String::new();
    b.push(':');
    b.append(decimal_text(from.col).as_str());
    b.append(" .. ");
    emit(out, Style::Plain, b);
    emit(out, Style::LineNumber, decimal_text(to.line + 1));
    let mut c = String::new();
    c.push(':');
    c.append(decimal_text(to.col).as_str());
    c.append(": ");
    emit(out, Style::Plain, c);
    emit(out, style, label.to_owned());
    let mut d = String::new();
    d.push(' ');
    emit(out, Style::Plain, d);
    emit(out, Style::Bold, message.clone());
    let mut e = String::new();
    e.push('\n');
    emit(out, Style::Plain, e);
}

/// Adds a line of the source to the output, behind the name of the file
/// and the number of the line.
fn emit_source_line(out: &mut Vec<Piece>, fmap: &FileMap, line: usize, shown: &String)
    requires
        fmap.wf(),
        line < fmap.line_starts().len(),
    ensures
        pieces_view(final(out)@) == pieces_view(old(out)@) + source_line(
            fmap.name(),
            line as nat,
            shown@,
        ),
{
    let mut a = fmap.filename().clone();
    a.push(':');
    assert(a@ =~= fmap.name() + seq![':']);
    emit(out, Style::Plain, a);
    emit(out, Style::LineNumber, decimal_text(line + 1));
    let mut b = ": ".to_owned();
    b.append(shown.as_str());
    b.push('\n');
    assert(b@ =~= ": "@ + shown@ + seq!['\n']);
    emit(out, Style::Plain, b);
}

/// Adds the mark under a line to the output: `dashes` dashes behind the
/// caret.
fn emit_mark(out: &mut Vec<Piece>, fmap: &FileMap, at: Loc, dashes: usize, style: Style)
    requires
        fmap.wf(),
        at.line < fmap.line_starts().len(),
    ensures
        pieces_view(final(out)@) == pieces_view(old(out)@) + mark(
            mark_indent(fmap.name(), at),
            (dashes + 1) as nat,
            style,
        ),
{
    let ghost name = fmap.name();
    let name_chars = chars_of(fmap.filename().as_str());
    let number = chars_of(decimal_text(at.line + 1).as_str());
    let mut a = String::new();
    pad(&mut a, ' ', name_chars.len());
    pad(&mut a, ' ', 1);
    pad(&mut a, ' ', number.len());
    pad(&mut a, ' ', 2);
    pad(&mut a, ' ', at.col);
    assert(a@ =~= repeat(' ', mark_indent(name, at)));
    emit(out, Style::Plain, a);
    let mut b = String::new();
    b.push('^');
    pad(&mut b, '-', dashes);
    emit(out, style, b);
    let mut c = String::new();
    c.push('\n');
    emit(out, Style::Plain, c);
}

/// Adds the source at a span to the output: the lines that the span
/// touches, and under a single line the mark.
fn emit_highlight(out: &mut Vec<Piece>, fmap: &FileMap, span: Span, style: Style)
    requires
        fmap.wf(),
    ensures
        pieces_view(final(out)@) == pieces_view(old(out)@) + highlight(
            fmap.name(),
            fmap.text(),
            fmap.line_starts(),
            span,
            style,
        ),
{
    let ghost before = pieces_view(out@);
    let ghost name = fmap.name();
    let ghost text = fmap.text();
    let ghost lines = fmap.line_starts();
    let from = locate(fmap, span.lo);
    let to = locate(fmap, span.hi);
    if from.line == to.line {
        let shown = fmap.get_line(from.line);
        emit_source_line(out, fmap, from.line, &shown);
        let dashes = if to.col >= from.col {
            to.col - from.col
        } else {
            0
        };
        emit_mark(out, fmap, from, dashes, style);
    } else if from.line > to.line {
    } else {
        let mut line = from.line;
        let ghost goal = source_lines(name, text, lines, from.line as nat, to.line as nat);
        let ghost mut done: Seq<PieceView> = Seq::empty();
        while line <= to.line
            invariant
                fmap.wf(),
                name == fmap.name(),
                text == fmap.text(),
                lines == fmap.line_starts(),
                to.line < lines.len(),
                line <= to.line + 1,
                pieces_view(out@) =~= before + done,
                goal =~= done + source_lines(name, text, lines, line as nat, to.line as nat),
            decreases to.line + 1 - line,
        {
            let shown = fmap.get_line(line);
            emit_source_line(out, fmap, line, &shown);
            proof {
                done = done + source_line(name, line as nat, shown@);
            }
            line += 1;
        }
    }
}

/// The text of `line` up to column `col`, and the text from that column
/// on.
fn split_at_column(line: &String, col: usize) -> (r: (String, String))
    ensures
        r.0@ == before_column(line@, col as nat),
        r.1@ == behind_column(line@, col as nat),
{
    let chars = chars_of(line.as_str());
    let _n: usize = crate::text::byte_length(line.as_str());
    let at = crate::filemap::char_index(&chars, col);
    let before = string_of(&chars, 0, at);
    let behind = string_of(&chars, at, chars.len());
    (before, behind)
}

/// Adds to the output the source with the text at a span replaced by
/// `with`, and under it the mark for the replacement.
fn emit_replacement(out: &mut Vec<Piece>, fmap: &FileMap, span: Span, with: &String, style: Style)
    requires
        fmap.wf(),
    ensures
        pieces_view(final(out)@) == pieces_view(old(out)@) + replacement(
            fmap.name(),
            fmap.text(),
            fmap.line_starts(),
            span,
            with@,
            style,
        ),
{
    let from = locate(fmap, span.lo);
    let to = locate(fmap, span.hi);
    let first = fmap.get_line(from.line);
    let last = fmap.get_line(to.line);
    let head = split_at_column(&first, from.col);
    let tail = split_at_column(&last, to.col);
    let mut shown = head.0;
    shown.append(with.as_str());
    shown.append(tail.1.as_str());
    emit_source_line(out, fmap, from.line, &shown);
    let n = chars_of(with.as_str()).len();
    let dashes = if n > 0 {
        n - 1
    } else {
        0
    };
    emit_mark(out, fmap, from, dashes, style);
}

/// Adds a remark to the output: its headline and its snippet.
fn emit_remark(out: &mut Vec<Piece>, fmap: &FileMap, remark: &Remark)
    requires
        fmap.wf(),
    ensures
        pieces_view(final(out)@) == pieces_view(old(out)@) + show_remark(
            fmap.name(),
            fmap.text(),
            fmap.line_starts(),
            remark@,
        ),
{
    let style = match remark.kind {
        RemarkKind::Note => Style::Note,
        RemarkKind::Help => Style::Help,
    };
    let label = match remark.kind {
        RemarkKind::Note => "note:",
        RemarkKind::Help => "help:",
    };
    match &remark.snippet {
        Snippet::Highlight(span) => {
            emit_headline(out, fmap, *span, style, label, &remark.message);
            emit_highlight(out, fmap, *span, style);
        },
        Snippet::Replace(span, with) => {
            emit_headline(out, fmap, *span, style, label, &remark.message);
            emit_replacement(out, fmap, *span, with, style);
        },
    }
}

/// Shows a report: its headline, the source at its span, and its
/// remarks, as pieces of text to be written one after the other.
pub fn render(report: &Report, fmap: &FileMap) -> (out: Vec<Piece>)
    requires
        fmap.wf(),
    ensures
        pieces_view(out@) == show_report(
            fmap.name(),
            fmap.text(),
            fmap.line_starts(),
            report@,
        ),
{
    let ghost name = fmap.name();
    let ghost text = fmap.text();
    let ghost lines = fmap.line_starts();
    let mut out: Vec<Piece> = Vec::new();
    let style = match report.severity {
        Severity::Error => Style::Error,
        Severity::Warning => Style::Warning,
        Severity::Note => Style::Note,
    };
    let label = match report.severity {
        Severity::Error => "error:",
        Severity::Warning => "warning:",
        Severity::Note => "note:",
    };
    emit_headline(&mut out, fmap, report.span, style, label, &report.message);
    emit_highlight(&mut out, fmap, report.span, style);
    let ghost top = pieces_view(out@);
    let ghost goal = show_remarks(name, text, lines, report@.remarks, 0);
    let mut i: usize = 0;
    let ghost mut done: Seq<PieceView> = Seq::empty();
    while i < report.remarks.len()
        invariant
            fmap.wf(),
            name == fmap.name(),
            text == fmap.text(),
            lines == fmap.line_starts(),
            i <= report.remarks.len(),
            pieces_view(out@) =~= top + done,
            goal =~= done + show_remarks(name, text, lines, report@.remarks, i as int),
        decreases report.remarks.len() - i,
    {
        emit_remark(&mut out, fmap, &report.remarks[i]);
        proof {
            done = done + show_remark(name, text, lines, report.remarks@[i as int]@);
        }
        i += 1;
    }
    out
}

} // verus!
