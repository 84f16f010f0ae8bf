//! Reports on a source text: errors, warnings and notes, each with the
//! place it speaks of.

use vstd::prelude::*;
use crate::filemap::Span;

verus! {

/// How grave a report is.
#[derive(Debug, Clone, Copy, PartialEq, Eq, Structural)]
pub enum Severity {
    Error,
    Warning,
    Note,
}

/// What a remark is meant as.
#[derive(Debug, Clone, Copy, PartialEq, Eq, Structural)]
pub enum RemarkKind {
    Note,
    Help,
}

/// The piece of source that a remark shows.
#[derive(Debug, Clone, PartialEq, Eq)]
pub enum Snippet {
    /// The source at the span, underlined.
    Highlight(Span),
    /// The source with the text at the span replaced.
    Replace(Span, String),
}

/// The mathematical value of a `Snippet`.
pub enum SnippetView {
    Highlight(Span),
    Replace(Span, Seq<char>),
}

impl View for Snippet {
    type V = SnippetView;

    open spec fn view(&self) -> SnippetView {
        match *self {
            Snippet::Highlight(span) => SnippetView::Highlight(span),
            Snippet::Replace(span, text) => SnippetView::Replace(span, text@),
        }
    }
}

/// An addition to a report.
#[derive(Debug, Clone, PartialEq, Eq)]
pub struct Remark {
    pub kind: RemarkKind,
    pub message: String,
    pub snippet: Snippet,
}

/// The mathematical value of a `Remark`.
pub struct RemarkView {
    pub kind: RemarkKind,
    pub message: Seq<char>,
    pub snippet: SnippetView,
}

impl View for Remark {
    type V = RemarkView;

    open spec fn view(&self) -> RemarkView {
        RemarkView { kind: self.kind, message: self.message@, snippet: self.snippet@ }
    }
}

/// The values of a list of remarks.
pub open spec fn remarks_view(v: Seq<Remark>) -> Seq<RemarkView> {
    v.map_values(|r: Remark| r@)
}

/// A message about a place in the source.
#[derive(Debug, Clone, PartialEq, Eq)]
pub struct Report {
    pub severity: Severity,
    pub message: String,
    pub span: Span,
    pub remarks: Vec<Remark>,
}

/// The mathematical value of a `Report`.
pub struct ReportView {
    pub severity: Severity,
    pub message: Seq<char>,
    pub span: Span,
    pub remarks: Seq<RemarkView>,
}

impl View for Report {
    type V = ReportView;

    open spec fn view(&self) -> ReportView {
        ReportView {
            severity: self.severity,
            message: self.message@,
            span: self.span,
            remarks: remarks_view(self.remarks@),
        }
    }
}

/// The values of a list of reports.
pub open spec fn reports_view(v: Seq<Report>) -> Seq<ReportView> {
    v.map_values(|r: Report| r@)
}

impl ReportView {
    /// A report without remarks.
    pub open spec fn simple(severity: Severity, span: Span, message: Seq<char>) -> ReportView {
        ReportView { severity, message, span, remarks: Seq::empty() }
    }

    /// An error without remarks.
    pub open spec fn error(span: Span, message: Seq<char>) -> ReportView {
        ReportView::simple(Severity::Error, span, message)
    }
}

impl Remark {
    /// A note that shows `snippet`.
    pub fn note(message: String, snippet: Snippet) -> (r: Remark)
        ensures
            r@ == (RemarkView { kind: RemarkKind::Note, message: message@, snippet: snippet@ }),
    {
        Remark { kind: RemarkKind::Note, message, snippet }
    }

    /// A hint that shows `snippet`.
    pub fn help(message: String, snippet: Snippet) -> (r: Remark)
        ensures
            r@ == (RemarkView { kind: RemarkKind::Help, message: message@, snippet: snippet@ }),
    {
        Remark { kind: RemarkKind::Help, message, snippet }
    }
}

impl Report {
    /// A report without remarks.
    pub fn simple(severity: Severity, span: Span, message: String) -> (r: Report)
        ensures
            r@ == ReportView::simple(severity, span, message@),
    {
        let r = Report { severity, message, span, remarks: Vec::new() };
        assert(r@.remarks =~= Seq::empty());
        r
    }

    /// An error without remarks.
    pub fn error(span: Span, message: String) -> (r: Report)
        ensures
            r@ == ReportView::error(span, message@),
    {
        Report::simple(Severity::Error, span, message)
    }

    /// A warning without remarks.
    pub fn warning(span: Span, message: String) -> (r: Report)
        ensures
            r@ == ReportView::simple(Severity::Warning, span, message@),
    {
        Report::simple(Severity::Warning, span, message)
    }

    /// A note without remarks.
    pub fn note(span: Span, message: String) -> (r: Report)
        ensures
            r@ == ReportView::simple(Severity::Note, span, message@),
    {
        Report::simple(Severity::Note, span, message)
    }

    /// The report with one more remark at its end.
    pub fn with_remark(self, remark: Remark) -> (r: Report)
        ensures
            r@ == (ReportView { remarks: self@.remarks.push(remark@), ..self@ }),
    {
        let mut r = self;
        r.remarks.push(remark);
        assert(r@.remarks =~= self@.remarks.push(remark@));
        r
    }
}

/// Appending a report to a list appends its value to the list's value.
pub proof fn lemma_reports_push(v: Seq<Report>, r: Report)
    ensures
        reports_view(v.push(r)) == reports_view(v).push(r@),
{
}

} // verus!
