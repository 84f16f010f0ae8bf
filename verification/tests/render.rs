use jswag::diagnostics::{Remark, RemarkKind, Report, Severity, Snippet};
use jswag::filemap::{FileMap, Span};
use jswag::render::{decimal_text, render, Piece, Style};
use jswag::syntax::parse::parse_compilation_unit;

fn text(pieces: &[Piece]) -> String {
    pieces.iter().map(|p| p.text.as_str()).collect()
}

fn styled(pieces: &[Piece], style: Style) -> Vec<String> {
    pieces.iter().filter(|p| p.style == style).map(|p| p.text.clone()).collect()
}

fn map(src: &str, starts: &[usize]) -> FileMap {
    let mut fmap = FileMap::new("A.java".into(), src.into());
    for s in starts {
        fmap.add_line(*s);
    }
    fmap
}

#[test]
fn numbers_in_decimal() {
    assert_eq!(decimal_text(0), "0");
    assert_eq!(decimal_text(7), "7");
    assert_eq!(decimal_text(10), "10");
    assert_eq!(decimal_text(1234567890), "1234567890");
    assert_eq!(decimal_text(usize::MAX), usize::MAX.to_string());
}

#[test]
fn error_in_one_line() {
    let fmap = map("public public class A {}", &[]);
    let report = Report::error(Span { lo: 7, hi: 13 }, "Duplicate token `public`".into());
    let pieces = render(&report, &fmap);
    assert_eq!(
        text(&pieces),
        "\nA.java:1:7 .. 1:13: error: Duplicate token `public`\n\
         A.java:1: public public class A {}\n\
         \x20                ^------\n"
    );
    assert_eq!(styled(&pieces, Style::Error), vec!["error:", "^------"]);
    assert_eq!(styled(&pieces, Style::Bold), vec!["Duplicate token `public`"]);
    assert_eq!(styled(&pieces, Style::LineNumber), vec!["1", "1", "1"]);
    assert_eq!(pieces[0].style, Style::Plain);
    assert_eq!(pieces[0].text, "\nA.java:");
}

#[test]
fn mark_of_one_character() {
    let fmap = map("a\nb c\n", &[2, 6]);
    let report = Report::warning(Span { lo: 4, hi: 4 }, "m".into());
    let pieces = render(&report, &fmap);
    assert_eq!(
        text(&pieces),
        "\nA.java:2:2 .. 2:2: warning: m\nA.java:2: b c\n            ^\n"
    );
    assert_eq!(styled(&pieces, Style::Warning), vec!["warning:", "^"]);
}

#[test]
fn span_over_lines_has_no_mark() {
    let fmap = map("ab\ncd\nef\ngh", &[3, 6, 9]);
    let report = Report::note(Span { lo: 4, hi: 7 }, "m".into());
    let pieces = render(&report, &fmap);
    assert_eq!(
        text(&pieces),
        "\nA.java:2:1 .. 3:1: note: m\nA.java:2: cd\nA.java:3: ef\n"
    );
    assert_eq!(styled(&pieces, Style::Note), vec!["note:"]);
    assert_eq!(styled(&pieces, Style::LineNumber), vec!["2", "3", "2", "3"]);
}

#[test]
fn span_that_ends_before_it_starts() {
    let fmap = map("ab\ncd", &[3]);
    // in one line the mark has length one
    let pieces = render(&Report::error(Span { lo: 1, hi: 0 }, "m".into()), &fmap);
    assert_eq!(text(&pieces), "\nA.java:1:1 .. 1:0: error: m\nA.java:1: ab\n           ^\n");
    // over lines nothing of the source is shown
    let pieces = render(&Report::error(Span { lo: 4, hi: 0 }, "m".into()), &fmap);
    assert_eq!(text(&pieces), "\nA.java:2:1 .. 1:0: error: m\n");
}

#[test]
fn line_numbers_with_more_digits_move_the_mark() {
    let src: String = "x\n".repeat(12);
    let starts: Vec<usize> = (1..12).map(|i| 2 * i).collect();
    let fmap = map(&src, &starts);
    let pieces = render(&Report::error(Span { lo: 18, hi: 18 }, "m".into()), &fmap);
    assert_eq!(text(&pieces), "\nA.java:10:0 .. 10:0: error: m\nA.java:10: x\n           ^\n");
}

#[test]
fn remark_with_highlight() {
    let fmap = map("class A { public static private void f() {} }", &[]);
    let report = Report::error(Span { lo: 24, hi: 30 }, "Unexpected".into()).with_remark(
        Remark::note("Already here".into(), Snippet::Highlight(Span { lo: 10, hi: 15 })),
    );
    let pieces = render(&report, &fmap);
    let line = "A.java:1: class A { public static private void f() {} }\n";
    let expected = format!(
        "\nA.java:1:24 .. 1:30: error: Unexpected\n{}{}^------\n\
         \nA.java:1:10 .. 1:15: note: Already here\n{}{}^-----\n",
        line,
        " ".repeat(34),
        line,
        " ".repeat(20)
    );
    assert_eq!(text(&pieces), expected);
    assert_eq!(styled(&pieces, Style::Error), vec!["error:", "^------"]);
    assert_eq!(styled(&pieces, Style::Note), vec!["note:", "^-----"]);
}

#[test]
fn remark_with_replacement() {
    let fmap = map("class my_class {\n}", &[17]);
    let span = Span { lo: 6, hi: 14 };
    let report = Report::warning(span, "name".into())
        .with_remark(Remark::help("like this".into(), Snippet::Replace(span, "MyClass".into())));
    let pieces = render(&report, &fmap);
    assert_eq!(
        text(&pieces),
        "\nA.java:1:6 .. 1:14: warning: name\n\
         A.java:1: class my_class {\n\
         \x20               ^--------\n\
         \nA.java:1:6 .. 1:14: help: like this\n\
         A.java:1: class MyClass {\n\
         \x20               ^------\n"
    );
    assert_eq!(styled(&pieces, Style::Help), vec!["help:", "^------"]);
}

#[test]
fn replacement_over_lines_and_by_nothing() {
    let fmap = map("ab\ncd\nef", &[3, 6]);
    let report = Report::note(Span { lo: 0, hi: 0 }, "m".into()).with_remark(Remark::note(
        "n".into(),
        Snippet::Replace(Span { lo: 1, hi: 6 }, "".into()),
    ));
    let pieces = render(&report, &fmap);
    assert_eq!(
        text(&pieces),
        "\nA.java:1:0 .. 1:0: note: m\nA.java:1: ab\n          ^\n\
         \nA.java:1:1 .. 3:0: note: n\nA.java:1: aef\n           ^\n"
    );
}

#[test]
fn replacement_of_wide_characters() {
    let fmap = map("x = \"äö\";", &[]);
    let report = Report::note(Span { lo: 0, hi: 0 }, "m".into()).with_remark(Remark::note(
        "n".into(),
        Snippet::Replace(Span { lo: 5, hi: 9 }, "€".into()),
    ));
    let pieces = render(&report, &fmap);
    assert!(text(&pieces).ends_with("A.java:1: x = \"€\";\n               ^\n"));
}

#[test]
fn reports_of_the_parser_are_shown() {
    let parsed = parse_compilation_unit(FileMap::new(
        "B.java".into(),
        "import a;\nclass B {\n  void f() }\n".into(),
    ));
    assert!(parsed.ast.is_none());
    assert_eq!(parsed.reports.len(), 1);
    let pieces = render(&parsed.reports[0], &parsed.fmap);
    assert_eq!(
        text(&pieces),
        "\nB.java:3:11 .. 3:12: error: Unexpected token: Expected `{`, found `}`\n\
         B.java:3:   void f() }\n\
         \x20                    ^-\n"
    );
}

#[test]
fn builders_of_reports() {
    let span = Span { lo: 1, hi: 2 };
    let r = Report::simple(Severity::Warning, span, "m".into());
    assert_eq!(r, Report::warning(span, "m".into()));
    assert_eq!(Report::error(span, "m".into()).severity, Severity::Error);
    assert_eq!(Report::note(span, "m".into()).severity, Severity::Note);
    assert!(r.remarks.is_empty());
    let note = Remark::note("n".into(), Snippet::Highlight(span));
    let help = Remark::help("h".into(), Snippet::Replace(span, "x".into()));
    assert_eq!(note.kind, RemarkKind::Note);
    assert_eq!(help.kind, RemarkKind::Help);
    let r = r.with_remark(note.clone()).with_remark(help.clone());
    assert_eq!(r.remarks, vec![note, help]);
    assert_eq!(r.message, "m");
    assert_eq!(r.span, span);
}
