use jswag::diagnostics::{RemarkKind, Report, Severity, Snippet};
use jswag::filemap::{FileMap, Span};
use jswag::syntax::ast::{CUnit, Class, Ident, Import, Item, Method, Modifier, Visibility};
use jswag::syntax::lex::Tokenizer;
use jswag::syntax::parse::{parse_compilation_unit, PErr, Parser};

fn parse(src: &str) -> (Option<CUnit>, Vec<Report>) {
    let fmap = FileMap::new("<unit-test>".into(), src.into());
    let parsed = parse_compilation_unit(fmap);
    (parsed.ast, parsed.reports)
}

fn only_class(cu: &CUnit) -> &Class {
    assert_eq!(cu.items.len(), 1);
    match &cu.items[0] {
        Item::Class(c) => c,
        other => panic!("not a class: {:?}", other),
    }
}

fn only_method(c: &Class) -> &Method {
    assert_eq!(c.methods.len(), 1);
    &c.methods[0]
}

fn names(path: &[Ident]) -> Vec<String> {
    path.iter().map(|i| i.name.clone()).collect()
}

#[test]
fn public_class_without_members() {
    let (ast, reports) = parse("public class A {}");
    assert!(reports.is_empty());
    let cu = ast.unwrap();
    let c = only_class(&cu);
    assert_eq!(c.name.name, "A");
    assert_eq!(c.name.span, Span { lo: 13, hi: 14 });
    assert_eq!(c.vis, Visibility::Public);
    assert!(c.methods.is_empty());
}

#[test]
fn class_without_modifier_is_package_visible() {
    let (ast, reports) = parse("class A {}");
    assert!(reports.is_empty());
    let cu = ast.unwrap();
    assert_eq!(only_class(&cu).vis, Visibility::Package);
}

#[test]
fn wildcard_import() {
    let (ast, reports) = parse("import a.b.*;");
    assert!(reports.is_empty());
    let cu = ast.unwrap();
    assert_eq!(cu.items.len(), 1);
    match &cu.items[0] {
        Item::Import(Import::Wildcard(name)) => {
            assert_eq!(names(&name.path), vec!["a".to_string(), "b".to_string()]);
            assert!(name.last.is_none());
        }
        other => panic!("not a wildcard import: {:?}", other),
    }
}

#[test]
fn single_import() {
    let (ast, reports) = parse("import IO.AlgoTools;");
    assert!(reports.is_empty());
    let cu = ast.unwrap();
    match &cu.items[0] {
        Item::Import(Import::Single(name)) => {
            assert_eq!(names(&name.path), vec!["IO".to_string()]);
            assert_eq!(name.last.as_ref().unwrap().name, "AlgoTools");
            assert_eq!(name.last.as_ref().unwrap().span, Span { lo: 10, hi: 19 });
        }
        other => panic!("not a single import: {:?}", other),
    }
}

#[test]
fn imports_and_classes_in_order() {
    let (ast, reports) = parse("import a.B;\nimport c.*;\npublic class D {}\nclass E {}");
    assert!(reports.is_empty());
    let cu = ast.unwrap();
    assert_eq!(cu.items.len(), 4);
    assert!(matches!(cu.items[0], Item::Import(Import::Single(_))));
    assert!(matches!(cu.items[1], Item::Import(Import::Wildcard(_))));
    assert!(matches!(cu.items[2], Item::Class(_)));
    assert!(matches!(cu.items[3], Item::Class(_)));
}

#[test]
fn main_method() {
    let (ast, reports) = parse("class A { public static void main(String[] args) {} }");
    assert!(reports.is_empty());
    let cu = ast.unwrap();
    let c = only_class(&cu);
    assert_eq!(c.name.name, "A");
    let m = only_method(c);
    assert_eq!(m.name.name, "main");
    assert_eq!(m.ret_ty.name, "void");
    assert_eq!(m.vis, Visibility::Public);
    assert!(m.static_);
    assert!(!m.final_);
    assert_eq!(m.params.len(), 1);
    assert_eq!(m.params[0].ty.name, "String");
    assert_eq!(m.params[0].name.name, "args");
    assert_eq!(m.params[0].dims, 1);
    assert!(!m.params[0].final_);
}

#[test]
fn dims_behind_the_name() {
    let (ast, reports) = parse("class A { int f(final int a[][], long b) { { } } }");
    assert!(reports.is_empty());
    let cu = ast.unwrap();
    let m = only_method(only_class(&cu));
    assert_eq!(m.vis, Visibility::Package);
    assert_eq!(m.params.len(), 2);
    assert_eq!(m.params[0].dims, 2);
    assert!(m.params[0].final_);
    assert_eq!(m.params[1].dims, 0);
    assert_eq!(m.params[1].ty.name, "long");
}

#[test]
fn private_final_method() {
    let (ast, reports) = parse("class A { private final int f() {} }");
    assert!(reports.is_empty());
    let cu = ast.unwrap();
    let m = only_method(only_class(&cu));
    assert_eq!(m.vis, Visibility::Private);
    assert!(m.final_);
    assert!(!m.static_);
}

#[test]
fn fields_are_passed_over() {
    let (ast, reports) = parse("class A { int x = 3; int y, z; void f() { if (x) { y(); } } }");
    assert!(reports.is_empty());
    let cu = ast.unwrap();
    let m = only_method(only_class(&cu));
    assert_eq!(m.name.name, "f");
}

#[test]
fn duplicate_modifier() {
    let (ast, reports) = parse("public public class A {}");
    assert!(ast.is_none());
    assert_eq!(reports.len(), 1);
    assert_eq!(reports[0].severity, Severity::Error);
    assert_eq!(reports[0].message, "Duplicate token `public`");
    assert_eq!(reports[0].span, Span { lo: 7, hi: 13 });
    assert!(reports[0].remarks.is_empty());
}

#[test]
fn unexpected_class_modifier() {
    let (ast, reports) = parse("public static class A {}");
    assert!(ast.is_none());
    assert_eq!(reports.len(), 1);
    assert_eq!(reports[0].message, "Unexpected class modifier `static`");
    assert_eq!(reports[0].span, Span { lo: 7, hi: 13 });
}

#[test]
fn modifier_alone_starts_a_class() {
    let (ast, reports) = parse("final class A {}");
    assert!(ast.is_none());
    assert_eq!(reports.len(), 1);
    assert_eq!(reports[0].message, "Unexpected class modifier `final`");
}

#[test]
fn second_visibility() {
    let (ast, reports) = parse("class A { public static private void f() {} }");
    assert!(ast.is_none());
    assert_eq!(reports.len(), 1);
    assert_eq!(reports[0].message, "Unexpected visibility modifier `private`");
    assert_eq!(reports[0].span, Span { lo: 24, hi: 31 });
    assert_eq!(reports[0].remarks.len(), 1);
    assert_eq!(reports[0].remarks[0].kind, RemarkKind::Note);
    assert_eq!(
        reports[0].remarks[0].message,
        "Already parsed the visibility modifier `public` here"
    );
    assert_eq!(reports[0].remarks[0].snippet, Snippet::Highlight(Span { lo: 10, hi: 16 }));
}

#[test]
fn unexpected_method_modifier() {
    let (ast, reports) = parse("class A { native void f() {} }");
    assert!(ast.is_none());
    assert_eq!(reports.len(), 1);
    assert_eq!(reports[0].message, "Unexpected method modifier `native`");
}

#[test]
fn eof_where_token_expected() {
    let (ast, reports) = parse("class A {");
    assert!(ast.is_none());
    assert_eq!(reports.len(), 1);
    assert_eq!(reports[0].message, "Expected token, found '<eof>'");
    assert_eq!(reports[0].span, Span { lo: 8, hi: 9 });
}

#[test]
fn eof_inside_a_body() {
    let (ast, reports) = parse("class A { void f() { {");
    assert!(ast.is_none());
    assert_eq!(reports.len(), 1);
    assert_eq!(reports[0].message, "Expected token, found '<eof>'");
}

#[test]
fn unexpected_token_one_expected() {
    let (ast, reports) = parse("class 3 {}");
    assert!(ast.is_none());
    assert_eq!(reports.len(), 1);
    assert_eq!(reports[0].message, "Unexpected token: Expected identifier, found `literal`");
    assert_eq!(reports[0].span, Span { lo: 6, hi: 7 });
}

#[test]
fn unexpected_token_keyword_expected() {
    let (ast, reports) = parse("public A {}");
    assert!(ast.is_none());
    assert_eq!(reports.len(), 1);
    assert_eq!(reports[0].message, "Unexpected token: Expected `class`, found `identifier`");
}

#[test]
fn unexpected_token_after_member_name() {
    let (ast, reports) = parse("class A { int x + }");
    assert!(ast.is_none());
    assert_eq!(reports.len(), 1);
    assert_eq!(
        reports[0].message,
        "Unexpected token: Expected one of `(`, `;`, `=`, `,`, found `+`"
    );
    assert_eq!(reports[0].span, Span { lo: 16, hi: 17 });
}

#[test]
fn unexpected_token_in_import() {
    let (ast, reports) = parse("import a.+;");
    assert!(ast.is_none());
    assert_eq!(reports.len(), 1);
    assert_eq!(
        reports[0].message,
        "Unexpected token: Expected one of `*`, identifier, found `+`"
    );
    // a dot before a digit starts a number
    let (ast, reports) = parse("import a.3;");
    assert!(ast.is_none());
    assert_eq!(
        reports[0].message,
        "Unexpected token: Expected one of `;`, `.`, found `literal`"
    );
    let (ast, reports) = parse("import a b;");
    assert!(ast.is_none());
    assert_eq!(
        reports[0].message,
        "Unexpected token: Expected one of `;`, `.`, found `identifier`"
    );
}

#[test]
fn bracket_without_partner() {
    let (ast, reports) = parse("class A { void f(int[ a) {} }");
    assert!(ast.is_none());
    assert_eq!(reports.len(), 1);
    assert_eq!(reports[0].message, "Unexpected token: Expected `]`, found `identifier`");
}

#[test]
fn stops_at_a_token_that_starts_no_item() {
    let (ast, reports) = parse("import a.B; 42 class C {}");
    assert!(reports.is_empty());
    assert_eq!(ast.unwrap().items.len(), 1);
}

#[test]
fn empty_source_is_an_empty_unit() {
    let (ast, reports) = parse("");
    assert!(reports.is_empty());
    assert!(ast.unwrap().items.is_empty());
    let (ast, reports) = parse("  // nothing here\n/* nor here */");
    assert!(reports.is_empty());
    assert!(ast.unwrap().items.is_empty());
}

#[test]
fn lexical_errors_come_before_the_syntax_error() {
    let (ast, reports) = parse("class A { int x = 09; void f( }");
    assert!(ast.is_none());
    assert_eq!(reports.len(), 2);
    assert_eq!(reports[0].message, "Invalid digit for base 8 literal");
    assert_eq!(reports[0].span, Span { lo: 19, hi: 20 });
    assert_eq!(reports[1].message, "Unexpected token: Expected identifier, found `}`");
}

#[test]
fn lines_are_recorded_while_parsing() {
    let fmap = FileMap::new("A.java".into(), "class A {\r\n}\n".into());
    let parsed = parse_compilation_unit(fmap);
    assert!(parsed.ast.is_some());
    assert_eq!(parsed.fmap.num_lines(), 2);
    assert_eq!(parsed.fmap.get_line(0), "class A {\r");
    assert_eq!(parsed.fmap.get_line(1), "}");
    assert_eq!(parsed.fmap.get_loc(10).line, 0);
    assert_eq!(parsed.fmap.get_loc(11).line, 1);
}

#[test]
fn parser_on_a_tokenizer() {
    let toks = Tokenizer::new(FileMap::new("A.java".into(), "class A { }\n".into()));
    let mut parser = Parser::new(toks);
    let cu = parser.parse_cunit().unwrap();
    assert_eq!(cu.items.len(), 1);
    // at the end of the source there is nothing more
    assert!(parser.parse_cunit().unwrap().items.is_empty());
    let (fmap, reports) = parser.finish();
    assert!(reports.is_empty());
    assert_eq!(fmap.num_lines(), 1);

    let toks = Tokenizer::new(FileMap::new("A.java".into(), "class A { ".into()));
    let mut parser = Parser::new(toks);
    assert_eq!(parser.parse_cunit().unwrap_err(), PErr::Fatal);
    let (_, reports) = parser.finish();
    assert_eq!(reports.len(), 1);
}

#[test]
fn default_identifier_is_empty() {
    let id = Ident::default();
    assert_eq!(id.name, "");
    assert_eq!(id.span, Span { lo: 0, hi: 0 });
}

#[test]
fn modifiers_as_they_are_written() {
    let all = [
        (Modifier::Public, "public"),
        (Modifier::Protected, "protected"),
        (Modifier::Private, "private"),
        (Modifier::Abstract, "abstract"),
        (Modifier::Static, "static"),
        (Modifier::Final, "final"),
        (Modifier::Synchronized, "synchronized"),
        (Modifier::Native, "native"),
        (Modifier::Strictfp, "strictfp"),
        (Modifier::Transient, "transient"),
        (Modifier::Volatile, "volatile"),
    ];
    for (m, text) in all {
        assert_eq!(m.as_java_string(), text);
        // each of them may stand before a method, where all but five are refused
        let src = format!("class A {{ {} void f() {{}} }}", text);
        let (ast, reports) = parse(&src);
        match m {
            Modifier::Public | Modifier::Protected | Modifier::Private | Modifier::Static
            | Modifier::Final => {
                assert!(reports.is_empty());
                assert!(ast.is_some());
            }
            _ => {
                assert!(ast.is_none());
                assert_eq!(reports[0].message, format!("Unexpected method modifier `{}`", text));
            }
        }
    }
}

#[test]
fn protected_method() {
    let (ast, _) = parse("class A { static protected final void f() {} }");
    let cu = ast.unwrap();
    let m = only_method(only_class(&cu));
    assert_eq!(m.vis, Visibility::Protected);
    assert!(m.static_ && m.final_);
}

#[test]
fn nested_blocks_in_a_body() {
    let (ast, reports) = parse("class A { void f() { { { } } { } } void g() {} }");
    assert!(reports.is_empty());
    let cu = ast.unwrap();
    assert_eq!(only_class(&cu).methods.len(), 2);
}

#[test]
fn severity_of_syntax_errors() {
    let (_, reports) = parse("class");
    assert_eq!(reports.len(), 1);
    assert_eq!(reports[0].severity, Severity::Error);
    assert_eq!(reports[0].span, Span { lo: 0, hi: 5 });
    let r: &Report = &reports[0];
    assert!(r.remarks.iter().all(|x| x.kind == RemarkKind::Note));
    let _ = Snippet::Highlight(r.span);
    let _: Option<Method> = None;
}
